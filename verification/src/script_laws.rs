//! What the scripts do, said of the commands that they hold and the order they stand in.

use vstd::prelude::*;

use crate::docker::{
    argument_texts, batch_script, case_command, case_line, case_lines, CaseKind, DockerRun,
    RunCase,
};
use crate::framing::{framed_report, framed_section};
use crate::language::Language;
use crate::runner::{
    compile_block, compile_step, compile_text, nonce_text, prepare_text, run_step, run_text,
    script_text, section_step, ENVIRONMENT, TEMPLATE_ROOT,
};
use crate::text::{
    ascii_alphanumeric, decimal, joined, lemma_filter_concat, lemma_filter_keeps_all,
};

verus! {

// ---- Commands ----

/// The commands of every language. Only Rust and C# copy a project, and only what a compiler
/// leaves behind is run where there is one.
pub proof fn lemma_commands(language: Language)
    ensures
        match language {
            Language::Rust => {
                &&& prepare_text(language) == Some(
                    "cp -a /opt/knocks/rust/. . && mkdir -p src && mv lib.rs src/lib.rs"@,
                )
                &&& compile_text(language) is None
                &&& run_text(language) == "cargo test --offline"@
            },
            Language::Cpp => {
                &&& prepare_text(language) is None
                &&& compile_text(language) == Some("g++ -std=c++17 -w -o _prog prog.cc"@)
                &&& run_text(language) == "./_prog"@
            },
            Language::Csharp => {
                &&& prepare_text(language) == Some(
                    "cp -a /opt/knocks/csharp/. . && rm -f Program.cs"@,
                )
                &&& compile_text(language) == Some(
                    "dotnet build --no-restore -v q --nologo -p:GenerateFullPaths=false -o _out"@,
                )
                &&& run_text(language) == "dotnet _out/knocks.dll"@
            },
            Language::Java => {
                &&& prepare_text(language) is None
                &&& compile_text(language) == Some("javac -nowarn prog.java"@)
                &&& run_text(language) == "java Main"@
            },
            Language::Python => {
                &&& prepare_text(language) is None
                &&& compile_text(language) is None
                &&& run_text(language) == "python3 prog.py"@
            },
            Language::Typescript => {
                &&& prepare_text(language) is None
                &&& compile_text(language) == Some("tsc --target es2020 prog.ts"@)
                &&& run_text(language) == "node prog.js"@
            },
            Language::Javascript => {
                &&& prepare_text(language) is None
                &&& compile_text(language) is None
                &&& run_text(language) == "node prog.js"@
            },
        },
{
    match language {
        Language::Rust => {
            reveal_strlit("cp -a /opt/knocks/rust/. . && mkdir -p src && mv lib.rs src/lib.rs");
            reveal_strlit("cp -a ");
            reveal_strlit("/opt/knocks");
            reveal_strlit("/rust/. . && mkdir -p src && mv ");
            reveal_strlit("lib.rs");
            reveal_strlit(" src/lib.rs");
            assert("cp -a "@ + TEMPLATE_ROOT@ + "/rust/. . && mkdir -p src && mv "@ + "lib.rs"@
                + " src/lib.rs"@
                =~= "cp -a /opt/knocks/rust/. . && mkdir -p src && mv lib.rs src/lib.rs"@);
        },
        Language::Cpp => {
            reveal_strlit("g++ -std=c++17 -w -o _prog prog.cc");
            reveal_strlit("g++ -std=c++17 -w -o _prog ");
            reveal_strlit("prog.cc");
            assert("g++ -std=c++17 -w -o _prog "@ + "prog.cc"@
                =~= "g++ -std=c++17 -w -o _prog prog.cc"@);
        },
        Language::Csharp => {
            reveal_strlit("cp -a /opt/knocks/csharp/. . && rm -f Program.cs");
            reveal_strlit("cp -a ");
            reveal_strlit("/opt/knocks");
            reveal_strlit("/csharp/. . && rm -f Program.cs");
            assert("cp -a "@ + TEMPLATE_ROOT@ + "/csharp/. . && rm -f Program.cs"@
                =~= "cp -a /opt/knocks/csharp/. . && rm -f Program.cs"@);
        },
        Language::Java => {
            reveal_strlit("javac -nowarn prog.java");
            reveal_strlit("javac -nowarn ");
            reveal_strlit("prog.java");
            assert("javac -nowarn "@ + "prog.java"@ =~= "javac -nowarn prog.java"@);
        },
        Language::Python => {
            reveal_strlit("python3 prog.py");
            reveal_strlit("python3 ");
            reveal_strlit("prog.py");
            assert("python3 "@ + "prog.py"@ =~= "python3 prog.py"@);
        },
        Language::Typescript => {
            reveal_strlit("tsc --target es2020 prog.ts");
            reveal_strlit("tsc ");
            reveal_strlit("--target");
            reveal_strlit("es2020");
            reveal_strlit(" ");
            reveal_strlit("prog.ts");
            assert("tsc "@ + ("--target"@ + " "@ + "es2020"@) + " "@ + "prog.ts"@
                =~= "tsc --target es2020 prog.ts"@);
        },
        Language::Javascript => {
            reveal_strlit("node prog.js");
            reveal_strlit("node ");
            reveal_strlit("prog.js");
            assert("node "@ + "prog.js"@ =~= "node prog.js"@);
        },
    }
}

/// The commands that must succeed before a program can run, in order.
pub open spec fn commands_before(language: Language) -> Seq<Seq<char>> {
    (match prepare_text(language) {
        Some(prepare) => seq![prepare],
        None => Seq::empty(),
    }) + (match compile_text(language) {
        Some(compile) => seq![compile],
        None => Seq::empty(),
    })
}

// ---- Production ----

proof fn lemma_limit()
    ensures
        decimal(20) == "20"@,
{
    reveal_strlit("20");
    assert(decimal(2) =~= seq!['2']);
    assert(decimal(20) =~= seq!['2', '0']);
}

/// The script writes the submission to its file, then compiles, then runs, then reports, and
/// does nothing else: one step comes right behind the other.
///
/// The commands before the program run one behind the other's success, with their streams in
/// `_cout` and `_cerr` and their exit code in `__c`. The program runs only where that is zero,
/// for twenty seconds at most, with its streams in `_pout` and `_perr` and its exit code in
/// `_exit`. Every file is printed behind its name, and the name of the end comes last.
pub proof fn lemma_script_takes_every_step(language: Language, code: Seq<char>, nonce: Seq<char>)
    ensures
        ({
            let writes = "printf %s '"@ + code + "' | base64 -d > "@ + language.source_file_text()
                + "\n"@;
            let compiles = if commands_before(language).len() > 0 {
                "{ "@ + joined(commands_before(language), " && "@)
                    + " ; } >_cout 2>_cerr\n__c=$?\n"@
            } else {
                ": >_cout\n: >_cerr\n__c=0\n"@
            };
            let runs = "if [ \"$__c\" -eq 0 ]; then\n  timeout "@ + "20"@ + " "@ + run_text(
                language,
            ) + " >_pout 2>_perr\n  echo $? >_exit\nelse\n  : >_pout\n  : >_perr\n  : >_exit\nfi\n"@;
            script_text(language, code, nonce) == "set -u\n"@ + ENVIRONMENT@
                + "__d=$(mktemp -d) && cd \"$__d\" || exit 90\n"@ + writes + compiles + runs
                + reporting(nonce, seq!["cout"@, "cerr"@, "pout"@, "perr"@, "exit"@])
                + "printf '\\n"@ + nonce + ":end\\n'\nexit 0\n"@
        }),
{
    lemma_limit();
    let before = commands_before(language);
    match (prepare_text(language), compile_text(language)) {
        (Some(p), Some(c)) => {
            assert(before =~= seq![p, c]);
            assert(before.drop_last() =~= seq![p]);
            assert(joined(seq![p], " && "@) == p);
        },
        (Some(p), None) => {
            assert(before =~= seq![p]);
        },
        (None, Some(c)) => {
            assert(before =~= seq![c]);
        },
        (None, None) => {},
    }
    lemma_five_reports(nonce);
    lemma_script_regrouped(language, code, nonce);
}

proof fn lemma_assoc(a: Seq<char>, b: Seq<char>, c: Seq<char>)
    ensures
        a + (b + c) == (a + b) + c,
{
    assert(a + (b + c) =~= (a + b) + c);
}

proof fn lemma_script_regrouped(language: Language, code: Seq<char>, nonce: Seq<char>)
    ensures
        script_text(language, code, nonce) == "set -u\n"@ + ENVIRONMENT@
            + "__d=$(mktemp -d) && cd \"$__d\" || exit 90\n"@ + ("printf %s '"@ + code
            + "' | base64 -d > "@ + language.source_file_text() + "\n"@) + compile_step(language)
            + run_step(language) + (section_step(nonce, "cout"@) + section_step(nonce, "cerr"@)
            + section_step(nonce, "pout"@) + section_step(nonce, "perr"@) + section_step(
            nonce,
            "exit"@,
        )) + "printf '\\n"@ + nonce + ":end\\n'\nexit 0\n"@,
{
    let x = "set -u\n"@ + ENVIRONMENT@ + "__d=$(mktemp -d) && cd \"$__d\" || exit 90\n"@;
    let d = "printf %s '"@;
    let h = x + d + code;
    let (e, src, nl) = ("' | base64 -d > "@, language.source_file_text(), "\n"@);
    let (cs, rs) = (compile_step(language), run_step(language));
    let (s1, s2, s3, s4, s5) = (
        section_step(nonce, "cout"@),
        section_step(nonce, "cerr"@),
        section_step(nonce, "pout"@),
        section_step(nonce, "perr"@),
        section_step(nonce, "exit"@),
    );
    let (p, z) = ("printf '\\n"@, ":end\\n'\nexit 0\n"@);
    let t0 = e + src + nl;
    let t2 = t0 + cs + rs;
    let t7 = t2 + s1 + s2 + s3 + s4 + s5;
    lemma_assoc(h, t7 + p + nonce, z);
    lemma_assoc(h, t7 + p, nonce);
    lemma_assoc(h, t7, p);
    lemma_assoc(h, t2 + s1 + s2 + s3 + s4, s5);
    lemma_assoc(h, t2 + s1 + s2 + s3, s4);
    lemma_assoc(h, t2 + s1 + s2, s3);
    lemma_assoc(h, t2 + s1, s2);
    lemma_assoc(h, t2, s1);
    lemma_assoc(h, t0 + cs, rs);
    lemma_assoc(h, t0, cs);
    lemma_assoc(h, e + src, nl);
    lemma_assoc(h, e, src);
    assert(h + t7 == h + e + src + nl + cs + rs + s1 + s2 + s3 + s4 + s5);
    lemma_assoc(x, d, code);
    lemma_assoc(x, d + code, e);
    lemma_assoc(x, d + code + e, src);
    lemma_assoc(x, d + code + e + src, nl);
    let g = x + (d + code + e + src + nl) + cs + rs;
    lemma_assoc(g, s1, s2);
    lemma_assoc(g, s1 + s2, s3);
    lemma_assoc(g, s1 + s2 + s3, s4);
    lemma_assoc(g, s1 + s2 + s3 + s4, s5);
    assert(h + t7 == g + (s1 + s2 + s3 + s4 + s5));
    assert(script_text(language, code, nonce) == h + t7 + p + nonce + z);
}

/// The commands that print the files of these names, each behind its name.
pub open spec fn reporting(nonce: Seq<char>, names: Seq<Seq<char>>) -> Seq<char>
    decreases names.len(),
{
    if names.len() == 0 {
        Seq::empty()
    } else {
        reporting(nonce, names.drop_last()) + ("printf '\\n"@ + nonce + ":"@ + names.last()
            + "\\n'\ncat _"@ + names.last() + " 2>/dev/null\n"@)
    }
}

proof fn lemma_five_reports(nonce: Seq<char>)
    ensures
        reporting(nonce, seq!["cout"@, "cerr"@, "pout"@, "perr"@, "exit"@])
            == section_step(nonce, "cout"@) + section_step(
            nonce,
            "cerr"@,
        ) + section_step(nonce, "pout"@) + section_step(
            nonce,
            "perr"@,
        ) + section_step(nonce, "exit"@),
{
    let n0 = Seq::<Seq<char>>::empty();
    let n1 = n0.push("cout"@);
    let n2 = n1.push("cerr"@);
    let n3 = n2.push("pout"@);
    let n4 = n3.push("perr"@);
    let n5 = n4.push("exit"@);
    assert(n1.drop_last() =~= n0);
    assert(n2.drop_last() =~= n1);
    assert(n3.drop_last() =~= n2);
    assert(n4.drop_last() =~= n3);
    assert(n5.drop_last() =~= n4);
    assert(n5 =~= seq!["cout"@, "cerr"@, "pout"@, "perr"@, "exit"@]);
    assert(reporting(nonce, n0) == Seq::<char>::empty());
    assert(reporting(nonce, n1) =~= section_step(nonce, "cout"@));
    assert(reporting(nonce, n2) == reporting(nonce, n1) + section_step(
        nonce,
        "cerr"@,
    ));
    assert(reporting(nonce, n3) == reporting(nonce, n2) + section_step(
        nonce,
        "pout"@,
    ));
    assert(reporting(nonce, n4) == reporting(nonce, n3) + section_step(
        nonce,
        "perr"@,
    ));
}

/// Where there is a compiler, the script holds its command between writing the submission and
/// running the program, with both streams and the exit code kept; likewise the preparation,
/// which comes first.
pub proof fn lemma_script_compiles_before_it_runs(
    language: Language,
    code: Seq<char>,
    nonce: Seq<char>,
) -> (r: (Seq<char>, Seq<char>))
    requires
        prepare_text(language) is Some || compile_text(language) is Some,
    ensures
        ({
            let commands = match (prepare_text(language), compile_text(language)) {
                (Some(prepare), Some(compile)) => prepare + " && "@ + compile,
                (Some(prepare), None) => prepare,
                (None, Some(compile)) => compile,
                (None, None) => Seq::empty(),
            };
            script_text(language, code, nonce) == r.0 + ("' | base64 -d > "@
                + language.source_file_text() + "\n"@) + ("{ "@ + commands
                + " ; } >_cout 2>_cerr\n__c=$?\n"@) + (
            "if [ \"$__c\" -eq 0 ]; then\n  timeout "@ + "20"@ + " "@ + run_text(language)
                + " >_pout 2>_perr\n  echo $? >_exit\n"@) + r.1
        }),
{
    lemma_limit();
    reveal_strlit(
        " >_pout 2>_perr\n  echo $? >_exit\nelse\n  : >_pout\n  : >_perr\n  : >_exit\nfi\n",
    );
    reveal_strlit(" >_pout 2>_perr\n  echo $? >_exit\n");
    reveal_strlit("else\n  : >_pout\n  : >_perr\n  : >_exit\nfi\n");
    assert(" >_pout 2>_perr\n  echo $? >_exit\nelse\n  : >_pout\n  : >_perr\n  : >_exit\nfi\n"@
        =~= " >_pout 2>_perr\n  echo $? >_exit\n"@
        + "else\n  : >_pout\n  : >_perr\n  : >_exit\nfi\n"@);
    let x = "set -u\n"@ + ENVIRONMENT@ + "__d=$(mktemp -d) && cd \"$__d\" || exit 90\n"@;
    let (d, e, src, nl) = ("printf %s '"@, "' | base64 -d > "@, language.source_file_text(), "\n"@);
    let before = x + (d + code);
    lemma_script_regrouped(language, code, nonce);
    lemma_assoc(d + code, e, src);
    lemma_assoc(d + code, e + src, nl);
    lemma_assoc(x, d + code, e + src + nl);
    assert(x + (d + code + e + src + nl) == before + (e + src + nl));
    let commands = compile_block(language)->0;
    let cs = "{ "@ + commands + " ; } >_cout 2>_cerr\n__c=$?\n"@;
    assert(cs == compile_step(language));
    let start = "if [ \"$__c\" -eq 0 ]; then\n  timeout "@ + "20"@ + " "@ + run_text(language);
    let (kept, other) = (
        " >_pout 2>_perr\n  echo $? >_exit\n"@,
        "else\n  : >_pout\n  : >_perr\n  : >_exit\nfi\n"@,
    );
    lemma_assoc(start, kept, other);
    assert(run_step(language) == start + kept + other);
    let so_far = before + (e + src + nl) + cs;
    lemma_assoc(so_far, start + kept, other);
    let ready = so_far + (start + kept);
    let reports = section_step(nonce, "cout"@) + section_step(nonce, "cerr"@) + section_step(
        nonce,
        "pout"@,
    ) + section_step(nonce, "perr"@) + section_step(nonce, "exit"@);
    let (p, z) = ("printf '\\n"@, ":end\\n'\nexit 0\n"@);
    lemma_assoc(ready, other, reports);
    lemma_assoc(ready, other + reports, p);
    lemma_assoc(ready, other + reports + p, nonce);
    lemma_assoc(ready, other + reports + p + nonce, z);
    (before, other + reports + p + nonce + z)
}

/// What `printf` prints for a format in which `\n` is the only escape.
pub open spec fn printf_output(format: Seq<char>) -> Seq<char>
    decreases format.len(),
{
    if format.len() == 0 {
        Seq::empty()
    } else if format.len() >= 2 && format[0] == '\\' && format[1] == 'n' {
        seq!['\n'] + printf_output(format.skip(2))
    } else {
        seq![format[0]] + printf_output(format.drop_first())
    }
}

proof fn lemma_printf_plain(plain: Seq<char>, rest: Seq<char>)
    requires
        !plain.contains('\\'),
    ensures
        printf_output(plain + rest) == plain + printf_output(rest),
    decreases plain.len(),
{
    let all = plain + rest;
    if plain.len() == 0 {
        assert(all =~= rest);
        assert(plain + printf_output(rest) =~= printf_output(rest));
    } else {
        assert(plain.contains(plain[0]));
        assert(all[0] == plain[0]);
        let tail = plain.drop_first();
        assert(!tail.contains('\\')) by {
            assert forall|i: int| 0 <= i < tail.len() implies tail[i] != '\\' by {
                assert(plain.contains(plain[i + 1]));
            }
        }
        lemma_printf_plain(tail, rest);
        assert(all.drop_first() =~= tail + rest);
        assert(seq![plain[0]] + (tail + printf_output(rest)) =~= plain + printf_output(rest));
    }
}

/// What the script prints for a name stands on a line of its own.
pub proof fn lemma_name_is_printed(nonce: Seq<char>, name: Seq<char>)
    requires
        !nonce.contains('\\'),
        !name.contains('\\'),
    ensures
        printf_output("\\n"@ + nonce + ":"@ + name + "\\n"@) == "\n"@ + nonce + ":"@ + name + "\n"@,
{
    reveal_strlit("\\n");
    reveal_strlit("\n");
    reveal_strlit(":");
    let line = nonce + ":"@ + name;
    let format = "\\n"@ + nonce + ":"@ + name + "\\n"@;
    assert(!line.contains('\\')) by {
        assert forall|i: int| 0 <= i < line.len() implies line[i] != '\\' by {
            if i < nonce.len() {
                assert(nonce.contains(nonce[i]));
            } else if i > nonce.len() {
                assert(name.contains(name[i - nonce.len() - 1]));
            }
        }
    }
    assert(format.skip(2) =~= line + "\\n"@);
    lemma_printf_plain(line, "\\n"@);
    assert("\\n"@.skip(2) =~= Seq::<char>::empty());
    assert(printf_output(Seq::<char>::empty()) == Seq::<char>::empty());
    assert(printf_output("\\n"@) =~= seq!['\n']);
    assert(format[0] == '\\' && format[1] == 'n');
    assert(printf_output(format) =~= "\n"@ + nonce + ":"@ + name + "\n"@);
}

/// The names and files printed one after the other are the report that is read back.
pub proof fn lemma_printing_makes_the_report(
    nonce: Seq<char>,
    cout: Seq<char>,
    cerr: Seq<char>,
    pout: Seq<char>,
    perr: Seq<char>,
    exit: Seq<char>,
)
    ensures
        framed_report(nonce, cout, cerr, pout, perr, exit) == ("\n"@ + nonce + ":"@ + "cout"@
            + "\n"@ + cout) + ("\n"@ + nonce + ":"@ + "cerr"@ + "\n"@ + cerr) + ("\n"@ + nonce
            + ":"@ + "pout"@ + "\n"@ + pout) + ("\n"@ + nonce + ":"@ + "perr"@ + "\n"@ + perr) + (
        "\n"@ + nonce + ":"@ + "exit"@ + "\n"@ + exit) + ("\n"@ + nonce + ":"@ + "end"@ + "\n"@),
{
    let none = Seq::<char>::empty();
    let p1 = "\n"@ + nonce + ":"@ + "cout"@ + "\n"@ + cout;
    let p2 = "\n"@ + nonce + ":"@ + "cerr"@ + "\n"@ + cerr;
    let p3 = "\n"@ + nonce + ":"@ + "pout"@ + "\n"@ + pout;
    let p4 = "\n"@ + nonce + ":"@ + "perr"@ + "\n"@ + perr;
    let p5 = "\n"@ + nonce + ":"@ + "exit"@ + "\n"@ + exit;
    lemma_newline_moves(none, nonce, "cout"@, cout);
    assert(none + "\n"@ =~= "\n"@);
    assert(none + p1 =~= p1);
    lemma_newline_moves(p1, nonce, "cerr"@, cerr);
    lemma_newline_moves(p1 + p2, nonce, "pout"@, pout);
    lemma_newline_moves(p1 + p2 + p3, nonce, "perr"@, perr);
    lemma_newline_moves(p1 + p2 + p3 + p4, nonce, "exit"@, exit);
    let all = p1 + p2 + p3 + p4 + p5;
    let end = nonce + ":"@ + "end"@ + "\n"@;
    lemma_assoc(all, "\n"@, end);
    lemma_assoc("\n"@, nonce, ":"@);
    lemma_assoc("\n"@, nonce + ":"@, "end"@);
    lemma_assoc("\n"@, nonce + ":"@ + "end"@, "\n"@);
}

/// The newline behind a section is the one that the next name begins with.
proof fn lemma_newline_moves(
    before: Seq<char>,
    nonce: Seq<char>,
    name: Seq<char>,
    body: Seq<char>,
)
    ensures
        before + "\n"@ + framed_section(nonce, name, body) == before + ("\n"@ + nonce + ":"@ + name
            + "\n"@ + body) + "\n"@,
{
    let nl = "\n"@;
    let head = nonce + ":"@ + name;
    lemma_assoc(before, nl, head + nl + (body + nl));
    lemma_assoc(nl, head + nl, body + nl);
    lemma_assoc(nl, head, nl);
    lemma_assoc(nl, nonce + ":"@, name);
    lemma_assoc(nl, nonce, ":"@);
    lemma_assoc(nl + nonce + ":"@ + name + nl, body, nl);
    lemma_assoc(before, nl + nonce + ":"@ + name + nl + body, nl);
}

/// What is no ASCII letter or digit leaves no trace in a nonce.
pub proof fn lemma_nonce_leaves_the_rest_out(a: Seq<char>, c: char, b: Seq<char>)
    requires
        !ascii_alphanumeric(c),
    ensures
        nonce_text(a + seq![c] + b) == nonce_text(a + b),
{
    let keep = |x: char| ascii_alphanumeric(x);
    lemma_filter_concat(a, b, keep);
    lemma_filter_concat(a + seq![c], b, keep);
    lemma_filter_concat(a, seq![c], keep);
    assert(seq![c].filter(keep) =~= Seq::<char>::empty()) by {
        reveal(Seq::filter);
        assert(seq![c].drop_last() =~= Seq::<char>::empty());
        assert(Seq::<char>::empty().filter(keep) =~= Seq::<char>::empty());
    }
    assert(a.filter(keep) + Seq::<char>::empty() =~= a.filter(keep));
}

/// Letters and digits behind the first thirty-two leave no trace in a nonce either.
pub proof fn lemma_nonce_is_short(a: Seq<char>, b: Seq<char>)
    requires
        a.len() == 32,
        forall|i: int| 0 <= i < a.len() ==> ascii_alphanumeric(#[trigger] a[i]),
    ensures
        nonce_text(a + b) == nonce_text(a),
{
    let keep = |x: char| ascii_alphanumeric(x);
    lemma_filter_concat(a, b, keep);
    lemma_filter_keeps_all(a, keep);
    assert((a + b.filter(keep)).take(32) =~= a);
}

// ---- Batches ----

/// The line of a case enters its directory and runs the commands of production there, each
/// behind the success of the one before, for twenty seconds at most, and keeps both streams and
/// the exit code.
pub proof fn lemma_case_line(language: Language, case: RunCase)
    ensures
        case_line(language, case) == "cd /w/cases/"@ + case.problem_id@ + "-"@ + (match case.kind {
            CaseKind::Answer => "answer"@,
            CaseKind::Starter => "starter"@,
        }) + " 2>/dev/null && { timeout "@ + "20"@ + " sh -c '"@ + joined(
            commands_before(language).push(run_text(language)),
            " && "@,
        ) + "' >_stdout 2>_stderr; echo $? >_exit; }\n"@,
{
    lemma_limit();
    let run = run_text(language);
    let all = commands_before(language).push(run);
    assert(all.drop_last() =~= commands_before(language));
    match (prepare_text(language), compile_text(language)) {
        (Some(p), Some(c)) => {
            assert(commands_before(language) =~= seq![p, c]);
            assert(commands_before(language).drop_last() =~= seq![p]);
            assert(joined(seq![p], " && "@) == p);
            assert(joined(commands_before(language), " && "@) == p + " && "@ + c);
        },
        (Some(p), None) => {
            assert(commands_before(language) =~= seq![p]);
            assert(joined(seq![p], " && "@) == p);
        },
        (None, Some(c)) => {
            assert(commands_before(language) =~= seq![c]);
            assert(joined(seq![c], " && "@) == c);
        },
        (None, None) => {
            assert(all =~= seq![run]);
        },
    }
    assert(joined(all, " && "@) == case_command(language));
    let suffix = case.kind.suffix_text();
    assert("cd /w/cases/"@ + (case.problem_id@ + "-"@ + suffix) =~= "cd /w/cases/"@
        + case.problem_id@ + "-"@ + suffix);
}

/// The lines of two batches one after the other are the lines of the whole batch, with nothing
/// between them; one case has its line, and no case has none.
pub proof fn lemma_case_lines_concat(language: Language, a: Seq<RunCase>, b: Seq<RunCase>)
    ensures
        case_lines(language, a + b) == case_lines(language, a) + case_lines(language, b),
        a.len() == 0 ==> case_lines(language, a).len() == 0,
        a.len() == 1 ==> case_lines(language, a) == case_line(language, a[0]),
    decreases b.len(),
{
    if a.len() == 1 {
        assert(case_lines(language, a.drop_last()) =~= Seq::empty());
        assert(case_lines(language, a) =~= case_line(language, a[0]));
    }
    if b.len() == 0 {
        assert(a + b =~= a);
        assert(case_lines(language, a) + case_lines(language, b) =~= case_lines(language, a));
    } else {
        lemma_case_lines_concat(language, a, b.drop_last());
        assert((a + b).drop_last() =~= a + b.drop_last());
        assert(case_lines(language, a) + case_lines(language, b.drop_last()) + case_line(
            language,
            b.last(),
        ) =~= case_lines(language, a) + (case_lines(language, b.drop_last()) + case_line(
            language,
            b.last(),
        )));
    }
}

/// A batch script sets the environment, runs its cases in order, one line right behind the
/// other, and ends only behind the last of them.
pub proof fn lemma_batch_runs_in_order(language: Language, cases: Seq<RunCase>, i: int)
    requires
        0 <= i < cases.len(),
    ensures
        batch_script(language, cases) == "#!/bin/sh\n# 自動生成 (verifier)\n"@ + ENVIRONMENT@
            + case_lines(language, cases.take(i)) + case_line(language, cases[i]) + case_lines(
            language,
            cases.skip(i + 1),
        ) + "exit 0\n"@,
        batch_script(language, Seq::empty()) == "#!/bin/sh\n# 自動生成 (verifier)\n"@ + ENVIRONMENT@
            + "exit 0\n"@,
{
    let (before, one, after) = (cases.take(i), seq![cases[i]], cases.skip(i + 1));
    assert(cases =~= before + (one + after));
    lemma_case_lines_concat(language, before, one + after);
    lemma_case_lines_concat(language, one, after);
    let head = "#!/bin/sh\n# 自動生成 (verifier)\n"@ + ENVIRONMENT@;
    assert(batch_script(language, cases) =~= head + case_lines(language, before) + case_line(
        language,
        cases[i],
    ) + case_lines(language, after) + "exit 0\n"@);
    assert(batch_script(language, Seq::empty()) =~= head + "exit 0\n"@);
}

/// Two cases that are run in the same directory are the same case of the same problem.
pub proof fn lemma_directories_differ(a: RunCase, b: RunCase)
    requires
        a.dir_text() == b.dir_text(),
    ensures
        a.problem_id@ == b.problem_id@,
        a.kind == b.kind,
{
    reveal_strlit("-");
    reveal_strlit("answer");
    reveal_strlit("starter");
    let (x, y) = (a.dir_text(), b.dir_text());
    let n = x.len() as int;
    if a.kind != b.kind {
        assert(x[n - 1] == y[n - 1]);
        assert(x[n - 2] == y[n - 2]);
        assert(x[n - 3] == y[n - 3]);
        assert(x[n - 4] == y[n - 4]);
        assert(x[n - 5] == y[n - 5]);
    }
    assert(a.problem_id@.len() == b.problem_id@.len());
    let m = a.problem_id@.len() as int;
    assert(a.problem_id@ =~= x.take(m));
    assert(b.problem_id@ =~= y.take(m));
}

/// A container is stopped after its time, sees the working directory, runs the batch script on
/// the planned image, and has no network where the plan says so.
pub proof fn lemma_container_arguments(run: DockerRun)
    ensures
        ({
            let args = argument_texts(run);
            let n = args.len() as int;
            &&& n == 11 + (if run.network_disabled {
                1int
            } else {
                0
            })
            &&& args.take(4) == seq![
                decimal(run.overall_timeout_secs as nat),
                "docker"@,
                "run"@,
                "--rm"@,
            ]
            &&& run.network_disabled ==> args[4] == "--network=none"@
            &&& args.skip(n - 7) == seq![
                "-v"@,
                run.workdir@ + ":/w"@,
                "-w"@,
                "/w"@,
                run.image@,
                "sh"@,
                "/w/run.sh"@,
            ]
        }),
{
    let args = argument_texts(run);
    let n = args.len() as int;
    assert(args.take(4) =~= seq![
        decimal(run.overall_timeout_secs as nat),
        "docker"@,
        "run"@,
        "--rm"@,
    ]);
    assert(args.skip(n - 7) =~= seq![
        "-v"@,
        run.workdir@ + ":/w"@,
        "-w"@,
        "/w"@,
        run.image@,
        "sh"@,
        "/w/run.sh"@,
    ]);
}

} // verus!
