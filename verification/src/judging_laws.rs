//! What a run is judged to be, said of what was printed and how it ended.

use vstd::prelude::*;

use crate::contract::{
    compile_error_in, error_line, outcome_of, shown_lines, ExecuteResponse, Outcome,
};
use crate::language::Language;
use crate::runner::{diagnostics_of, responds, with_part, RunnerOutput};
use crate::text::{
    blank, joined, lemma_trimmed_end, lemma_trimmed_start, lines_of, occurs_at, occurs_in,
    trimmed_end, trimmed_start, white_space,
};
use crate::text_laws::{lemma_first_line, lemma_lines_concat, lemma_only_line};

verus! {

// ---- Outcomes ----

/// A run passes exactly where it exited with zero and printed that its tests passed. Where it
/// did not pass, failing to compile comes first, a failed test next, and then the exit code
/// tells an error from a run of no tests.
pub proof fn lemma_outcomes(resp: ExecuteResponse)
    ensures
        ({
            let passed = resp.success && occurs_in(resp.stdout@, "test result: ok"@);
            let failed = occurs_in(resp.stdout@, "test result: FAILED"@) || occurs_in(
                resp.stderr@,
                "test result: FAILED"@,
            );
            let outcome = outcome_of(resp);
            &&& outcome == Outcome::Passed <==> passed
            &&& outcome == Outcome::CompileError <==> !passed && resp.compile_failed
            &&& outcome == Outcome::TestsFailed <==> !passed && !resp.compile_failed && failed
            &&& outcome == Outcome::RuntimeError <==> !resp.success && !resp.compile_failed
                && !failed
            &&& outcome == Outcome::NoTestsRun <==> resp.success && !passed && !resp.compile_failed
                && !failed
        }),
{
}

/// A run is successful exactly where the program ran and exited with zero, and what the program
/// printed on standard output is passed on as it is.
pub proof fn lemma_response_follows_the_run(
    language: Language,
    out: RunnerOutput,
    resp: ExecuteResponse,
)
    requires
        responds(language, out, resp),
    ensures
        resp.success <==> out.exit_code == Some(0i32) && !out.compile_failed_stage,
        resp.stdout@ == out.program_stdout@,
{
}

// ---- Failing to compile ----

/// A submission whose compile stage failed and whose tests did not run has failed to compile,
/// in every language and whatever its compiler printed.
pub proof fn lemma_failed_stage_is_a_compile_error(
    language: Language,
    out: RunnerOutput,
    resp: ExecuteResponse,
)
    requires
        responds(language, out, resp),
        out.compile_failed_stage,
        !occurs_in(out.program_stdout@, "test result:"@),
    ensures
        resp.compile_failed,
        outcome_of(resp) == Outcome::CompileError,
{
}

/// In Rust, Python and JavaScript, where the program was started, it failed to compile exactly
/// where its standard error holds a compile error and its tests did not run.
pub proof fn lemma_errors_of_the_run(language: Language, out: RunnerOutput, resp: ExecuteResponse)
    requires
        responds(language, out, resp),
        language == Language::Rust || language == Language::Python || language
            == Language::Javascript,
        !out.compile_failed_stage,
    ensures
        resp.compile_failed <==> compile_error_in(language, out.program_stderr@) && !occurs_in(
            out.program_stdout@,
            "test result:"@,
        ),
{
}

/// In C++, Java and TypeScript, where the program was started, it failed to compile exactly
/// where one of the compiler's two streams holds a compile error and its tests did not run.
pub proof fn lemma_errors_of_the_compiler(
    language: Language,
    out: RunnerOutput,
    resp: ExecuteResponse,
)
    requires
        responds(language, out, resp),
        language == Language::Cpp || language == Language::Java || language
            == Language::Typescript,
        !out.compile_failed_stage,
    ensures
        resp.compile_failed <==> (compile_error_in(language, trimmed_end(out.compile_stderr@))
            || compile_error_in(language, trimmed_end(out.compile_stdout@))) && !occurs_in(
            out.program_stdout@,
            "test result:"@,
        ),
{
    lemma_errors_in_parts(language, out.compile_stderr@, out.compile_stdout@);
}

/// In C#, where the program was started, it failed to compile exactly where the lines of the
/// compiler's two streams that are worth showing hold a compile error and its tests did not run.
pub proof fn lemma_errors_of_the_build(out: RunnerOutput, resp: ExecuteResponse)
    requires
        responds(Language::Csharp, out, resp),
        !out.compile_failed_stage,
    ensures
        resp.compile_failed <==> compile_error_in(
            Language::Csharp,
            joined(
                shown_lines(joined(kept(out.compile_stderr@) + kept(out.compile_stdout@), "\n"@)),
                "\n"@,
            ),
        ) && !occurs_in(out.program_stdout@, "test result:"@),
{
    lemma_printed(out.compile_stderr@, out.compile_stdout@);
}

proof fn lemma_errors_in_parts(language: Language, cerr: Seq<char>, cout: Seq<char>)
    ensures
        compile_error_in(language, with_part(with_part(Seq::empty(), cerr), cout)) == (
        compile_error_in(language, trimmed_end(cerr)) || compile_error_in(
            language,
            trimmed_end(cout),
        )),
{
    reveal_strlit("\n");
    lemma_trimmed_end(cerr);
    lemma_trimmed_end(cout);
    let (e, o) = (trimmed_end(cerr), trimmed_end(cout));
    lemma_no_errors_in_nothing(language);
    if blank(cerr) {
        assert(e =~= Seq::empty());
    }
    if blank(cout) {
        assert(o =~= Seq::empty());
    }
    if !blank(cerr) && !blank(cout) {
        let closed = e + "\n"@;
        assert(with_part(with_part(Seq::empty(), cerr), cout) =~= closed + o);
        lemma_errors_concat(language, closed, o);
        lemma_closing_changes_no_error(language, e);
    }
}

proof fn lemma_no_errors_in_nothing(language: Language)
    ensures
        !compile_error_in(language, Seq::empty()),
{
    lemma_only_line(Seq::empty());
}

/// Text that holds no compile errors on its own holds none put together either, if the first
/// part ends with a newline.
pub proof fn lemma_errors_concat(language: Language, a: Seq<char>, b: Seq<char>)
    requires
        a.len() == 0 || a.last() == '\n',
    ensures
        compile_error_in(language, a + b) == (compile_error_in(language, a) || compile_error_in(
            language,
            b,
        )),
{
    lemma_lines_concat(a, b);
    let (x, y, all) = (lines_of(a), lines_of(b), lines_of(a + b));
    if compile_error_in(language, a) {
        let i = choose|i: int| 0 <= i < x.len() && error_line(language, #[trigger] x[i]);
        assert(all[i] == x[i]);
    }
    if compile_error_in(language, b) {
        let i = choose|i: int| 0 <= i < y.len() && error_line(language, #[trigger] y[i]);
        assert(all[x.len() + i] == y[i]);
    }
    if compile_error_in(language, a + b) {
        let i = choose|i: int| 0 <= i < all.len() && error_line(language, #[trigger] all[i]);
        if i < x.len() {
            assert(x[i] == all[i]);
        } else {
            assert(y[i - x.len()] == all[i]);
        }
    }
}

/// One line holds a compile error exactly where it is one.
pub proof fn lemma_error_in_one_line(language: Language, line: Seq<char>)
    requires
        line.len() > 0,
        !line.contains('\n'),
    ensures
        compile_error_in(language, line) == error_line(language, line),
        !compile_error_in(language, Seq::empty()),
        line.last() != '\r' ==> compile_error_in(language, line + "\n"@) == error_line(
            language,
            line,
        ),
{
    lemma_no_errors_in_nothing(language);
    lemma_only_line(line);
    assert(seq![line][0] == line);
    if line.last() != '\r' {
        lemma_first_line(line, Seq::empty());
        lemma_only_line(Seq::empty());
        assert(line + "\n"@ + Seq::<char>::empty() =~= line + "\n"@);
        assert(seq![line] + Seq::<Seq<char>>::empty() =~= seq![line]);
    }
}

/// A newline behind a text that ends in no white space changes nothing.
proof fn lemma_closing_changes_no_error(language: Language, s: Seq<char>)
    requires
        s.len() > 0,
        !white_space(s.last()),
    ensures
        compile_error_in(language, s + "\n"@) == compile_error_in(language, s),
{
    lemma_closing_keeps_lines(s);
}

proof fn lemma_closing_keeps_lines(s: Seq<char>)
    requires
        s.len() > 0,
        !white_space(s.last()),
    ensures
        lines_of(s + "\n"@) == lines_of(s),
    decreases s.len(),
{
    reveal_strlit("\n");
    if s.contains('\n') {
        let at = choose|at: int| 0 <= at < s.len() && s[at] == '\n';
        let (head, tail) = (s.take(at + 1), s.skip(at + 1));
        assert(head.last() == '\n');
        assert(s =~= head + tail);
        assert(s + "\n"@ =~= head + (tail + "\n"@));
        assert(tail.len() > 0);
        lemma_lines_concat(head, tail);
        lemma_lines_concat(head, tail + "\n"@);
        lemma_closing_keeps_lines(tail);
    } else {
        lemma_only_line(s);
        lemma_first_line(s, Seq::empty());
        lemma_only_line(Seq::empty());
        assert(s + "\n"@ + Seq::<char>::empty() =~= s + "\n"@);
        assert(seq![s] + Seq::<Seq<char>>::empty() =~= seq![s]);
    }
}

/// `line` begins with `word`, but for white space before it.
pub open spec fn indented(line: Seq<char>, word: Seq<char>) -> bool {
    exists|k: int| blank(line.take(k)) && #[trigger] occurs_at(line, word, k)
}

/// What a text begins with once the white space before it is gone.
pub proof fn lemma_indented(line: Seq<char>, word: Seq<char>)
    requires
        word.len() > 0,
        !white_space(word[0]),
    ensures
        word.is_prefix_of(trimmed_start(line)) == indented(line, word),
{
    lemma_trimmed_start(line);
    let t = trimmed_start(line);
    let n = line.len() - t.len();
    if word.is_prefix_of(t) {
        assert(line.subrange(n, n + word.len()) =~= t.subrange(0, word.len() as int));
        assert(blank(line.take(n)));
        assert(occurs_at(line, word, n));
    }
    if indented(line, word) {
        let k = choose|k: int| blank(line.take(k)) && #[trigger] occurs_at(line, word, k);
        assert(line.subrange(k, k + word.len())[0] == line[k]);
        assert(k >= n);
        if k > n {
            assert(line.take(k)[n] == line[n]);
            assert(t[0] == line[n]);
        }
        assert(t.subrange(0, word.len() as int) =~= line.subrange(k, k + word.len()));
    }
}

/// A line is a compile error exactly where it has the form in which the language's compiler
/// writes errors.
pub proof fn lemma_error_lines(language: Language, line: Seq<char>)
    ensures
        error_line(language, line) <==> match language {
            Language::Rust => indented(line, "error["@) || indented(line, "error:"@),
            Language::Cpp => indented(line, "error:"@) || occurs_in(line, ": error:"@),
            Language::Java => indented(line, "error:"@) || occurs_in(line, ": error:"@),
            Language::Csharp => indented(line, "error "@) || occurs_in(line, "): error "@),
            Language::Typescript => occurs_in(line, "): error "@),
            Language::Python => indented(line, "SyntaxError"@) || indented(
                line,
                "IndentationError"@,
            ) || indented(line, "TabError"@),
            Language::Javascript => indented(line, "SyntaxError"@),
        },
{
    reveal_strlit("error[");
    reveal_strlit("error:");
    reveal_strlit("error ");
    reveal_strlit("SyntaxError");
    reveal_strlit("IndentationError");
    reveal_strlit("TabError");
    lemma_indented(line, "error["@);
    lemma_indented(line, "error:"@);
    lemma_indented(line, "error "@);
    lemma_indented(line, "SyntaxError"@);
    lemma_indented(line, "IndentationError"@);
    lemma_indented(line, "TabError"@);
}

// ---- Standard error ----

/// A stream as it is shown: without the white space at its end, and not at all where it is
/// blank.
pub open spec fn kept(stream: Seq<char>) -> Seq<Seq<char>> {
    if blank(stream) {
        Seq::empty()
    } else {
        seq![trimmed_end(stream)]
    }
}

proof fn lemma_printed(cerr: Seq<char>, cout: Seq<char>)
    ensures
        with_part(with_part(Seq::empty(), cerr), cout) == joined(kept(cerr) + kept(cout), "\n"@),
{
    lemma_trimmed_end(cerr);
    lemma_trimmed_end(cout);
    let (e, o) = (trimmed_end(cerr), trimmed_end(cout));
    let parts = kept(cerr) + kept(cout);
    if blank(cerr) && blank(cout) {
        assert(parts =~= Seq::empty());
    } else if blank(cerr) {
        assert(parts =~= seq![o]);
    } else if blank(cout) {
        assert(parts =~= seq![e]);
    } else {
        assert(parts =~= seq![e, o]);
        assert(parts.drop_last() =~= seq![e]);
        assert(joined(seq![e], "\n"@) == e);
        assert(joined(parts, "\n"@) == e + "\n"@ + o);
    }
}

/// Standard error is what the compiler printed on either stream, and behind it what the program
/// printed on standard error, each on lines of its own. Only C# builds have lines taken out.
pub proof fn lemma_stderr_shows_every_stream(
    language: Language,
    out: RunnerOutput,
    resp: ExecuteResponse,
)
    requires
        responds(language, out, resp),
    ensures
        language != Language::Csharp ==> resp.stderr@ == joined(
            kept(out.compile_stderr@) + kept(out.compile_stdout@) + kept(out.program_stderr@),
            "\n"@,
        ),
        language == Language::Csharp ==> ({
            let shown = joined(
                shown_lines(joined(kept(out.compile_stderr@) + kept(out.compile_stdout@), "\n"@)),
                "\n"@,
            );
            &&& shown.len() == 0 ==> resp.stderr@ == joined(kept(out.program_stderr@), "\n"@)
            &&& shown.len() > 0 ==> resp.stderr@ == joined(
                seq![shown] + kept(out.program_stderr@),
                "\n"@,
            )
        }),
{
    let (cerr, cout, perr) = (out.compile_stderr@, out.compile_stdout@, out.program_stderr@);
    lemma_printed(cerr, cout);
    lemma_trimmed_end(cerr);
    lemma_trimmed_end(cout);
    lemma_trimmed_end(perr);
    let first = kept(cerr) + kept(cout);
    let printed = joined(first, "\n"@);
    let p = trimmed_end(perr);
    let text = diagnostics_of(language, out);
    if language != Language::Csharp {
        let all = first + kept(perr);
        if blank(perr) {
            assert(all =~= first);
        } else {
            assert(all.drop_last() =~= first);
            assert(all.last() == p);
            if first.len() == 0 {
                assert(all =~= seq![p]);
            } else if first.len() == 2 {
                assert(first.drop_last() =~= kept(cerr));
                assert(printed.len() > 0);
            }
        }
    } else {
        let all = seq![text] + kept(perr);
        if blank(perr) {
            assert(all =~= seq![text]);
            assert(joined(kept(perr), "\n"@) =~= Seq::empty());
            assert(text.len() == 0 ==> text =~= Seq::empty());
        } else {
            assert(all.drop_last() =~= seq![text]);
            assert(all.last() == p);
            assert(joined(seq![text], "\n"@) == text);
            assert(kept(perr) =~= seq![p]);
        }
    }
}

} // verus!
