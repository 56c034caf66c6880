//! The report of a script, and that reading it gives back what was written.

use vstd::prelude::*;

use crate::runner::{
    announced, complete, last_body, nonce_text, reported, section, sections, RunnerOutput,
};
use crate::text::{
    ascii_alphanumeric, ascii_digit, ascii_lower, at_line_start, decimal, i32_of, lemma_decimal,
    lemma_decimal_round_trip, lemma_filter_keeps_all, lemma_one_piece, lemma_piece_position,
    lemma_pieces_concat, lemma_pieces_line, lemma_pieces_run_together, occurs_at, occurs_in, pieces,
    run_together, signed_decimal, trimmed, trimmed_end, trimmed_start, white_space, without_newline,
};

verus! {

/// What a script prints for one section, up to the newline that it puts before the next.
pub open spec fn framed_section(nonce: Seq<char>, name: Seq<char>, body: Seq<char>) -> Seq<char> {
    (nonce + ":"@ + name) + "\n"@ + (body + "\n"@)
}

/// What a script prints whose files hold these five texts.
pub open spec fn framed_report(
    nonce: Seq<char>,
    cout: Seq<char>,
    cerr: Seq<char>,
    pout: Seq<char>,
    perr: Seq<char>,
    exit: Seq<char>,
) -> Seq<char> {
    "\n"@ + framed_section(nonce, "cout"@, cout) + framed_section(nonce, "cerr"@, cerr)
        + framed_section(nonce, "pout"@, pout) + framed_section(nonce, "perr"@, perr)
        + framed_section(nonce, "exit"@, exit) + (nonce + ":"@ + "end"@ + "\n"@)
}

/// `name` can name a section.
pub open spec fn section_name(name: Seq<char>) -> bool {
    name.len() > 0 && forall|i: int| 0 <= i < name.len() ==> ascii_lower(#[trigger] name[i])
}

/// No line of `body` announces a section.
pub open spec fn quiet(nonce: Seq<char>, body: Seq<char>) -> bool {
    all_quiet(nonce, pieces(body + "\n"@))
}

pub open spec fn all_quiet(nonce: Seq<char>, lines: Seq<Seq<char>>) -> bool {
    forall|i: int| 0 <= i < lines.len() ==> announced(nonce, #[trigger] lines[i]) is None
}

/// A line of `s` begins with `start`.
pub open spec fn line_begins(s: Seq<char>, start: Seq<char>) -> bool {
    exists|at: int| #[trigger] occurs_at(s, start, at) && at_line_start(s.take(at))
}

/// A body in which the nonce does not stand before a colon announces no section.
pub proof fn lemma_unmentioned_is_quiet(nonce: Seq<char>, body: Seq<char>)
    requires
        !occurs_in(body, nonce + ":"@),
    ensures
        quiet(nonce, body),
{
    reveal_strlit("\n");
    reveal_strlit(":");
    let s = body + "\n"@;
    let marker = nonce + ":"@;
    assert forall|i: int| 0 <= i < pieces(s).len() implies announced(
        nonce,
        #[trigger] pieces(s)[i],
    ) is None by {
        let piece = pieces(s)[i];
        let line = without_newline(piece);
        let at = lemma_piece_position(s, i);
        if marker.is_prefix_of(line) {
            assert(piece[piece.len() - 1] == s[at + piece.len() - 1]);
            assert(s.last() == '\n');
            assert(at + line.len() <= body.len());
            assert forall|j: int| 0 <= j < marker.len() implies body[at + j]
                == #[trigger] marker[j] by {
                assert(line[j] == marker[j]);
                assert(piece[j] == line[j]);
                assert(s[at + j] == piece[j]);
            }
            assert(body.subrange(at, at + marker.len()) =~= marker);
            assert(occurs_at(body, marker, at));
        }
    }
}

/// Lines that announce nothing go to the section before them.
proof fn lemma_quiet_lines(nonce: Seq<char>, before: Seq<Seq<char>>, lines: Seq<Seq<char>>)
    requires
        all_quiet(nonce, lines),
        sections(nonce, before).len() > 0,
    ensures
        ({
            let found = sections(nonce, before);
            sections(nonce, before + lines) == found.drop_last().push(
                (found.last().0, found.last().1 + run_together(lines)),
            )
        }),
    decreases lines.len(),
{
    let found = sections(nonce, before);
    if lines.len() == 0 {
        assert(before + lines =~= before);
        assert(found.last().1 + Seq::<char>::empty() =~= found.last().1);
        assert(found.drop_last().push(found.last()) =~= found);
    } else {
        let most = lines.drop_last();
        assert(all_quiet(nonce, most)) by {
            assert forall|i: int| 0 <= i < most.len() implies announced(
                nonce,
                #[trigger] most[i],
            ) is None by {
                assert(most[i] == lines[i]);
            }
        }
        lemma_quiet_lines(nonce, before, most);
        assert((before + lines).drop_last() =~= before + most);
        assert((before + lines).last() == lines.last());
        assert(announced(nonce, lines[lines.len() - 1]) is None);
        let inner = sections(nonce, before + most);
        assert(inner.drop_last() =~= found.drop_last());
        assert((found.last().1 + run_together(most)) + lines.last() =~= found.last().1 + (
        run_together(most) + lines.last()));
    }
}

/// A line that announces a name is read as one.
proof fn lemma_announced(nonce: Seq<char>, name: Seq<char>)
    requires
        section_name(name),
    ensures
        announced(nonce, (nonce + ":"@ + name) + "\n"@) == Some(name),
{
    reveal_strlit("\n");
    let marker = nonce + ":"@;
    let line = marker + name;
    assert((line + "\n"@).drop_last() =~= line);
    assert(line.skip(marker.len() as int) =~= name);
    assert(line.subrange(0, marker.len() as int) =~= marker);
}

proof fn lemma_no_newline(nonce: Seq<char>, name: Seq<char>)
    requires
        !nonce.contains('\n'),
        section_name(name),
    ensures
        !(nonce + ":"@ + name).contains('\n'),
{
    reveal_strlit(":");
    let line = nonce + ":"@ + name;
    assert forall|i: int| 0 <= i < line.len() implies line[i] != '\n' by {
        if i < nonce.len() {
            assert(line[i] == nonce[i]);
            assert(nonce.contains(nonce[i]));
        } else if i > nonce.len() {
            assert(line[i] == name[i - nonce.len() - 1]);
        }
    }
}

/// A name on a line of its own begins a section.
proof fn lemma_begin_section(nonce: Seq<char>, before: Seq<char>, name: Seq<char>)
    requires
        !nonce.contains('\n'),
        section_name(name),
        at_line_start(before),
    ensures
        sections(nonce, pieces(before + ((nonce + ":"@ + name) + "\n"@))) == sections(
            nonce,
            pieces(before),
        ).push((name, Seq::empty())),
        pieces(before + ((nonce + ":"@ + name) + "\n"@)) == pieces(before).push(
            (nonce + ":"@ + name) + "\n"@,
        ),
{
    let line = nonce + ":"@ + name;
    lemma_no_newline(nonce, name);
    lemma_announced(nonce, name);
    lemma_pieces_concat(before, line + "\n"@);
    lemma_pieces_line(line);
    let all = pieces(before).push(line + "\n"@);
    assert(pieces(before) + seq![line + "\n"@] =~= all);
    assert(all.drop_last() =~= pieces(before));
}

/// A framed section is read as its name and its body.
pub proof fn lemma_framed_section(
    nonce: Seq<char>,
    before: Seq<char>,
    name: Seq<char>,
    body: Seq<char>,
)
    requires
        !nonce.contains('\n'),
        section_name(name),
        at_line_start(before),
        quiet(nonce, body),
    ensures
        at_line_start(before + framed_section(nonce, name, body)),
        sections(nonce, pieces(before + framed_section(nonce, name, body))) == sections(
            nonce,
            pieces(before),
        ).push((name, body + "\n"@)),
{
    reveal_strlit("\n");
    let head = (nonce + ":"@ + name) + "\n"@;
    let opened = before + head;
    let more = body + "\n"@;
    lemma_begin_section(nonce, before, name);
    lemma_pieces_concat(opened, more);
    lemma_pieces_run_together(more);
    lemma_quiet_lines(nonce, pieces(opened), pieces(more));
    assert(opened + more =~= before + framed_section(nonce, name, body));
    assert(Seq::<char>::empty() + more =~= more);
    let found = sections(nonce, pieces(before));
    assert(found.push((name, Seq::empty())).drop_last() =~= found);
}

/// The body of a section is what was put in the frame, whatever sections come before it.
proof fn lemma_last_body_push(
    all: Seq<(Seq<char>, Seq<char>)>,
    other: Seq<char>,
    body: Seq<char>,
    name: Seq<char>,
)
    ensures
        other == name ==> last_body(all.push((other, body)), name) == Some(body),
        other != name ==> last_body(all.push((other, body)), name) == last_body(all, name),
{
    assert(all.push((other, body)).drop_last() =~= all);
}

pub proof fn lemma_section_names()
    ensures
        section_name("cout"@),
        section_name("cerr"@),
        section_name("pout"@),
        section_name("perr"@),
        section_name("exit"@),
        section_name("end"@),
        "cout"@ != "cerr"@ && "cout"@ != "pout"@ && "cout"@ != "perr"@ && "cout"@ != "exit"@,
        "cerr"@ != "pout"@ && "cerr"@ != "perr"@ && "cerr"@ != "exit"@,
        "pout"@ != "perr"@ && "pout"@ != "exit"@,
        "perr"@ != "exit"@,
        "end"@ != "cout"@ && "end"@ != "cerr"@ && "end"@ != "pout"@ && "end"@ != "perr"@ && "end"@
            != "exit"@,
{
    reveal_strlit("cout");
    reveal_strlit("cerr");
    reveal_strlit("pout");
    reveal_strlit("perr");
    reveal_strlit("exit");
    reveal_strlit("end");
    assert("cout"@[0] != "pout"@[0] && "cout"@[0] != "perr"@[0] && "cout"@[1] != "cerr"@[1]
        && "cout"@[0] != "exit"@[0]);
    assert("cerr"@[0] != "pout"@[0] && "cerr"@[0] != "perr"@[0] && "cerr"@[0] != "exit"@[0]);
    assert("pout"@[1] != "perr"@[1] && "pout"@[0] != "exit"@[0] && "perr"@[0] != "exit"@[0]);
}

/// A report whose bodies announce no section is read back as it was written, whatever was
/// printed before it.
pub proof fn lemma_report_round_trip(
    nonce: Seq<char>,
    junk: Seq<char>,
    cout: Seq<char>,
    cerr: Seq<char>,
    pout: Seq<char>,
    perr: Seq<char>,
    exit: Seq<char>,
)
    requires
        !nonce.contains('\n'),
        quiet(nonce, cout),
        quiet(nonce, cerr),
        quiet(nonce, pout),
        quiet(nonce, perr),
        quiet(nonce, exit),
    ensures
        ({
            let raw = junk + framed_report(nonce, cout, cerr, pout, perr, exit);
            &&& section(nonce, raw, "cout"@) == Some(cout)
            &&& section(nonce, raw, "cerr"@) == Some(cerr)
            &&& section(nonce, raw, "pout"@) == Some(pout)
            &&& section(nonce, raw, "perr"@) == Some(perr)
            &&& section(nonce, raw, "exit"@) == Some(exit)
            &&& section(nonce, raw, "end"@) is Some
        }),
{
    reveal_strlit("\n");
    lemma_section_names();
    let r0 = junk + "\n"@;
    let r1 = r0 + framed_section(nonce, "cout"@, cout);
    let r2 = r1 + framed_section(nonce, "cerr"@, cerr);
    let r3 = r2 + framed_section(nonce, "pout"@, pout);
    let r4 = r3 + framed_section(nonce, "perr"@, perr);
    let r5 = r4 + framed_section(nonce, "exit"@, exit);
    lemma_framed_section(nonce, r0, "cout"@, cout);
    lemma_framed_section(nonce, r1, "cerr"@, cerr);
    lemma_framed_section(nonce, r2, "pout"@, pout);
    lemma_framed_section(nonce, r3, "perr"@, perr);
    lemma_framed_section(nonce, r4, "exit"@, exit);
    lemma_begin_section(nonce, r5, "end"@);
    assert(junk + framed_report(nonce, cout, cerr, pout, perr, exit) =~= r5 + ((nonce + ":"@
        + "end"@) + "\n"@));
    let s0 = sections(nonce, pieces(r0));
    let s1 = s0.push(("cout"@, cout + "\n"@));
    let s2 = s1.push(("cerr"@, cerr + "\n"@));
    let s3 = s2.push(("pout"@, pout + "\n"@));
    let s4 = s3.push(("perr"@, perr + "\n"@));
    let s5 = s4.push(("exit"@, exit + "\n"@));
    let s6 = s5.push(("end"@, Seq::empty()));
    let names = seq!["cout"@, "cerr"@, "pout"@, "perr"@, "exit"@, "end"@];
    assert forall|i: int| 0 <= i < 6 implies last_body(s6, #[trigger] names[i]) == Some(
        s6[s0.len() + i].1,
    ) by {
        let name = names[i];
        lemma_last_body_push(s0, "cout"@, cout + "\n"@, name);
        lemma_last_body_push(s1, "cerr"@, cerr + "\n"@, name);
        lemma_last_body_push(s2, "pout"@, pout + "\n"@, name);
        lemma_last_body_push(s3, "perr"@, perr + "\n"@, name);
        lemma_last_body_push(s4, "exit"@, exit + "\n"@, name);
        lemma_last_body_push(s5, "end"@, Seq::empty(), name);
    }
    assert(names[0] == "cout"@ && names[1] == "cerr"@ && names[2] == "pout"@ && names[3] == "perr"@
        && names[4] == "exit"@ && names[5] == "end"@);
    assert((cout + "\n"@).drop_last() =~= cout);
    assert((cerr + "\n"@).drop_last() =~= cerr);
    assert((pout + "\n"@).drop_last() =~= pout);
    assert((perr + "\n"@).drop_last() =~= perr);
    assert((exit + "\n"@).drop_last() =~= exit);
}

/// What a script keeps of the program's exit code: the number on a line, or nothing where the
/// program did not run.
pub open spec fn exit_text(code: Option<i32>) -> Seq<char> {
    match code {
        Some(n) => signed_decimal(n as int) + "\n"@,
        None => Seq::empty(),
    }
}

/// A number in decimal notation holds no colon and no white space.
pub proof fn lemma_signed_decimal(n: int)
    ensures
        signed_decimal(n).len() > 0,
        forall|i: int|
            0 <= i < signed_decimal(n).len() ==> !white_space(#[trigger] signed_decimal(n)[i])
                && signed_decimal(n)[i] != ':',
{
    reveal_strlit("-");
    let size = if n < 0 {
        -n
    } else {
        n
    };
    let digits = decimal(size as nat);
    lemma_decimal(size as nat);
    let from = signed_decimal(n).len() - digits.len();
    assert forall|i: int| 0 <= i < signed_decimal(n).len() implies !white_space(
        #[trigger] signed_decimal(n)[i],
    ) && signed_decimal(n)[i] != ':' by {
        if i >= from {
            assert(ascii_digit(digits[i - from]));
        }
    }
}

/// The exit code that a script keeps is read back, and announces no section.
proof fn lemma_exit_text(nonce: Seq<char>, code: Option<i32>)
    ensures
        quiet(nonce, exit_text(code)),
        i32_of(trimmed(exit_text(code))) == code,
{
    reveal_strlit("\n");
    reveal_strlit(":");
    let text = exit_text(code);
    let marker = nonce + ":"@;
    if let Some(n) = code {
        let number = signed_decimal(n as int);
        lemma_signed_decimal(n as int);
        lemma_decimal_round_trip(n);
        assert(text.drop_last() =~= number);
        assert(!white_space(number[0]) && !white_space(number[number.len() - 1]));
        assert(trimmed_start(text) == text);
        assert(trimmed_end(text) == trimmed_end(number));
        assert(trimmed_end(number) == number);
    }
    assert forall|at: int| !occurs_at(text, marker, at) by {
        if occurs_at(text, marker, at) {
            let last = marker.len() - 1;
            assert(text.subrange(at, at + marker.len())[last] == text[at + last]);
            assert(marker[last] == ':');
            let number = signed_decimal(code->0 as int);
            assert(at + last < number.len() ==> number[at + last] != ':');
        }
    }
    lemma_unmentioned_is_quiet(nonce, text);
}

/// What a script reports is read back as it was written, the exit code as a number, whatever
/// was printed before the report.
pub proof fn lemma_report_is_read_back(
    nonce: Seq<char>,
    junk: Seq<char>,
    cout: Seq<char>,
    cerr: Seq<char>,
    pout: Seq<char>,
    perr: Seq<char>,
    code: Option<i32>,
    out: RunnerOutput,
)
    requires
        !nonce.contains('\n'),
        quiet(nonce, cout),
        quiet(nonce, cerr),
        quiet(nonce, pout),
        quiet(nonce, perr),
    ensures
        ({
            let raw = junk + framed_report(nonce, cout, cerr, pout, perr, exit_text(code));
            &&& section(nonce, raw, "end"@) is Some
            &&& complete(nonce, raw)
            &&& reported(nonce, raw, out) <==> {
                &&& out.compile_stdout@ == cout
                &&& out.compile_stderr@ == cerr
                &&& out.program_stdout@ == pout
                &&& out.program_stderr@ == perr
                &&& out.exit_code == code
                &&& out.compile_failed_stage == (code is None)
            }
        }),
{
    lemma_exit_text(nonce, code);
    lemma_report_round_trip(nonce, junk, cout, cerr, pout, perr, exit_text(code));
}

/// The exit code that a script reports stands, whatever was printed before it: forged sections
/// do not count, even with the right nonce.
pub proof fn lemma_exit_cannot_be_forged(
    nonce: Seq<char>,
    junk: Seq<char>,
    cout: Seq<char>,
    cerr: Seq<char>,
    pout: Seq<char>,
    perr: Seq<char>,
    exit: Seq<char>,
)
    requires
        !nonce.contains('\n'),
        quiet(nonce, exit),
    ensures
        ({
            let raw = junk + framed_report(nonce, cout, cerr, pout, perr, exit);
            section(nonce, raw, "exit"@) == Some(exit) && section(nonce, raw, "end"@) is Some
        }),
{
    reveal_strlit("\n");
    lemma_section_names();
    let printed = junk + "\n"@ + framed_section(nonce, "cout"@, cout) + framed_section(
        nonce,
        "cerr"@,
        cerr,
    ) + framed_section(nonce, "pout"@, pout) + framed_section(nonce, "perr"@, perr);
    assert(at_line_start(printed));
    let all = printed + framed_section(nonce, "exit"@, exit);
    lemma_framed_section(nonce, printed, "exit"@, exit);
    lemma_begin_section(nonce, all, "end"@);
    assert(junk + framed_report(nonce, cout, cerr, pout, perr, exit) =~= all + ((nonce + ":"@
        + "end"@) + "\n"@));
    let before = sections(nonce, pieces(printed));
    let with_exit = before.push(("exit"@, exit + "\n"@));
    lemma_last_body_push(before, "exit"@, exit + "\n"@, "exit"@);
    lemma_last_body_push(with_exit, "end"@, Seq::empty(), "exit"@);
    lemma_last_body_push(with_exit, "end"@, Seq::empty(), "end"@);
    assert((exit + "\n"@).drop_last() =~= exit);
}

/// No line announces the section `name`.
pub open spec fn never_announced(nonce: Seq<char>, lines: Seq<Seq<char>>, name: Seq<char>) -> bool {
    forall|i: int| 0 <= i < lines.len() ==> announced(nonce, #[trigger] lines[i]) != Some(name)
}

/// A section that no line announces is not there.
pub proof fn lemma_never_announced(nonce: Seq<char>, lines: Seq<Seq<char>>, name: Seq<char>)
    requires
        never_announced(nonce, lines, name),
    ensures
        forall|i: int|
            0 <= i < sections(nonce, lines).len() ==> (#[trigger] sections(nonce, lines)[i]).0
                != name,
        last_body(sections(nonce, lines), name) is None,
    decreases lines.len(),
{
    if lines.len() > 0 {
        let most = lines.drop_last();
        assert(never_announced(nonce, most, name)) by {
            assert forall|i: int| 0 <= i < most.len() implies announced(nonce, #[trigger] most[i])
                != Some(name) by {
                assert(most[i] == lines[i]);
            }
        }
        lemma_never_announced(nonce, most, name);
        assert(announced(nonce, lines[lines.len() - 1]) != Some(name));
        let before = sections(nonce, most);
        let all = sections(nonce, lines);
        if all.len() > 0 {
            assert(before.len() > 0 ==> before[before.len() - 1].0 != name);
        }
    }
    lemma_last_body_absent(sections(nonce, lines), name);
}

proof fn lemma_last_body_absent(all: Seq<(Seq<char>, Seq<char>)>, name: Seq<char>)
    requires
        forall|i: int| 0 <= i < all.len() ==> (#[trigger] all[i]).0 != name,
    ensures
        last_body(all, name) is None,
    decreases all.len(),
{
    if all.len() > 0 {
        assert(all[all.len() - 1].0 != name);
        let most = all.drop_last();
        assert forall|i: int| 0 <= i < most.len() implies (#[trigger] most[i]).0 != name by {
            assert(most[i] == all[i]);
        }
        lemma_last_body_absent(most, name);
    }
}

proof fn lemma_never_announced_concat(
    nonce: Seq<char>,
    a: Seq<Seq<char>>,
    b: Seq<Seq<char>>,
    name: Seq<char>,
)
    requires
        never_announced(nonce, a, name),
        never_announced(nonce, b, name),
    ensures
        never_announced(nonce, a + b, name),
{
    assert forall|i: int| 0 <= i < (a + b).len() implies announced(nonce, #[trigger] (a + b)[i])
        != Some(name) by {
        if i < a.len() {
            assert((a + b)[i] == a[i]);
        } else {
            assert((a + b)[i] == b[i - a.len()]);
        }
    }
}

/// The beginning of a line that announces `other` does not announce `name`, unless `name` is
/// what `other` begins with.
proof fn lemma_cut_line(nonce: Seq<char>, other: Seq<char>, name: Seq<char>, k: int)
    requires
        !nonce.contains('\n'),
        section_name(other),
        0 <= k <= (nonce + ":"@ + other).len(),
        !name.is_prefix_of(other) || k < (nonce + ":"@ + name).len(),
    ensures
        never_announced(nonce, pieces((nonce + ":"@ + other).take(k)), name),
{
    lemma_no_newline(nonce, other);
    let marker = nonce + ":"@;
    let line = marker + other;
    let cut = line.take(k);
    if cut.len() > 0 {
        assert forall|i: int| 0 <= i < cut.len() implies cut[i] != '\n' by {
            assert(line.contains(line[i]));
        }
        assert(!cut.contains('\n'));
        lemma_one_piece(cut);
        assert(without_newline(cut) == cut);
        if announced(nonce, cut) == Some(name) {
            assert(name == cut.skip(marker.len() as int));
            assert(name.len() == k - marker.len());
            assert(name =~= other.subrange(0, name.len() as int));
            assert(name.is_prefix_of(other));
        }
    }
}

/// A body none of whose lines begins as if to announce `name` does not announce it, whole or
/// cut short.
proof fn lemma_cut_body(nonce: Seq<char>, body: Seq<char>, name: Seq<char>, k: int)
    requires
        section_name(name),
        !line_begins(body, nonce + ":"@ + name),
        0 <= k <= body.len() + 1,
    ensures
        never_announced(nonce, pieces((body + "\n"@).take(k)), name),
{
    reveal_strlit("\n");
    let marker = nonce + ":"@;
    let start = marker + name;
    let s = (body + "\n"@).take(k);
    assert forall|i: int| 0 <= i < pieces(s).len() implies announced(
        nonce,
        #[trigger] pieces(s)[i],
    ) != Some(name) by {
        let piece = pieces(s)[i];
        let line = without_newline(piece);
        let at = lemma_piece_position(s, i);
        if announced(nonce, piece) == Some(name) {
            assert(line.subrange(0, marker.len() as int) == marker);
            assert(line =~= line.subrange(0, marker.len() as int) + line.skip(marker.len() as int));
            assert(line == start);
            assert(s.subrange(at, at + piece.len())[start.len() - 1] == start[start.len() - 1]);
            assert(ascii_lower(name[name.len() - 1]));
            assert(at + start.len() <= body.len());
            assert(s.subrange(at, at + piece.len()).take(start.len() as int) =~= start);
            assert(body.subrange(at, at + start.len()) =~= start);
            assert(body.take(at) =~= s.take(at));
            assert(occurs_at(body, start, at));
        }
    }
}

/// A framed section, whole or cut short, announces no other section.
proof fn lemma_cut_section(
    nonce: Seq<char>,
    other: Seq<char>,
    body: Seq<char>,
    name: Seq<char>,
    k: int,
)
    requires
        !nonce.contains('\n'),
        section_name(other),
        section_name(name),
        !name.is_prefix_of(other),
        !line_begins(body, nonce + ":"@ + name),
        0 <= k <= framed_section(nonce, other, body).len(),
    ensures
        never_announced(nonce, pieces(framed_section(nonce, other, body).take(k)), name),
{
    reveal_strlit("\n");
    let line = nonce + ":"@ + other;
    let head = line + "\n"@;
    let more = body + "\n"@;
    let whole = framed_section(nonce, other, body);
    assert(whole =~= head + more);
    if k <= line.len() {
        assert(whole.take(k) =~= line.take(k));
        lemma_cut_line(nonce, other, name, k);
    } else {
        let rest = more.take(k - head.len());
        assert(whole.take(k) =~= head + rest);
        lemma_pieces_concat(head, rest);
        lemma_no_newline(nonce, other);
        lemma_pieces_line(line);
        lemma_announced(nonce, other);
        assert(name.is_prefix_of(name)) by {
            assert(name.subrange(0, name.len() as int) =~= name);
        }
        assert(never_announced(nonce, pieces(head), name));
        lemma_cut_body(nonce, body, name, k - head.len());
        lemma_never_announced_concat(nonce, pieces(head), pieces(rest), name);
    }
}

/// A section put behind lines that do not announce the end, whole or cut short, does not
/// announce it either.
proof fn lemma_cut_step(
    nonce: Seq<char>,
    before: Seq<char>,
    other: Seq<char>,
    body: Seq<char>,
    k: int,
)
    requires
        !nonce.contains('\n'),
        at_line_start(before),
        never_announced(nonce, pieces(before), "end"@),
        section_name(other),
        !"end"@.is_prefix_of(other),
        !line_begins(body, nonce + ":"@ + "end"@),
        0 <= k <= framed_section(nonce, other, body).len(),
    ensures
        never_announced(
            nonce,
            pieces(before + framed_section(nonce, other, body).take(k)),
            "end"@,
        ),
        at_line_start(before + framed_section(nonce, other, body)),
{
    reveal_strlit("\n");
    let part = framed_section(nonce, other, body).take(k);
    lemma_section_names();
    lemma_cut_section(nonce, other, body, "end"@, k);
    lemma_pieces_concat(before, part);
    lemma_never_announced_concat(nonce, pieces(before), pieces(part), "end"@);
}

/// Framed sections one after the other, given as pairs of a name and a body.
spec fn framed_sections(nonce: Seq<char>, parts: Seq<(Seq<char>, Seq<char>)>) -> Seq<char>
    decreases parts.len(),
{
    if parts.len() == 0 {
        Seq::empty()
    } else {
        framed_sections(nonce, parts.drop_last()) + framed_section(
            nonce,
            parts.last().0,
            parts.last().1,
        )
    }
}

proof fn lemma_five_sections(
    nonce: Seq<char>,
    junk: Seq<char>,
    cout: Seq<char>,
    cerr: Seq<char>,
    pout: Seq<char>,
    perr: Seq<char>,
    exit: Seq<char>,
)
    ensures
        junk + framed_report(nonce, cout, cerr, pout, perr, exit) == (junk + "\n"@)
            + framed_sections(
            nonce,
            seq![
                ("cout"@, cout),
                ("cerr"@, cerr),
                ("pout"@, pout),
                ("perr"@, perr),
                ("exit"@, exit),
            ],
        ) + (nonce + ":"@ + "end"@ + "\n"@),
{
    let p0 = Seq::<(Seq<char>, Seq<char>)>::empty();
    let p1 = p0.push(("cout"@, cout));
    let p2 = p1.push(("cerr"@, cerr));
    let p3 = p2.push(("pout"@, pout));
    let p4 = p3.push(("perr"@, perr));
    let p5 = p4.push(("exit"@, exit));
    assert(p1.drop_last() =~= p0);
    assert(p2.drop_last() =~= p1);
    assert(p3.drop_last() =~= p2);
    assert(p4.drop_last() =~= p3);
    assert(p5.drop_last() =~= p4);
    let f1 = framed_section(nonce, "cout"@, cout);
    let f2 = framed_section(nonce, "cerr"@, cerr);
    let f3 = framed_section(nonce, "pout"@, pout);
    let f4 = framed_section(nonce, "perr"@, perr);
    let f5 = framed_section(nonce, "exit"@, exit);
    assert(framed_sections(nonce, p0) == Seq::<char>::empty());
    assert(framed_sections(nonce, p1) =~= f1);
    assert(framed_sections(nonce, p2) == f1 + f2);
    assert(framed_sections(nonce, p3) == f1 + f2 + f3);
    assert(framed_sections(nonce, p4) == f1 + f2 + f3 + f4);
    assert(framed_sections(nonce, p5) == f1 + f2 + f3 + f4 + f5);
    assert(seq![
        ("cout"@, cout),
        ("cerr"@, cerr),
        ("pout"@, pout),
        ("perr"@, perr),
        ("exit"@, exit),
    ] =~= p5);
    lemma_regroup(junk, "\n"@, f1, f2, f3, f4, f5, nonce + ":"@ + "end"@ + "\n"@);
}

proof fn lemma_regroup(
    a: Seq<char>,
    b: Seq<char>,
    c: Seq<char>,
    d: Seq<char>,
    e: Seq<char>,
    f: Seq<char>,
    g: Seq<char>,
    h: Seq<char>,
)
    ensures
        a + (b + c + d + e + f + g + h) == (a + b) + (c + d + e + f + g) + h,
{
    assert(a + (b + c + d + e + f + g + h) =~= (a + b) + (c + d + e + f + g) + h);
}

/// Sections behind a text, whole or cut short, do not announce the end.
proof fn lemma_cut_sections(
    nonce: Seq<char>,
    junk: Seq<char>,
    parts: Seq<(Seq<char>, Seq<char>)>,
    k: int,
)
    requires
        !nonce.contains('\n'),
        !line_begins(junk, nonce + ":"@ + "end"@),
        forall|i: int|
            0 <= i < parts.len() ==> section_name((#[trigger] parts[i]).0)
                && !"end"@.is_prefix_of(parts[i].0) && !line_begins(
                parts[i].1,
                nonce + ":"@ + "end"@,
            ),
        0 <= k <= (junk + "\n"@ + framed_sections(nonce, parts)).len(),
    ensures
        never_announced(
            nonce,
            pieces((junk + "\n"@ + framed_sections(nonce, parts)).take(k)),
            "end"@,
        ),
        at_line_start(junk + "\n"@ + framed_sections(nonce, parts)),
    decreases parts.len(),
{
    let opening = junk + "\n"@;
    if parts.len() == 0 {
        reveal_strlit("\n");
        lemma_section_names();
        assert(opening + framed_sections(nonce, parts) =~= opening);
        lemma_cut_body(nonce, junk, "end"@, k);
    } else {
        let most = parts.drop_last();
        let (name, body) = parts[parts.len() - 1];
        let before = opening + framed_sections(nonce, most);
        let part = framed_section(nonce, name, body);
        assert forall|i: int| 0 <= i < most.len() implies section_name((#[trigger] most[i]).0)
            && !"end"@.is_prefix_of(most[i].0) && !line_begins(
            most[i].1,
            nonce + ":"@ + "end"@,
        ) by {
            assert(most[i] == parts[i]);
        }
        assert(opening + framed_sections(nonce, parts) =~= before + part);
        lemma_cut_sections(nonce, junk, most, before.len() as int);
        assert(before.take(before.len() as int) =~= before);
        lemma_cut_step(nonce, before, name, body, part.len() as int);
        if k <= before.len() {
            lemma_cut_sections(nonce, junk, most, k);
            assert((before + part).take(k) =~= before.take(k));
        } else {
            lemma_cut_step(nonce, before, name, body, k - before.len());
            assert((before + part).take(k) =~= before + part.take(k - before.len()));
        }
    }
}

/// A report that breaks off before its last line is complete is refused, unless something in
/// it looks like that line.
pub proof fn lemma_cut_report_is_refused(
    nonce: Seq<char>,
    junk: Seq<char>,
    cout: Seq<char>,
    cerr: Seq<char>,
    pout: Seq<char>,
    perr: Seq<char>,
    exit: Seq<char>,
    k: int,
)
    requires
        !nonce.contains('\n'),
        !line_begins(junk, nonce + ":"@ + "end"@),
        !line_begins(cout, nonce + ":"@ + "end"@),
        !line_begins(cerr, nonce + ":"@ + "end"@),
        !line_begins(pout, nonce + ":"@ + "end"@),
        !line_begins(perr, nonce + ":"@ + "end"@),
        !line_begins(exit, nonce + ":"@ + "end"@),
        0 <= k < (junk + framed_report(nonce, cout, cerr, pout, perr, exit)).len() - 1,
    ensures
        section(
            nonce,
            (junk + framed_report(nonce, cout, cerr, pout, perr, exit)).take(k),
            "end"@,
        ) is None,
{
    reveal_strlit("\n");
    lemma_section_names();
    let end = "end"@;
    assert(!end.is_prefix_of("cout"@) && !end.is_prefix_of("cerr"@) && !end.is_prefix_of("pout"@)
        && !end.is_prefix_of("perr"@) && !end.is_prefix_of("exit"@)) by {
        reveal_strlit("cout");
        reveal_strlit("cerr");
        reveal_strlit("pout");
        reveal_strlit("perr");
        reveal_strlit("exit");
        reveal_strlit("end");
        assert("cout"@.subrange(0, 3)[0] != end[0]);
        assert("cerr"@.subrange(0, 3)[0] != end[0]);
        assert("pout"@.subrange(0, 3)[0] != end[0]);
        assert("perr"@.subrange(0, 3)[0] != end[0]);
        assert("exit"@.subrange(0, 3)[1] != end[1]);
    }
    let parts = seq![
        ("cout"@, cout),
        ("cerr"@, cerr),
        ("pout"@, pout),
        ("perr"@, perr),
        ("exit"@, exit),
    ];
    let opening = junk + "\n"@;
    let bodies = opening + framed_sections(nonce, parts);
    let raw = junk + framed_report(nonce, cout, cerr, pout, perr, exit);
    lemma_five_sections(nonce, junk, cout, cerr, pout, perr, exit);
    let cut = raw.take(k);
    if k <= bodies.len() {
        lemma_cut_sections(nonce, junk, parts, k);
        assert(cut =~= bodies.take(k));
    } else {
        let line = nonce + ":"@ + end;
        let rest = line.take(k - bodies.len());
        assert(cut =~= bodies + rest);
        lemma_cut_sections(nonce, junk, parts, bodies.len() as int);
        assert(bodies.take(bodies.len() as int) =~= bodies);
        lemma_cut_line(nonce, end, end, k - bodies.len());
        lemma_pieces_concat(bodies, rest);
        lemma_never_announced_concat(nonce, pieces(bodies), pieces(rest), end);
    }
    lemma_never_announced(nonce, pieces(cut), end);
}

/// A nonce is made of ASCII letters and digits, so it fits on a line and needs no quoting.
pub proof fn lemma_nonce_is_plain(raw: Seq<char>)
    ensures
        "KNOCKS"@.is_prefix_of(nonce_text(raw)),
        nonce_text(raw).len() <= 38,
        forall|i: int|
            0 <= i < nonce_text(raw).len() ==> ascii_alphanumeric(#[trigger] nonce_text(raw)[i]),
        !nonce_text(raw).contains('\n'),
{
    reveal_strlit("KNOCKS");
    let wanted = |c: char| ascii_alphanumeric(c);
    let cleaned = raw.filter(wanted);
    let nonce = nonce_text(raw);
    assert forall|i: int| 0 <= i < nonce.len() implies ascii_alphanumeric(#[trigger] nonce[i]) by {
        if i >= 6 {
            raw.lemma_filter_pred(wanted, i - 6);
            assert(nonce[i] == cleaned[i - 6]);
        }
    }
    assert(nonce.subrange(0, 6) =~= "KNOCKS"@);
}

/// A nonce holds the whole of the random text that it is made from, where that is at most
/// thirty-two ASCII letters and digits.
pub proof fn lemma_nonce_keeps_random_text(raw: Seq<char>)
    requires
        raw.len() <= 32,
        forall|i: int| 0 <= i < raw.len() ==> ascii_alphanumeric(#[trigger] raw[i]),
    ensures
        nonce_text(raw) == "KNOCKS"@ + raw,
{
    lemma_filter_keeps_all(raw, |c: char| ascii_alphanumeric(c));
}

} // verus!
