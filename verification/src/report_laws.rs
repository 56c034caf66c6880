//! What a report says, said of the lines that it is made of.

use vstd::prelude::*;

use crate::framing::{
    framed_section, lemma_framed_section, lemma_never_announced, lemma_signed_decimal,
    never_announced, quiet, section_name,
};
use crate::runner::{announced, complete, last_body, reported, section, sections, RunnerOutput};
use crate::text::{
    at_line_start, blank, lemma_decimal_round_trip, lemma_pieces_concat, pieces,
    signed_decimal, trimmed, white_space, without_newline,
};
use crate::text_laws::{
    lemma_other_texts_are_no_integers, lemma_piece, lemma_trimming, lemma_trimming_blank,
};

verus! {

/// A line announces a section exactly where it is the nonce, a colon and the section's name,
/// which is made of small ASCII letters, with or without a newline behind it.
pub proof fn lemma_announcements(nonce: Seq<char>, line: Seq<char>, name: Seq<char>)
    requires
        forall|i: int| 0 <= i < line.len() - 1 ==> #[trigger] line[i] != '\n',
    ensures
        announced(nonce, line) == Some(name) <==> {
            &&& name.len() > 0
            &&& forall|i: int| 0 <= i < name.len() ==> 'a' <= #[trigger] name[i] <= 'z'
            &&& line == nonce + ":"@ + name || line == nonce + ":"@ + name + "\n"@
        },
{
    reveal_strlit("\n");
    let marker = nonce + ":"@;
    let text = without_newline(line);
    let full = marker + name;
    if announced(nonce, line) == Some(name) {
        assert(text =~= text.subrange(0, marker.len() as int) + text.skip(marker.len() as int));
        assert(text == full);
        if line.len() > 0 && line.last() == '\n' {
            assert(line =~= full + "\n"@);
        }
    }
    if name.len() > 0 && (forall|i: int| 0 <= i < name.len() ==> 'a' <= #[trigger] name[i] <= 'z')
        && (line == full || line == full + "\n"@) {
        assert('a' <= name[name.len() - 1] <= 'z');
        assert(full.last() == name[name.len() - 1]);
        assert((full + "\n"@).drop_last() =~= full);
        assert(text == full);
        assert(full.skip(marker.len() as int) =~= name);
        assert(full.subrange(0, marker.len() as int) =~= marker);
    }
}

/// A name that no line is made of announces nothing.
proof fn lemma_not_announced(nonce: Seq<char>, raw: Seq<char>, name: Seq<char>)
    requires
        forall|i: int|
            0 <= i < pieces(raw).len() ==> #[trigger] pieces(raw)[i] != nonce + ":"@ + name
                && pieces(raw)[i] != nonce + ":"@ + name + "\n"@,
    ensures
        never_announced(nonce, pieces(raw), name),
        section(nonce, raw, name) is None,
{
    assert forall|i: int| 0 <= i < pieces(raw).len() implies announced(
        nonce,
        #[trigger] pieces(raw)[i],
    ) != Some(name) by {
        lemma_piece(raw, i);
        lemma_announcements(nonce, pieces(raw)[i], name);
    }
    lemma_never_announced(nonce, pieces(raw), name);
}

/// `name` is one of the sections that every report has.
pub open spec fn required_name(name: Seq<char>) -> bool {
    name == "cout"@ || name == "cerr"@ || name == "pout"@ || name == "perr"@ || name == "exit"@
        || name == "end"@
}

/// A report in which no line is the name of one of the six sections says nothing at all.
pub proof fn lemma_every_section_is_needed(
    nonce: Seq<char>,
    raw: Seq<char>,
    name: Seq<char>,
    out: RunnerOutput,
)
    requires
        required_name(name),
        forall|i: int|
            0 <= i < pieces(raw).len() ==> #[trigger] pieces(raw)[i] != nonce + ":"@ + name
                && pieces(raw)[i] != nonce + ":"@ + name + "\n"@,
    ensures
        section(nonce, raw, "end"@) is None || !complete(nonce, raw),
        !reported(nonce, raw, out),
{
    lemma_not_announced(nonce, raw, name);
}

/// Sections that begin with a name are apart from those before them.
proof fn lemma_sections_concat(nonce: Seq<char>, a: Seq<Seq<char>>, b: Seq<Seq<char>>)
    requires
        b.len() > 0 ==> announced(nonce, b[0]) is Some,
    ensures
        sections(nonce, a + b) == sections(nonce, a) + sections(nonce, b),
        b.len() > 0 ==> sections(nonce, b).len() > 0,
    decreases b.len(),
{
    if b.len() == 0 {
        assert(a + b =~= a);
        assert(sections(nonce, a) + sections(nonce, b) =~= sections(nonce, a));
    } else {
        let most = b.drop_last();
        assert((a + b).drop_last() =~= a + most);
        assert((a + b).last() == b.last());
        if most.len() > 0 {
            assert(most[0] == b[0]);
        }
        lemma_sections_concat(nonce, a, most);
        let (x, y) = (sections(nonce, a), sections(nonce, most));
        match announced(nonce, b.last()) {
            Some(name) => {
                assert((x + y).push((name, Seq::empty())) =~= x + y.push((name, Seq::empty())));
            },
            None => {
                assert(most.len() > 0);
                let last = (y.last().0, y.last().1 + b.last());
                assert((x + y).last() == y.last());
                assert((x + y).drop_last().push(last) =~= x + y.drop_last().push(last));
            },
        }
    }
}

proof fn lemma_last_body_concat(
    a: Seq<(Seq<char>, Seq<char>)>,
    b: Seq<(Seq<char>, Seq<char>)>,
    name: Seq<char>,
)
    ensures
        last_body(a + b, name) == (if last_body(b, name) is Some {
            last_body(b, name)
        } else {
            last_body(a, name)
        }),
    decreases b.len(),
{
    if b.len() == 0 {
        assert(a + b =~= a);
    } else {
        assert((a + b).drop_last() =~= a + b.drop_last());
        lemma_last_body_concat(a, b.drop_last(), name);
    }
}

/// A section is what stands between its name and the next name, whatever sections came before
/// it: of two sections with the same name the last counts.
pub proof fn lemma_last_section_counts(
    nonce: Seq<char>,
    before: Seq<char>,
    name: Seq<char>,
    body: Seq<char>,
    rest: Seq<char>,
)
    requires
        !nonce.contains('\n'),
        section_name(name),
        at_line_start(before),
        quiet(nonce, body),
        never_announced(nonce, pieces(rest), name),
        pieces(rest).len() > 0 ==> announced(nonce, pieces(rest)[0]) is Some,
    ensures
        section(nonce, before + framed_section(nonce, name, body) + rest, name) == Some(body),
{
    reveal_strlit("\n");
    let head = before + framed_section(nonce, name, body);
    lemma_framed_section(nonce, before, name, body);
    lemma_pieces_concat(head, rest);
    lemma_sections_concat(nonce, pieces(head), pieces(rest));
    lemma_last_body_concat(
        sections(nonce, pieces(head)),
        sections(nonce, pieces(rest)),
        name,
    );
    lemma_never_announced(nonce, pieces(rest), name);
    assert((body + "\n"@).drop_last() =~= body);
}

/// The exit code is the number in its section, with any white space around it. Where there is
/// nothing, or something else, there is no exit code, and the program did not run.
pub proof fn lemma_exit_code(
    nonce: Seq<char>,
    raw: Seq<char>,
    out: RunnerOutput,
    before: Seq<char>,
    n: i32,
    after: Seq<char>,
)
    requires
        reported(nonce, raw, out),
        blank(before),
        blank(after),
    ensures
        section(nonce, raw, "exit"@) == Some(before + signed_decimal(n as int) + after) ==> {
            &&& out.exit_code == Some(n)
            &&& !out.compile_failed_stage
        },
        section(nonce, raw, "exit"@) == Some(before) ==> {
            &&& out.exit_code is None
            &&& out.compile_failed_stage
        },
{
    lemma_decimal_round_trip(n);
    lemma_trimming_blank(before);
    assert(trimmed(before) =~= Seq::<char>::empty());
    lemma_other_texts_are_no_integers(Seq::<char>::empty(), 0);
    lemma_signed_decimal(n as int);
    let number = signed_decimal(n as int);
    assert(!white_space(number[0]) && !white_space(number[number.len() - 1]));
    lemma_trimming(before, number, after);
}

/// Where the section of the exit code holds a character that is in no number, there is no exit
/// code either.
pub proof fn lemma_no_exit_code(nonce: Seq<char>, raw: Seq<char>, out: RunnerOutput, i: int)
    requires
        reported(nonce, raw, out),
        0 <= i < trimmed(section(nonce, raw, "exit"@)->0).len(),
        !('0' <= trimmed(section(nonce, raw, "exit"@)->0)[i] <= '9'),
        i > 0 || (trimmed(section(nonce, raw, "exit"@)->0)[0] != '+' && trimmed(
            section(nonce, raw, "exit"@)->0,
        )[0] != '-'),
    ensures
        out.exit_code is None,
        out.compile_failed_stage,
{
    lemma_other_texts_are_no_integers(trimmed(section(nonce, raw, "exit"@)->0), i);
}

/// A report says what its sections hold, section by section.
pub proof fn lemma_report_says_its_sections(nonce: Seq<char>, raw: Seq<char>, out: RunnerOutput)
    requires
        reported(nonce, raw, out),
    ensures
        section(nonce, raw, "cout"@) == Some(out.compile_stdout@),
        section(nonce, raw, "cerr"@) == Some(out.compile_stderr@),
        section(nonce, raw, "pout"@) == Some(out.program_stdout@),
        section(nonce, raw, "perr"@) == Some(out.program_stderr@),
        section(nonce, raw, "exit"@) is Some,
        section(nonce, raw, "end"@) is Some,
        out.compile_failed_stage <==> out.exit_code is None,
{
}

} // verus!
