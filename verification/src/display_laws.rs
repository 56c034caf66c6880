//! What is shown of a run and how, said of the lines that were printed.

use vstd::prelude::*;

use crate::contract::{
    has_noise_prefix, line_kind, quotes_source, shown_lines, without_project, worth_showing,
    LineKind, NOISE_PREFIXES,
};
use crate::judging_laws::{indented, lemma_indented};
use crate::text::{
    blank, last_position, lemma_filter_concat, lemma_trimmed_blank, lemma_trimmed_end,
    lemma_trimmed_keeps_words, lemma_trimmed_start, lines_of, occurs_at, occurs_in, trimmed,
    trimmed_end, trimmed_start, white_space,
};
use crate::text_laws::{
    lemma_last_position_is_last, lemma_lines_concat, lemma_occurs_between, lemma_only_line,
};

verus! {

// ---- C# builds ----

/// `t` begins as a line does that a build prints in any case.
pub open spec fn noisy(t: Seq<char>) -> bool {
    ||| "The template "@.is_prefix_of(t)
    ||| "Processing post-creation actions"@.is_prefix_of(t)
    ||| "Running 'dotnet restore'"@.is_prefix_of(t)
    ||| "Determining projects to restore"@.is_prefix_of(t)
    ||| "Restored "@.is_prefix_of(t)
    ||| "Restore succeeded"@.is_prefix_of(t)
    ||| "MSBuild version"@.is_prefix_of(t)
    ||| "All projects are up-to-date"@.is_prefix_of(t)
    ||| "Build succeeded"@.is_prefix_of(t)
    ||| "Time Elapsed"@.is_prefix_of(t)
    ||| "You may only use the Microsoft .NET"@.is_prefix_of(t)
}

/// A line is shown where it has the word `error` or `warning`. Where it has only the capitalised
/// word, it is shown unless it ends in a count. Any other line is shown unless it is blank, or
/// begins as builds always print, or names what was built.
pub proof fn lemma_lines_worth_showing(line: Seq<char>)
    ensures
        ({
            let t = trimmed(line);
            let diagnostic = occurs_in(line, "error"@) || occurs_in(line, "warning"@);
            let capital = occurs_in(line, "Error"@) || occurs_in(line, "Warning"@);
            let count = "Warning(s)"@.is_suffix_of(t) || "Error(s)"@.is_suffix_of(t);
            let artifact = occurs_in(t, " -> "@) && ".dll"@.is_suffix_of(t);
            &&& diagnostic ==> worth_showing(line)
            &&& !diagnostic && capital ==> (worth_showing(line) <==> !count)
            &&& !diagnostic && !capital ==> (worth_showing(line) <==> !blank(line) && !noisy(t)
                && !artifact)
        }),
{
    reveal_strlit("error");
    reveal_strlit("warning");
    reveal_strlit("Error");
    reveal_strlit("Warning");
    lemma_trimmed_keeps_words(line, "error"@);
    lemma_trimmed_keeps_words(line, "warning"@);
    lemma_trimmed_keeps_words(line, "Error"@);
    lemma_trimmed_keeps_words(line, "Warning"@);
    lemma_trimmed_blank(line);
    let t = trimmed(line);
    assert(has_noise_prefix(t) == noisy(t)) by {
        assert(NOISE_PREFIXES[0]@ == "The template "@);
        assert(NOISE_PREFIXES[1]@ == "Processing post-creation actions"@);
        assert(NOISE_PREFIXES[2]@ == "Running 'dotnet restore'"@);
        assert(NOISE_PREFIXES[3]@ == "Determining projects to restore"@);
        assert(NOISE_PREFIXES[4]@ == "Restored "@);
        assert(NOISE_PREFIXES[5]@ == "Restore succeeded"@);
        assert(NOISE_PREFIXES[6]@ == "MSBuild version"@);
        assert(NOISE_PREFIXES[7]@ == "All projects are up-to-date"@);
        assert(NOISE_PREFIXES[8]@ == "Build succeeded"@);
        assert(NOISE_PREFIXES[9]@ == "Time Elapsed"@);
        assert(NOISE_PREFIXES[10]@ == "You may only use the Microsoft .NET"@);
    }
}

/// A project file in square brackets is taken off the end of a line, with the space before it
/// and the white space behind it, and the line before it stays as it is.
pub proof fn lemma_project_is_taken_off(rest: Seq<char>, path: Seq<char>, after: Seq<char>)
    requires
        blank(after),
        !occurs_in("["@ + path + ".csproj]"@, " ["@),
    ensures
        without_project(rest + " ["@ + path + ".csproj]"@ + after) == rest,
{
    let t = rest + " ["@ + path + ".csproj]"@;
    assert(t.len() > 0 && !white_space(t.last()) && ".csproj]"@.is_suffix_of(t)) by {
        reveal_strlit(".csproj]");
        assert(t.subrange(t.len() - 8, t.len() as int) =~= ".csproj]"@);
    }
    lemma_end_is_trimmed(t, after);
    lemma_last_bracket(rest, path);
    assert(t.take(rest.len() as int) =~= rest);
}

proof fn lemma_end_is_trimmed(t: Seq<char>, after: Seq<char>)
    requires
        t.len() > 0,
        !white_space(t.last()),
        blank(after),
    ensures
        trimmed_end(t + after) == t,
{
    let line = t + after;
    lemma_trimmed_end(line);
    let m = trimmed_end(line).len() as int;
    assert(line[t.len() - 1] == t.last());
    assert(m >= t.len());
    if m > t.len() {
        assert(trimmed_end(line).last() == line[m - 1]);
        assert(line[m - 1] == after[m - 1 - t.len()]);
    }
    assert(trimmed_end(line) =~= t);
}

proof fn lemma_last_bracket(rest: Seq<char>, path: Seq<char>)
    requires
        !occurs_in("["@ + path + ".csproj]"@, " ["@),
    ensures
        last_position(rest + " ["@ + path + ".csproj]"@, " ["@) == Some(rest.len() as int),
{
    let t = rest + " ["@ + path + ".csproj]"@;
    let inner = "["@ + path + ".csproj]"@;
    assert(rest + " ["@ + (path + ".csproj]"@) =~= t);
    lemma_occurs_between(rest, " ["@, path + ".csproj]"@);
    assert(t.skip(rest.len() as int + 1) =~= inner) by {
        reveal_strlit(" [");
        reveal_strlit("[");
    }
    assert(" ["@.len() == 2) by {
        reveal_strlit(" [");
    }
    lemma_no_later_position(t, " ["@, rest.len() as int);
}

proof fn lemma_no_later_position(t: Seq<char>, pattern: Seq<char>, n: int)
    requires
        occurs_at(t, pattern, n),
        n < t.len(),
        !occurs_in(t.skip(n + 1), pattern),
    ensures
        last_position(t, pattern) == Some(n),
{
    lemma_last_position_is_last(t, pattern);
    let at = last_position(t, pattern)->0;
    if at > n {
        let inner = t.skip(n + 1);
        let k = at - n - 1;
        assert(inner.subrange(k, k + pattern.len()) =~= t.subrange(at, at + pattern.len()));
        assert(occurs_at(inner, pattern, k));
    }
}

/// A line that does not end in a project file stays as it is, and so does one in which no
/// bracket stands behind a space.
pub proof fn lemma_other_lines_stay(line: Seq<char>)
    requires
        !".csproj]"@.is_suffix_of(trimmed_end(line)) || !occurs_in(trimmed_end(line), " ["@),
    ensures
        without_project(line) == line,
{
    lemma_last_position_is_last(trimmed_end(line), " ["@);
}

/// The lines that are shown of two texts one behind the other are those of the first and then
/// those of the second.
pub proof fn lemma_shown_lines_concat(a: Seq<char>, b: Seq<char>)
    requires
        a.len() == 0 || a.last() == '\n',
    ensures
        shown_lines(a + b) == shown_lines(a) + shown_lines(b),
{
    lemma_lines_concat(a, b);
    let cut = |line: Seq<char>| without_project(line);
    let keep = |line: Seq<char>| worth_showing(line);
    assert(lines_of(a + b).map_values(cut) =~= lines_of(a).map_values(cut) + lines_of(
        b,
    ).map_values(cut));
    lemma_filter_concat(lines_of(a).map_values(cut), lines_of(b).map_values(cut), keep);
}

/// One line is shown without its project file, where that is worth showing, and not at all
/// where it is not.
pub proof fn lemma_shown_line(line: Seq<char>)
    requires
        line.len() > 0,
        !line.contains('\n'),
    ensures
        shown_lines(line) == (if worth_showing(without_project(line)) {
            seq![without_project(line)]
        } else {
            Seq::empty()
        }),
{
    reveal(Seq::filter);
    lemma_only_line(line);
    let keep = |line: Seq<char>| worth_showing(line);
    let cut = seq![line].map_values(|line: Seq<char>| without_project(line));
    assert(cut =~= seq![without_project(line)]);
    assert(cut.drop_last() =~= Seq::empty());
    assert(cut.drop_last().filter(keep) =~= Seq::empty());
    assert(cut.filter(keep) =~= (if worth_showing(without_project(line)) {
        seq![without_project(line)]
    } else {
        Seq::empty()
    }));
}

// ---- Colours ----

/// Nothing but digits and white space stands before the first bar of `line`.
pub open spec fn quoting(line: Seq<char>) -> bool {
    exists|k: int|
        0 <= k < line.len() && #[trigger] line[k] == '|' && forall|j: int|
            0 <= j < k ==> '0' <= #[trigger] line[j] <= '9' || white_space(line[j])
}

proof fn lemma_quoting(line: Seq<char>)
    ensures
        quotes_source(trimmed_start(line)) == quoting(line),
{
    lemma_trimmed_start(line);
    let t = trimmed_start(line);
    let n = line.len() - t.len();
    if quotes_source(t) {
        let k = choose|k: int|
            0 <= k < t.len() && #[trigger] t[k] == '|' && forall|j: int|
                0 <= j < k ==> '0' <= #[trigger] t[j] <= '9' || white_space(t[j]);
        assert(line[n + k] == '|');
        assert forall|j: int| 0 <= j < n + k implies '0' <= #[trigger] line[j] <= '9'
            || white_space(line[j]) by {
            if j >= n {
                assert(line[j] == t[j - n]);
            }
        }
    }
    if quoting(line) {
        let k = choose|k: int|
            0 <= k < line.len() && #[trigger] line[k] == '|' && forall|j: int|
                0 <= j < k ==> '0' <= #[trigger] line[j] <= '9' || white_space(line[j]);
        assert(k >= n);
        assert(t[k - n] == '|');
        assert forall|j: int| 0 <= j < k - n implies '0' <= #[trigger] t[j] <= '9' || white_space(
            t[j],
        ) by {
            assert(t[j] == line[j + n]);
        }
    }
}

/// What a line ends with does not depend on the white space before it.
proof fn lemma_ending(line: Seq<char>, word: Seq<char>)
    requires
        word.len() > 0,
        forall|i: int| 0 <= i < word.len() ==> !white_space(#[trigger] word[i]),
    ensures
        word.is_suffix_of(trimmed_start(line)) == word.is_suffix_of(line),
{
    lemma_trimmed_start(line);
    let t = trimmed_start(line);
    let n = line.len() - t.len();
    if word.is_suffix_of(t) {
        assert(line.subrange(line.len() - word.len(), line.len() as int) =~= t.subrange(
            t.len() - word.len(),
            t.len() as int,
        ));
    }
    if word.is_suffix_of(line) {
        let at = line.len() - word.len();
        assert(line.subrange(at, line.len() as int)[0] == line[at]);
        assert(!white_space(word[0]));
        assert(at >= n);
        assert(t.subrange(t.len() - word.len(), t.len() as int) =~= line.subrange(
            at,
            line.len() as int,
        ));
    }
}

/// A quoted line of source has no colour. Any other line is an error where it has the form of a
/// compiler's error, of an exception or of a panic, else a warning where it has the form of one,
/// else a note, and else it has no colour.
pub proof fn lemma_colours(line: Seq<char>)
    ensures
        ({
            let error = indented(line, "error"@) || occurs_in(line, ": error:"@) || occurs_in(
                line,
                "): error "@,
            ) || indented(line, "Exception in thread"@) || "Error"@.is_suffix_of(line) || indented(
                line,
                "SyntaxError"@,
            ) || indented(line, "Traceback (most recent call last)"@) || (indented(
                line,
                "thread '"@,
            ) && occurs_in(line, "panicked"@));
            let warning = indented(line, "warning"@) || occurs_in(line, ": warning:"@)
                || occurs_in(line, "): warning "@);
            let note = indented(line, "note:"@) || indented(line, "help:"@) || indented(
                line,
                "-->"@,
            ) || indented(line, "at "@);
            let kind = line_kind(line);
            &&& kind == LineKind::Error <==> !quoting(line) && error
            &&& kind == LineKind::Warning <==> !quoting(line) && !error && warning
            &&& kind == LineKind::Note <==> !quoting(line) && !error && !warning && note
            &&& kind == LineKind::Plain <==> quoting(line) || (!error && !warning && !note)
        }),
{
    reveal_strlit("error");
    reveal_strlit("Exception in thread");
    reveal_strlit("Error");
    reveal_strlit("SyntaxError");
    reveal_strlit("Traceback (most recent call last)");
    reveal_strlit("thread '");
    reveal_strlit("warning");
    reveal_strlit("note:");
    reveal_strlit("help:");
    reveal_strlit("-->");
    reveal_strlit("at ");
    lemma_quoting(line);
    lemma_indented(line, "error"@);
    lemma_indented(line, "Exception in thread"@);
    lemma_ending(line, "Error"@);
    lemma_indented(line, "SyntaxError"@);
    lemma_indented(line, "Traceback (most recent call last)"@);
    lemma_indented(line, "thread '"@);
    lemma_indented(line, "warning"@);
    lemma_indented(line, "note:"@);
    lemma_indented(line, "help:"@);
    lemma_indented(line, "-->"@);
    lemma_indented(line, "at "@);
}

} // verus!
