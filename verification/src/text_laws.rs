//! What the operations on text do, said of the texts that they are given.

use vstd::prelude::*;

use crate::text::{
    all_digits, blank, decimal, digits_value, first_line_len, i32_of, joined, last_position,
    lemma_decimal, lemma_first_line_has_one_newline, lemma_first_line_len, lemma_one_piece,
    lemma_pieces_concat, lemma_pieces_line, lemma_trimmed_end, lemma_trimmed_start, lines_of,
    lowered, occurs_at, occurs_in, pieces, trimmed, trimmed_end, trimmed_start, unsigned_part,
    white_space, without_line_ending,
};

verus! {

// ---- Searching ----

/// A text stands in any text that it is put into.
pub proof fn lemma_occurs_between(before: Seq<char>, part: Seq<char>, after: Seq<char>)
    ensures
        occurs_at(before + part + after, part, before.len() as int),
        occurs_in(before + part + after, part),
{
    let all = before + part + after;
    let at = before.len() as int;
    assert(all.subrange(at, at + part.len()) =~= part);
    assert(occurs_at(all, part, at));
}

/// A text in which a pattern stands is the pattern with something on either side.
pub proof fn lemma_occurs_apart(s: Seq<char>, pattern: Seq<char>) -> (r: (Seq<char>, Seq<char>))
    requires
        occurs_in(s, pattern),
    ensures
        s == r.0 + pattern + r.1,
{
    let at = choose|at: int| occurs_at(s, pattern, at);
    let (before, after) = (s.take(at), s.skip(at + pattern.len()));
    assert(s.subrange(at, at + pattern.len()) == pattern);
    assert(s =~= before + s.subrange(at, at + pattern.len()) + after);
    (before, after)
}

/// The last position of a pattern is a position of it and no other comes behind it. Where there
/// is no last position, the pattern does not occur.
pub proof fn lemma_last_position_is_last(s: Seq<char>, pattern: Seq<char>)
    ensures
        match last_position(s, pattern) {
            Some(at) => occurs_at(s, pattern, at) && forall|k: int|
                at < k ==> !#[trigger] occurs_at(s, pattern, k),
            None => !occurs_in(s, pattern),
        },
    decreases s.len(),
{
    if pattern.is_suffix_of(s) {
        let at = s.len() - pattern.len();
        assert(s.subrange(at, s.len() as int) =~= pattern);
        assert(occurs_at(s, pattern, at));
    } else if s.len() > 0 {
        let most = s.drop_last();
        lemma_last_position_is_last(most, pattern);
        assert forall|k: int| #[trigger] occurs_at(s, pattern, k) == occurs_at(
            most,
            pattern,
            k,
        ) by {
            if 0 <= k && k + pattern.len() <= most.len() {
                assert(s.subrange(k, k + pattern.len()) =~= most.subrange(k, k + pattern.len()));
            } else if k + pattern.len() == s.len() && k >= 0 {
                assert(s.subrange(k, k + pattern.len()) == pattern ==> pattern.is_suffix_of(s));
            }
        }
    } else {
        assert forall|k: int| !occurs_at(s, pattern, k) by {
            if occurs_at(s, pattern, k) {
                assert(pattern =~= s.subrange(0, 0));
                assert(s.subrange(0, s.len() as int) =~= pattern);
                assert(pattern.is_suffix_of(s));
            }
        }
    }
}

// ---- Trimming ----

/// Trimming takes off the white space at the ends and nothing else.
pub proof fn lemma_trimming(before: Seq<char>, t: Seq<char>, after: Seq<char>)
    requires
        blank(before),
        blank(after),
        t.len() > 0,
        !white_space(t[0]),
        !white_space(t.last()),
    ensures
        trimmed(before + t + after) == t,
        trimmed_start(before + t + after) == t + after,
        trimmed_end(before + t + after) == before + t,
{
    let s = before + t + after;
    lemma_trimmed_start(s);
    let n = s.len() - trimmed_start(s).len();
    assert(s[before.len() as int] == t[0]);
    assert(n <= before.len());
    if n < before.len() {
        assert(trimmed_start(s)[0] == s[n]);
        assert(s[n] == before[n]);
    }
    assert(trimmed_start(s) =~= t + after);
    lemma_trimmed_end(s);
    let m = trimmed_end(s).len() as int;
    let end = before.len() + t.len();
    assert(s[end - 1] == t.last());
    assert(m >= end);
    if m > end {
        assert(trimmed_end(s).last() == s[m - 1]);
        assert(s[m - 1] == after[m - 1 - end]);
    }
    assert(trimmed_end(s) =~= before + t);
    let u = t + after;
    lemma_trimmed_end(u);
    let k = trimmed_end(u).len() as int;
    assert(u[t.len() - 1] == t.last());
    assert(k >= t.len());
    if k > t.len() {
        assert(trimmed_end(u).last() == u[k - 1]);
        assert(u[k - 1] == after[k - 1 - t.len()]);
    }
    assert(trimmed_end(u) =~= t);
}

/// The same for a text that is white space altogether: nothing is left of it.
pub proof fn lemma_trimming_blank(s: Seq<char>)
    requires
        blank(s),
    ensures
        trimmed(s).len() == 0,
        trimmed_start(s).len() == 0,
        trimmed_end(s).len() == 0,
{
    lemma_trimmed_start(s);
    lemma_trimmed_end(s);
    lemma_trimmed_end(trimmed_start(s));
}

// ---- Lines ----

/// A piece is not empty, holds a newline at its end at most, and holds one there unless it is
/// the last piece.
pub proof fn lemma_piece(s: Seq<char>, i: int)
    requires
        0 <= i < pieces(s).len(),
    ensures
        pieces(s)[i].len() > 0,
        forall|j: int| 0 <= j < pieces(s)[i].len() - 1 ==> #[trigger] pieces(s)[i][j] != '\n',
        i < pieces(s).len() - 1 ==> pieces(s)[i].last() == '\n',
    decreases s.len(),
{
    lemma_first_line_len(s);
    let n = first_line_len(s) as int;
    if i == 0 {
        lemma_first_line_has_one_newline(s);
        let first = s.take(n);
        assert forall|j: int| 0 <= j < first.len() - 1 implies #[trigger] first[j] != '\n' by {
            assert(first[j] == s[j]);
        }
        if s.skip(n).len() == 0 {
            assert(pieces(s.skip(n)).len() == 0);
        }
    } else {
        lemma_piece(s.skip(n), i - 1);
    }
}

/// What stands before a newline is a line, with or without a carriage return before the
/// newline, and the other lines are those of what stands behind it.
pub proof fn lemma_first_line(line: Seq<char>, rest: Seq<char>)
    requires
        !line.contains('\n'),
    ensures
        line.len() == 0 || line.last() != '\r' ==> lines_of(line + "\n"@ + rest) == seq![line]
            + lines_of(rest),
        lines_of(line + "\r\n"@ + rest) == seq![line] + lines_of(rest),
{
    reveal_strlit("\n");
    reveal_strlit("\r\n");
    lemma_pieces_concat(line + "\n"@, rest);
    lemma_pieces_line(line);
    assert((line + "\n"@).drop_last() =~= line);
    if line.len() == 0 || line.last() != '\r' {
        assert(lines_of(line + "\n"@ + rest) =~= seq![line] + lines_of(rest));
    }
    let more = line + "\r\n"@;
    let with_return = line.push('\r');
    assert(more =~= with_return + "\n"@);
    assert(!with_return.contains('\n')) by {
        assert forall|i: int| 0 <= i < with_return.len() implies with_return[i] != '\n' by {
            if i < line.len() {
                assert(line.contains(line[i]));
            }
        }
    }
    lemma_pieces_concat(more, rest);
    lemma_pieces_line(with_return);
    assert(more.drop_last() =~= with_return);
    assert(with_return.drop_last() =~= line);
    assert(without_line_ending(more) == line);
    assert(lines_of(more + rest) =~= seq![line] + lines_of(rest));
}

/// A text without a newline is one line, and an empty text has none.
pub proof fn lemma_only_line(line: Seq<char>)
    requires
        !line.contains('\n'),
    ensures
        lines_of(line) == (if line.len() == 0 {
            Seq::empty()
        } else {
            seq![line]
        }),
{
    lemma_one_piece(line);
    if line.len() > 0 {
        assert(line.contains(line[line.len() - 1]));
        assert(without_line_ending(line) == line);
        assert(lines_of(line) =~= seq![line]);
    } else {
        assert(lines_of(line) =~= Seq::empty());
    }
}

/// The lines of a text that ends with a newline are not changed by what comes behind it.
pub proof fn lemma_lines_concat(a: Seq<char>, b: Seq<char>)
    requires
        a.len() == 0 || a.last() == '\n',
    ensures
        lines_of(a + b) == lines_of(a) + lines_of(b),
{
    lemma_pieces_concat(a, b);
    assert(lines_of(a + b) =~= lines_of(a) + lines_of(b));
}

/// Joining two runs of parts is joining their texts.
pub proof fn lemma_joined_concat(a: Seq<Seq<char>>, b: Seq<Seq<char>>, separator: Seq<char>)
    ensures
        a.len() == 0 ==> joined(a, separator).len() == 0,
        a.len() == 1 ==> joined(a, separator) == a[0],
        a.len() > 0 && b.len() > 0 ==> joined(a + b, separator) == joined(a, separator) + separator
            + joined(b, separator),
    decreases b.len(),
{
    if a.len() > 0 && b.len() > 0 {
        let most = b.drop_last();
        assert((a + b).drop_last() =~= a + most);
        if b.len() == 1 {
            assert(a + most =~= a);
        } else {
            lemma_joined_concat(a, most, separator);
            assert(joined(a, separator) + separator + joined(most, separator) + separator
                + b.last() =~= joined(a, separator) + separator + (joined(most, separator)
                + separator + b.last()));
        }
    }
}

// ---- Letters ----

/// ASCII capitals become the small letter thirty-two places behind them, and nothing else
/// changes.
pub proof fn lemma_lowered(s: Seq<char>, i: int)
    requires
        0 <= i < s.len(),
    ensures
        lowered(s).len() == s.len(),
        'A' <= s[i] <= 'Z' ==> lowered(s)[i] as int == s[i] as int + 32,
        !('A' <= s[i] <= 'Z') ==> lowered(s)[i] == s[i],
{
}

// ---- Numbers ----

/// Decimal notation has no leading zero, and a digit behind it adds it to ten times the number.
pub proof fn lemma_decimal_notation(n: nat, d: nat)
    requires
        d < 10,
    ensures
        n > 0 ==> decimal(n)[0] != '0',
        decimal(d).len() == 1,
        decimal(d)[0] as int == '0' as int + d,
        n > 0 ==> decimal(10 * n + d) == decimal(n) + decimal(d),
    decreases n,
{
    lemma_decimal(n);
    if n >= 10 {
        lemma_decimal_notation(n / 10, 0);
    }
    if n > 0 {
        assert((10 * n + d) / 10 == n);
        assert((10 * n + d) % 10 == d);
        assert(decimal(10 * n + d) =~= decimal(n) + decimal(d));
    }
}

/// A run of digits is read as the number that it denotes, with either sign or without one, as
/// far as that number fits.
pub proof fn lemma_integers_are_read(digits: Seq<char>)
    requires
        digits.len() > 0,
        all_digits(digits),
    ensures
        i32_of(digits) == (if digits_value(digits) <= i32::MAX {
            Some(digits_value(digits) as i32)
        } else {
            None
        }),
        i32_of("+"@ + digits) == i32_of(digits),
        i32_of("-"@ + digits) == (if digits_value(digits) <= i32::MAX + 1 {
            Some((-(digits_value(digits) as int)) as i32)
        } else {
            None
        }),
        digits_value(digits) == 10 * digits_value(digits.drop_last()) + (digits.last() as int
            - '0' as int),
        digits_value(Seq::empty()) == 0,
{
    reveal_strlit("+");
    reveal_strlit("-");
    assert('0' <= digits[0] <= '9');
    assert('0' <= digits[digits.len() - 1] <= '9');
    assert(unsigned_part(digits) == digits);
    assert(unsigned_part("+"@ + digits) =~= digits);
    assert(unsigned_part("-"@ + digits) =~= digits);
}

/// A text with anything else in it is not read as a number.
pub proof fn lemma_other_texts_are_no_integers(s: Seq<char>, i: int)
    requires
        s.len() == 0 || (0 <= i < s.len() && !('0' <= s[i] <= '9') && (i > 0 || s.len() == 1 || (
        s[0] != '+' && s[0] != '-'))),
    ensures
        i32_of(s) is None,
{
    let digits = unsigned_part(s);
    if s.len() > 0 && digits.len() > 0 {
        let from = s.len() - digits.len();
        if i >= from {
            assert(digits[i - from] == s[i]);
        }
    }
}

} // verus!
