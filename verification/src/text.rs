//! Text as a sequence of characters.
//!
//! The first half says what the usual operations on text mean; the second half computes
//! them. Everything else in the crate states its contracts over the meanings.

use vstd::prelude::*;
use vstd::string::*;

verus! {

// ---- Meanings ----

/// The characters with the Unicode property `White_Space`.
pub open spec fn white_space(c: char) -> bool {
    ||| '\u{9}' <= c <= '\u{d}'
    ||| c == ' '
    ||| c == '\u{85}'
    ||| c == '\u{a0}'
    ||| c == '\u{1680}'
    ||| '\u{2000}' <= c <= '\u{200a}'
    ||| c == '\u{2028}'
    ||| c == '\u{2029}'
    ||| c == '\u{202f}'
    ||| c == '\u{205f}'
    ||| c == '\u{3000}'
}

pub open spec fn ascii_digit(c: char) -> bool {
    '0' <= c <= '9'
}

pub open spec fn ascii_lower(c: char) -> bool {
    'a' <= c <= 'z'
}

pub open spec fn ascii_upper(c: char) -> bool {
    'A' <= c <= 'Z'
}

pub open spec fn ascii_alphanumeric(c: char) -> bool {
    ascii_digit(c) || ascii_lower(c) || ascii_upper(c)
}

/// `c` with an ASCII capital turned into its small letter.
pub open spec fn lower_char(c: char) -> char {
    if ascii_upper(c) {
        (c as u32 + 32) as char
    } else {
        c
    }
}

/// `s` with every ASCII capital turned into its small letter.
pub open spec fn lowered(s: Seq<char>) -> Seq<char> {
    Seq::new(s.len(), |i: int| lower_char(s[i]))
}

/// `pattern` stands in `s` at position `at`.
pub open spec fn occurs_at(s: Seq<char>, pattern: Seq<char>, at: int) -> bool {
    &&& 0 <= at
    &&& at + pattern.len() <= s.len()
    &&& s.subrange(at, at + pattern.len()) == pattern
}

/// `pattern` stands somewhere in `s`.
pub open spec fn occurs_in(s: Seq<char>, pattern: Seq<char>) -> bool {
    exists|at: int| occurs_at(s, pattern, at)
}

/// The last position at which `pattern` stands in `s`.
pub open spec fn last_position(s: Seq<char>, pattern: Seq<char>) -> Option<int>
    decreases s.len(),
{
    if pattern.is_suffix_of(s) {
        Some(s.len() - pattern.len())
    } else if s.len() == 0 {
        None
    } else {
        last_position(s.drop_last(), pattern)
    }
}

/// `s` without the white space it begins with.
pub open spec fn trimmed_start(s: Seq<char>) -> Seq<char>
    decreases s.len(),
{
    if s.len() > 0 && white_space(s[0]) {
        trimmed_start(s.drop_first())
    } else {
        s
    }
}

/// `s` without the white space it ends with.
pub open spec fn trimmed_end(s: Seq<char>) -> Seq<char>
    decreases s.len(),
{
    if s.len() > 0 && white_space(s.last()) {
        trimmed_end(s.drop_last())
    } else {
        s
    }
}

/// `s` without the white space at either end.
pub open spec fn trimmed(s: Seq<char>) -> Seq<char> {
    trimmed_end(trimmed_start(s))
}

/// `s` holds nothing but white space.
pub open spec fn blank(s: Seq<char>) -> bool {
    forall|i: int| 0 <= i < s.len() ==> white_space(#[trigger] s[i])
}

/// The length of the first line of `s`, its newline counted.
pub open spec fn first_line_len(s: Seq<char>) -> nat
    decreases s.len(),
{
    if s.len() == 0 {
        0
    } else if s[0] == '\n' {
        1
    } else {
        1 + first_line_len(s.drop_first())
    }
}

/// `s` cut after every newline. The pieces keep their newlines.
pub open spec fn pieces(s: Seq<char>) -> Seq<Seq<char>>
    decreases s.len(),
{
    if s.len() == 0 {
        Seq::empty()
    } else {
        proof {
            lemma_first_line_len(s);
        }
        seq![s.take(first_line_len(s) as int)] + pieces(s.skip(first_line_len(s) as int))
    }
}

/// A piece without its newline.
pub open spec fn without_newline(piece: Seq<char>) -> Seq<char> {
    if piece.len() > 0 && piece.last() == '\n' {
        piece.drop_last()
    } else {
        piece
    }
}

/// A piece without its line ending, which is a newline or a carriage return and a newline.
pub open spec fn without_line_ending(piece: Seq<char>) -> Seq<char> {
    if piece.len() > 0 && piece.last() == '\n' {
        let rest = piece.drop_last();
        if rest.len() > 0 && rest.last() == '\r' {
            rest.drop_last()
        } else {
            rest
        }
    } else {
        piece
    }
}

/// The lines of `s`, without their endings.
pub open spec fn lines_of(s: Seq<char>) -> Seq<Seq<char>> {
    pieces(s).map_values(|piece: Seq<char>| without_line_ending(piece))
}

/// `parts` one after the other, with `separator` between them.
pub open spec fn joined(parts: Seq<Seq<char>>, separator: Seq<char>) -> Seq<char>
    decreases parts.len(),
{
    if parts.len() == 0 {
        Seq::empty()
    } else if parts.len() == 1 {
        parts[0]
    } else {
        joined(parts.drop_last(), separator) + separator + parts.last()
    }
}

/// The texts that a sequence of strings holds.
pub open spec fn texts(strings: Seq<String>) -> Seq<Seq<char>> {
    strings.map_values(|s: String| s@)
}

pub open spec fn digit_char(d: int) -> char {
    (48 + d) as u32 as char
}

/// `n` in decimal notation.
pub open spec fn decimal(n: nat) -> Seq<char>
    decreases n,
{
    if n < 10 {
        seq![digit_char(n as int)]
    } else {
        decimal(n / 10).push(digit_char((n % 10) as int))
    }
}

/// `n` in decimal notation, with a sign where it is negative.
pub open spec fn signed_decimal(n: int) -> Seq<char> {
    if n < 0 {
        "-"@ + decimal((-n) as nat)
    } else {
        decimal(n as nat)
    }
}

/// The number that a run of decimal digits denotes.
pub open spec fn digits_value(digits: Seq<char>) -> nat
    decreases digits.len(),
{
    if digits.len() == 0 {
        0
    } else {
        digits_value(digits.drop_last()) * 10 + (digits.last() as nat - 48) as nat
    }
}

pub open spec fn all_digits(s: Seq<char>) -> bool {
    forall|i: int| 0 <= i < s.len() ==> ascii_digit(#[trigger] s[i])
}

/// `s` without the sign it may begin with.
pub open spec fn unsigned_part(s: Seq<char>) -> Seq<char> {
    if s.len() > 0 && (s[0] == '+' || s[0] == '-') {
        s.drop_first()
    } else {
        s
    }
}

/// The integer that `s` denotes: an optional sign and at least one digit, nothing else.
pub open spec fn integer_of(s: Seq<char>) -> Option<int> {
    let digits = unsigned_part(s);
    if digits.len() == 0 || !all_digits(digits) {
        None
    } else if s[0] == '-' {
        Some(-(digits_value(digits) as int))
    } else {
        Some(digits_value(digits) as int)
    }
}

/// The integer that `s` denotes, where it fits in an `i32`.
pub open spec fn i32_of(s: Seq<char>) -> Option<i32> {
    match integer_of(s) {
        Some(n) if i32::MIN <= n <= i32::MAX => Some(n as i32),
        _ => None,
    }
}

// ---- Computing ----

/// `String::push` appends one character at the end of the string.
pub assume_specification[ String::push ](s: &mut String, c: char)
    ensures
        final(s)@ == old(s)@.push(c),
;

/// The characters of `s`, in order.
pub fn chars_of(s: &str) -> (chars: Vec<char>)
    ensures
        chars@ == s@,
{
    let mut chars: Vec<char> = Vec::new();
    for c in it: s.chars()
        invariant
            chars@ == it.seq().take(it.index() as int),
            it.seq() == s@,
    {
        chars.push(c);
    }
    chars
}

/// The string made of `chars[from..to]`.
pub fn string_of(chars: &Vec<char>, from: usize, to: usize) -> (s: String)
    requires
        from <= to <= chars@.len(),
    ensures
        s@ == chars@.subrange(from as int, to as int),
{
    let mut s: String = String::new();
    let mut i: usize = from;
    while i < to
        invariant
            from <= i <= to <= chars@.len(),
            s@ == chars@.subrange(from as int, i as int),
        decreases to - i,
    {
        s.push(chars[i]);
        i += 1;
    }
    s
}

pub fn is_whitespace(c: char) -> (yes: bool)
    ensures
        yes == white_space(c),
{
    ('\u{9}' <= c && c <= '\u{d}') || c == ' ' || c == '\u{85}' || c == '\u{a0}' || c == '\u{1680}'
        || ('\u{2000}' <= c && c <= '\u{200a}') || c == '\u{2028}' || c == '\u{2029}' || c
        == '\u{202f}' || c == '\u{205f}' || c == '\u{3000}'
}

pub fn is_ascii_digit(c: char) -> (yes: bool)
    ensures
        yes == ascii_digit(c),
{
    '0' <= c && c <= '9'
}

pub fn is_ascii_lowercase(c: char) -> (yes: bool)
    ensures
        yes == ascii_lower(c),
{
    'a' <= c && c <= 'z'
}

pub fn is_ascii_alphanumeric(c: char) -> (yes: bool)
    ensures
        yes == ascii_alphanumeric(c),
{
    is_ascii_digit(c) || is_ascii_lowercase(c) || ('A' <= c && c <= 'Z')
}

/// Whether the characters of `pattern` stand in `s` from position `at` on.
fn matches_at(s: &Vec<char>, pattern: &Vec<char>, at: usize) -> (yes: bool)
    requires
        at + pattern@.len() <= s@.len(),
    ensures
        yes == occurs_at(s@, pattern@, at as int),
{
    let len: usize = s.len();
    let mut i: usize = 0;
    while i < pattern.len()
        invariant
            i <= pattern@.len(),
            at + pattern@.len() <= s@.len() == len,
            forall|j: int| 0 <= j < i ==> s@[at + j] == #[trigger] pattern@[j],
        decreases pattern@.len() - i,
    {
        if s[at + i] != pattern[i] {
            assert(s@.subrange(at as int, at + pattern@.len())[i as int] != pattern@[i as int]);
            return false;
        }
        i += 1;
    }
    assert(s@.subrange(at as int, at + pattern@.len()) =~= pattern@);
    true
}

pub fn starts_with(s: &str, prefix: &str) -> (yes: bool)
    ensures
        yes == prefix@.is_prefix_of(s@),
{
    let chars: Vec<char> = chars_of(s);
    let pattern: Vec<char> = chars_of(prefix);
    pattern.len() <= chars.len() && matches_at(&chars, &pattern, 0)
}

pub fn ends_with(s: &str, suffix: &str) -> (yes: bool)
    ensures
        yes == suffix@.is_suffix_of(s@),
{
    let chars: Vec<char> = chars_of(s);
    let pattern: Vec<char> = chars_of(suffix);
    pattern.len() <= chars.len() && matches_at(&chars, &pattern, chars.len() - pattern.len())
}

pub fn contains(s: &str, pattern: &str) -> (yes: bool)
    ensures
        yes == occurs_in(s@, pattern@),
{
    let chars: Vec<char> = chars_of(s);
    let wanted: Vec<char> = chars_of(pattern);
    if wanted.len() > chars.len() {
        return false;
    }
    let last: usize = chars.len() - wanted.len();
    let mut at: usize = 0;
    while at <= last
        invariant
            chars@ == s@,
            wanted@ == pattern@,
            last + wanted@.len() == chars@.len(),
            at <= last + 1,
            forall|j: int| 0 <= j < at ==> !occurs_at(s@, pattern@, j),
        decreases last + 1 - at,
    {
        if matches_at(&chars, &wanted, at) {
            return true;
        }
        if at == last {
            return false;
        }
        at += 1;
    }
    false
}

/// The last position at which `pattern` stands in `s`, counted in characters.
pub fn rfind(s: &str, pattern: &str) -> (at: Option<usize>)
    ensures
        match at {
            Some(k) => last_position(s@, pattern@) == Some(k as int) && k <= s@.len(),
            None => last_position(s@, pattern@) is None,
        },
{
    let chars: Vec<char> = chars_of(s);
    let wanted: Vec<char> = chars_of(pattern);
    let mut to: usize = chars.len();
    assert(s@.take(s@.len() as int) =~= s@);
    while to >= wanted.len()
        invariant
            chars@ == s@,
            wanted@ == pattern@,
            to <= chars@.len(),
            last_position(s@, pattern@) == last_position(s@.take(to as int), pattern@),
        decreases to,
    {
        let ghost head = s@.take(to as int);
        let at: usize = to - wanted.len();
        assert(s@.subrange(at as int, at + pattern@.len()) =~= head.subrange(
            at as int,
            head.len() as int,
        ));
        if matches_at(&chars, &wanted, at) {
            return Some(at);
        }
        if to == 0 {
            return None;
        }
        assert(head.drop_last() =~= s@.take(to - 1));
        to -= 1;
    }
    proof {
        lemma_last_position_short(s@.take(to as int), pattern@);
    }
    None
}

/// Whether `a` and `b` hold the same text.
pub fn same(a: &str, b: &str) -> (yes: bool)
    ensures
        yes == (a@ == b@),
{
    let left: Vec<char> = chars_of(a);
    let right: Vec<char> = chars_of(b);
    if left.len() != right.len() {
        return false;
    }
    let yes: bool = matches_at(&left, &right, 0);
    assert(a@.subrange(0, b@.len() as int) =~= a@);
    yes
}

pub fn trim_start(s: &str) -> (t: &str)
    ensures
        t@ == trimmed_start(s@),
{
    let chars: Vec<char> = chars_of(s);
    let mut from: usize = 0;
    assert(s@.skip(0) =~= s@);
    while from < chars.len() && is_whitespace(chars[from])
        invariant
            chars@ == s@,
            from <= chars@.len(),
            trimmed_start(s@) == trimmed_start(s@.skip(from as int)),
        decreases chars@.len() - from,
    {
        assert(s@.skip(from as int).drop_first() =~= s@.skip(from + 1));
        from += 1;
    }
    assert(s@.skip(from as int) =~= s@.subrange(from as int, s@.len() as int));
    s.substring_char(from, chars.len())
}

pub fn trim_end(s: &str) -> (t: &str)
    ensures
        t@ == trimmed_end(s@),
{
    let chars: Vec<char> = chars_of(s);
    let mut to: usize = chars.len();
    assert(s@.take(s@.len() as int) =~= s@);
    while to > 0 && is_whitespace(chars[to - 1])
        invariant
            chars@ == s@,
            to <= chars@.len(),
            trimmed_end(s@) == trimmed_end(s@.take(to as int)),
        decreases to,
    {
        assert(s@.take(to as int).drop_last() =~= s@.take(to - 1));
        to -= 1;
    }
    assert(s@.take(to as int) =~= s@.subrange(0, to as int));
    s.substring_char(0, to)
}

pub fn trim(s: &str) -> (t: &str)
    ensures
        t@ == trimmed(s@),
{
    trim_end(trim_start(s))
}

pub fn to_ascii_lowercase(s: &str) -> (t: String)
    ensures
        t@ == lowered(s@),
{
    let chars: Vec<char> = chars_of(s);
    let mut t: String = String::new();
    let mut i: usize = 0;
    while i < chars.len()
        invariant
            chars@ == s@,
            i <= chars@.len(),
            t@ == lowered(s@).take(i as int),
        decreases chars@.len() - i,
    {
        let c: char = chars[i];
        if 'A' <= c && c <= 'Z' {
            t.push((c as u8 + 32) as char);
        } else {
            t.push(c);
        }
        assert(lowered(s@).take(i + 1) =~= lowered(s@).take(i as int).push(lowered(s@)[i as int]));
        i += 1;
    }
    assert(lowered(s@).take(s@.len() as int) =~= lowered(s@));
    t
}

/// `s` cut after every newline.
pub fn split_inclusive(s: &str) -> (parts: Vec<String>)
    ensures
        texts(parts@) == pieces(s@),
{
    let chars: Vec<char> = chars_of(s);
    let mut parts: Vec<String> = Vec::new();
    let mut from: usize = 0;
    assert(s@.skip(0) =~= s@);
    while from < chars.len()
        invariant
            chars@ == s@,
            from <= chars@.len(),
            pieces(s@) == texts(parts@) + pieces(s@.skip(from as int)),
        decreases chars@.len() - from,
    {
        let ghost rest = s@.skip(from as int);
        let ghost before = texts(parts@);
        let mut to: usize = from;
        let mut ended: bool = false;
        assert(rest.skip(0) =~= rest);
        while to < chars.len() && !ended
            invariant
                chars@ == s@,
                from <= to <= chars@.len(),
                rest == s@.skip(from as int),
                first_line_len(rest) == to - from + (if ended {
                    0
                } else {
                    first_line_len(rest.skip(to - from))
                }),
            decreases chars@.len() - to,
        {
            assert(rest.skip(to - from).drop_first() =~= rest.skip(to + 1 - from));
            ended = chars[to] == '\n';
            to += 1;
        }
        let part: String = string_of(&chars, from, to);
        assert(part@ =~= rest.take(first_line_len(rest) as int));
        parts.push(part);
        assert(rest.skip(to - from) =~= s@.skip(to as int));
        assert(texts(parts@) =~= before.push(part@));
        assert(before + (seq![part@] + pieces(s@.skip(to as int))) =~= before.push(part@) + pieces(
            s@.skip(to as int),
        ));
        proof {
            lemma_first_line_len(rest);
        }
        from = to;
    }
    assert(texts(parts@) + Seq::<Seq<char>>::empty() =~= texts(parts@));
    parts
}

/// The lines of `s`.
pub fn lines(s: &str) -> (found: Vec<String>)
    ensures
        texts(found@) == lines_of(s@),
{
    let parts: Vec<String> = split_inclusive(s);
    let mut found: Vec<String> = Vec::new();
    let mut i: usize = 0;
    while i < parts.len()
        invariant
            texts(parts@) == pieces(s@),
            i <= parts@.len(),
            texts(found@) == lines_of(s@).take(i as int),
        decreases parts@.len() - i,
    {
        let chars: Vec<char> = chars_of(parts[i].as_str());
        assert(chars@ == texts(parts@)[i as int]);
        let mut to: usize = chars.len();
        if to > 0 && chars[to - 1] == '\n' {
            to -= 1;
            if to > 0 && chars[to - 1] == '\r' {
                to -= 1;
            }
        }
        let line: String = string_of(&chars, 0, to);
        assert(line@ =~= without_line_ending(chars@));
        let ghost before = found@;
        found.push(line);
        assert(texts(found@) =~= texts(before).push(line@));
        let ghost all = lines_of(s@);
        assert(all.take(i + 1) =~= all.take(i as int).push(all[i as int]));
        i += 1;
    }
    assert(lines_of(s@).take(lines_of(s@).len() as int) =~= lines_of(s@));
    found
}

/// The strings one after the other, with `separator` between them.
pub fn join(parts: &Vec<String>, separator: &str) -> (s: String)
    ensures
        s@ == joined(texts(parts@), separator@),
{
    let ghost all = texts(parts@);
    let mut s: String = String::new();
    let mut i: usize = 0;
    while i < parts.len()
        invariant
            all == texts(parts@),
            i <= parts@.len(),
            s@ == joined(all.take(i as int), separator@),
        decreases parts@.len() - i,
    {
        if i > 0 {
            s.append(separator);
        }
        s.append(parts[i].as_str());
        assert(all.take(i + 1).drop_last() =~= all.take(i as int));
        assert(all.take(i + 1).last() == parts@[i as int]@);
        assert(i == 0 ==> s@ =~= parts@[i as int]@);
        i += 1;
    }
    assert(all.take(all.len() as int) =~= all);
    s
}

/// `n` in decimal notation.
pub fn to_decimal(n: u64) -> (s: String)
    ensures
        s@ == decimal(n as nat),
    decreases n,
{
    let last: char = (48 + (n % 10) as u8) as char;
    if n < 10 {
        let mut s: String = String::new();
        s.push(last);
        s
    } else {
        let mut s: String = to_decimal(n / 10);
        s.push(last);
        s
    }
}

/// The integer that `s` denotes, if it fits.
pub fn parse_i32(s: &str) -> (n: Option<i32>)
    ensures
        n == i32_of(s@),
{
    let chars: Vec<char> = chars_of(s);
    let negative: bool = chars.len() > 0 && chars[0] == '-';
    let from: usize = if chars.len() > 0 && (chars[0] == '+' || chars[0] == '-') {
        1
    } else {
        0
    };
    let ghost digits = unsigned_part(s@);
    assert(digits =~= s@.skip(from as int));
    if from == chars.len() {
        return None;
    }
    let mut value: i64 = 0;
    let mut i: usize = from;
    let mut too_large: bool = false;
    assert(digits.take(0) =~= Seq::<char>::empty());
    while i < chars.len()
        invariant
            chars@ == s@,
            digits == unsigned_part(s@),
            digits == s@.skip(from as int),
            from <= i <= chars@.len(),
            all_digits(digits.take(i - from)),
            0 <= value <= i32::MAX + 1,
            too_large ==> digits_value(digits.take(i - from)) > i32::MAX + 1,
            !too_large ==> value == digits_value(digits.take(i - from)),
        decreases chars@.len() - i,
    {
        let c: char = chars[i];
        assert(digits[i - from] == c);
        if !is_ascii_digit(c) {
            return None;
        }
        assert(digits.take(i + 1 - from) =~= digits.take(i - from).push(c));
        assert(digits.take(i + 1 - from).drop_last() =~= digits.take(i - from));
        if !too_large {
            let next: i64 = value * 10 + (c as u8 - 48) as i64;
            if next > i32::MAX as i64 + 1 {
                too_large = true;
            } else {
                value = next;
            }
        }
        i += 1;
    }
    assert(digits.take(digits.len() as int) =~= digits);
    if too_large {
        None
    } else if negative {
        Some((-value) as i32)
    } else if value > i32::MAX as i64 {
        None
    } else {
        Some(value as i32)
    }
}

// ---- Facts ----

pub proof fn lemma_first_line_len(s: Seq<char>)
    ensures
        first_line_len(s) <= s.len(),
        s.len() > 0 ==> first_line_len(s) > 0,
        first_line_len(s) < s.len() ==> s[first_line_len(s) - 1] == '\n',
    decreases s.len(),
{
    if s.len() > 0 && s[0] != '\n' {
        lemma_first_line_len(s.drop_first());
    }
}

proof fn lemma_last_position_short(s: Seq<char>, pattern: Seq<char>)
    requires
        s.len() < pattern.len(),
    ensures
        last_position(s, pattern) is None,
    decreases s.len(),
{
    if s.len() > 0 {
        lemma_last_position_short(s.drop_last(), pattern);
    }
}

pub proof fn lemma_trimmed_start(s: Seq<char>)
    ensures
        blank(s) <==> trimmed_start(s).len() == 0,
        trimmed_start(s).len() > 0 ==> !white_space(trimmed_start(s)[0]),
        trimmed_start(s).len() <= s.len(),
        trimmed_start(s) == s.skip(s.len() - trimmed_start(s).len()),
        forall|i: int|
            0 <= i < s.len() - trimmed_start(s).len() ==> white_space(#[trigger] s[i]),
    decreases s.len(),
{
    if s.len() > 0 && white_space(s[0]) {
        let rest = s.drop_first();
        lemma_trimmed_start(rest);
        assert(blank(s) ==> blank(rest)) by {
            assert forall|i: int| blank(s) && 0 <= i < rest.len() implies white_space(
                #[trigger] rest[i],
            ) by {
                assert(rest[i] == s[i + 1]);
            }
        }
        assert(blank(rest) ==> blank(s)) by {
            assert forall|i: int| blank(rest) && 0 <= i < s.len() implies white_space(
                #[trigger] s[i],
            ) by {
                assert(i > 0 ==> s[i] == rest[i - 1]);
            }
        }
        let n = s.len() - trimmed_start(rest).len();
        assert(rest.skip(n - 1) =~= s.skip(n));
        assert forall|i: int| 0 <= i < n implies white_space(#[trigger] s[i]) by {
            assert(i > 0 ==> s[i] == rest[i - 1]);
        }
    } else {
        assert(s.skip(0) =~= s);
    }
}

pub proof fn lemma_trimmed_end(s: Seq<char>)
    ensures
        blank(s) <==> trimmed_end(s).len() == 0,
        trimmed_end(s).len() > 0 ==> !white_space(trimmed_end(s).last()),
        trimmed_end(s).len() <= s.len(),
        trimmed_end(s) == s.take(trimmed_end(s).len() as int),
        forall|i: int| trimmed_end(s).len() <= i < s.len() ==> white_space(#[trigger] s[i]),
    decreases s.len(),
{
    if s.len() > 0 && white_space(s.last()) {
        let rest = s.drop_last();
        lemma_trimmed_end(rest);
        assert(blank(rest) ==> blank(s)) by {
            assert forall|i: int| blank(rest) && 0 <= i < s.len() implies white_space(
                #[trigger] s[i],
            ) by {
                assert(i < rest.len() ==> s[i] == rest[i]);
            }
        }
        assert(blank(s) ==> blank(rest)) by {
            assert forall|i: int| blank(s) && 0 <= i < rest.len() implies white_space(
                #[trigger] rest[i],
            ) by {
                assert(rest[i] == s[i]);
            }
        }
        let n = trimmed_end(rest).len() as int;
        assert(rest.take(n) =~= s.take(n));
        assert forall|i: int| n <= i < s.len() implies white_space(#[trigger] s[i]) by {
            assert(i < rest.len() ==> s[i] == rest[i]);
        }
    } else {
        assert(s.take(s.len() as int) =~= s);
    }
}

/// Trimming leaves nothing exactly where there was nothing but white space.
pub proof fn lemma_trimmed_blank(s: Seq<char>)
    ensures
        blank(s) <==> trimmed(s).len() == 0,
{
    lemma_trimmed_start(s);
    lemma_trimmed_end(trimmed_start(s));
}

/// A word stands in a text exactly where it stands in the text without the white space at
/// either end.
pub proof fn lemma_trimmed_keeps_words(s: Seq<char>, word: Seq<char>)
    requires
        word.len() > 0,
        forall|i: int| 0 <= i < word.len() ==> !white_space(#[trigger] word[i]),
    ensures
        occurs_in(trimmed(s), word) == occurs_in(s, word),
{
    lemma_trimmed_start(s);
    let rest = trimmed_start(s);
    lemma_trimmed_end(rest);
    let t = trimmed(s);
    let from = s.len() - rest.len();
    if occurs_in(s, word) {
        let at = choose|at: int| occurs_at(s, word, at);
        let last = word.len() - 1;
        assert(s.subrange(at, at + word.len())[0] == s[at]);
        assert(s.subrange(at, at + word.len())[last] == s[at + last]);
        assert(!white_space(word[0]) && !white_space(word[last]));
        assert(at >= from);
        assert(rest[at + last - from] == s[at + last]);
        assert(at + last - from < t.len());
        assert(t.subrange(at - from, at - from + word.len()) =~= word);
        assert(occurs_at(t, word, at - from));
    }
    if occurs_in(t, word) {
        let at = choose|at: int| occurs_at(t, word, at);
        assert(s.subrange(from + at, from + at + word.len()) =~= t.subrange(at, at + word.len()));
        assert(occurs_at(s, word, from + at));
    }
}

/// A number in decimal notation is made of digits, and denotes the number.
pub proof fn lemma_decimal(n: nat)
    ensures
        decimal(n).len() > 0,
        all_digits(decimal(n)),
        digits_value(decimal(n)) == n,
    decreases n,
{
    if n >= 10 {
        lemma_decimal(n / 10);
        let digits = decimal(n);
        assert(digits.drop_last() =~= decimal(n / 10));
    } else {
        assert(decimal(n).drop_last() =~= Seq::<char>::empty());
        assert(digits_value(Seq::<char>::empty()) == 0);
    }
}

/// An integer of 32 bits, written in decimal, is read back.
pub proof fn lemma_decimal_round_trip(n: i32)
    ensures
        i32_of(signed_decimal(n as int)) == Some(n),
{
    reveal_strlit("-");
    let size = if n < 0 {
        -(n as int)
    } else {
        n as int
    };
    lemma_decimal(size as nat);
    let text = signed_decimal(n as int);
    let digits = decimal(size as nat);
    assert(ascii_digit(digits[0]));
    assert(unsigned_part(text) =~= digits);
}

/// The pieces of a text one after the other.
pub open spec fn run_together(parts: Seq<Seq<char>>) -> Seq<char>
    decreases parts.len(),
{
    if parts.len() == 0 {
        Seq::empty()
    } else {
        run_together(parts.drop_last()) + parts.last()
    }
}

/// `s` is empty or ends with a newline.
pub open spec fn at_line_start(s: Seq<char>) -> bool {
    s.len() == 0 || s.last() == '\n'
}

proof fn lemma_run_together_front(first: Seq<char>, rest: Seq<Seq<char>>)
    ensures
        run_together(seq![first] + rest) == first + run_together(rest),
    decreases rest.len(),
{
    let all = seq![first] + rest;
    if rest.len() == 0 {
        assert(all.drop_last() =~= rest);
        assert(run_together(rest) =~= Seq::<char>::empty());
        assert(Seq::<char>::empty() + first =~= first + Seq::<char>::empty());
    } else {
        lemma_run_together_front(first, rest.drop_last());
        assert(all.drop_last() =~= seq![first] + rest.drop_last());
        assert((first + run_together(rest.drop_last())) + rest.last() =~= first + (run_together(
            rest.drop_last(),
        ) + rest.last()));
    }
}

/// Cutting a text into pieces loses nothing.
pub proof fn lemma_pieces_run_together(s: Seq<char>)
    ensures
        run_together(pieces(s)) == s,
    decreases s.len(),
{
    if s.len() > 0 {
        lemma_first_line_len(s);
        let n = first_line_len(s) as int;
        lemma_pieces_run_together(s.skip(n));
        lemma_run_together_front(s.take(n), pieces(s.skip(n)));
        assert(s.take(n) + s.skip(n) =~= s);
    }
}

/// The first line of a text that ends with a newline ends with one, and is not changed by
/// what comes behind the text.
proof fn lemma_first_line_closed(s: Seq<char>, more: Seq<char>)
    requires
        s.len() > 0,
        s.last() == '\n',
    ensures
        0 < first_line_len(s) <= s.len(),
        s[first_line_len(s) - 1] == '\n',
        first_line_len(s + more) == first_line_len(s),
    decreases s.len(),
{
    assert((s + more)[0] == s[0]);
    if s[0] != '\n' {
        lemma_first_line_closed(s.drop_first(), more);
        assert((s + more).drop_first() =~= s.drop_first() + more);
    }
}

/// A text that ends with a newline is cut apart from what comes behind it.
pub proof fn lemma_pieces_concat(s: Seq<char>, more: Seq<char>)
    requires
        at_line_start(s),
    ensures
        pieces(s + more) == pieces(s) + pieces(more),
    decreases s.len(),
{
    if s.len() == 0 {
        assert(s + more =~= more);
        assert(pieces(s) + pieces(more) =~= pieces(more));
    } else {
        lemma_first_line_closed(s, more);
        let n = first_line_len(s) as int;
        lemma_pieces_concat(s.skip(n), more);
        assert((s + more).take(n) =~= s.take(n));
        assert((s + more).skip(n) =~= s.skip(n) + more);
        assert((seq![s.take(n)] + pieces(s.skip(n))) + pieces(more) =~= seq![s.take(n)] + (pieces(
            s.skip(n),
        ) + pieces(more)));
    }
}

/// A line is one piece.
pub proof fn lemma_pieces_line(line: Seq<char>)
    requires
        !line.contains('\n'),
    ensures
        pieces(line + "\n"@) == seq![line + "\n"@],
{
    reveal_strlit("\n");
    let s = line + "\n"@;
    lemma_line_len(line);
    assert(s.take(s.len() as int) =~= s);
    assert(s.skip(s.len() as int) =~= Seq::<char>::empty());
    assert(pieces(Seq::<char>::empty()) =~= Seq::empty());
    assert(pieces(s) =~= seq![s]);
}

proof fn lemma_line_len(line: Seq<char>)
    requires
        !line.contains('\n'),
    ensures
        first_line_len(line + "\n"@) == line.len() + 1,
    decreases line.len(),
{
    reveal_strlit("\n");
    let s = line + "\n"@;
    if line.len() > 0 {
        assert(s[0] == line[0]);
        assert(line.contains(line[0]));
        assert(s.drop_first() =~= line.drop_first() + "\n"@);
        assert forall|i: int| 0 <= i < line.drop_first().len() implies line.drop_first()[i]
            != '\n' by {
            assert(line.drop_first()[i] == line[i + 1]);
            assert(line.contains(line[i + 1]));
        }
        lemma_line_len(line.drop_first());
    }
}

/// Every piece of a text stands somewhere in it, at the start of a line.
pub proof fn lemma_piece_position(s: Seq<char>, i: int) -> (at: int)
    requires
        0 <= i < pieces(s).len(),
    ensures
        occurs_at(s, pieces(s)[i], at),
        at_line_start(s.take(at)),
    decreases s.len(),
{
    lemma_first_line_len(s);
    let n = first_line_len(s) as int;
    if i == 0 {
        assert(s.subrange(0, n) =~= s.take(n));
        0
    } else {
        let rest = s.skip(n);
        let inner = lemma_piece_position(rest, i - 1);
        let piece = pieces(rest)[i - 1];
        assert(s.subrange(n + inner, n + inner + piece.len()) =~= rest.subrange(
            inner,
            inner + piece.len(),
        ));
        assert(inner > 0 ==> s.take(n + inner).last() == rest.take(inner).last());
        n + inner
    }
}

/// What stands in a part of a text stands in the text.
pub proof fn lemma_occurs_in_transitive(s: Seq<char>, middle: Seq<char>, inner: Seq<char>)
    requires
        occurs_in(s, middle),
        occurs_in(middle, inner),
    ensures
        occurs_in(s, inner),
{
    let a = choose|at: int| occurs_at(s, middle, at);
    let b = choose|at: int| occurs_at(middle, inner, at);
    assert(s.subrange(a + b, a + b + inner.len()) =~= middle.subrange(b, b + inner.len()));
    assert(occurs_at(s, inner, a + b));
}

/// A filter that every element passes changes nothing.
pub proof fn lemma_filter_keeps_all<A>(s: Seq<A>, keep: spec_fn(A) -> bool)
    requires
        forall|i: int| 0 <= i < s.len() ==> keep(#[trigger] s[i]),
    ensures
        s.filter(keep) == s,
    decreases s.len(),
{
    reveal(Seq::filter);
    if s.len() > 0 {
        lemma_filter_keeps_all(s.drop_last(), keep);
        assert(keep(s[s.len() - 1]));
        assert(s.drop_last().push(s.last()) =~= s);
    }
}

/// Filtering two sequences one behind the other is filtering each of them.
pub proof fn lemma_filter_concat<A>(a: Seq<A>, b: Seq<A>, keep: spec_fn(A) -> bool)
    ensures
        (a + b).filter(keep) == a.filter(keep) + b.filter(keep),
    decreases b.len(),
{
    reveal(Seq::filter);
    if b.len() == 0 {
        assert(a + b =~= a);
        assert(a.filter(keep) + Seq::<A>::empty() =~= a.filter(keep));
    } else {
        assert((a + b).drop_last() =~= a + b.drop_last());
        lemma_filter_concat(a, b.drop_last(), keep);
        assert(a.filter(keep) + b.drop_last().filter(keep).push(b.last()) =~= (a.filter(keep)
            + b.drop_last().filter(keep)).push(b.last()));
    }
}

/// The last position of a pattern lies in the text.
pub proof fn lemma_last_position(s: Seq<char>, pattern: Seq<char>)
    ensures
        last_position(s, pattern) matches Some(at) ==> 0 <= at <= s.len(),
    decreases s.len(),
{
    if !pattern.is_suffix_of(s) && s.len() > 0 {
        lemma_last_position(s.drop_last(), pattern);
    }
}

/// No line holds a newline.
pub proof fn lemma_line_has_no_newline(s: Seq<char>, i: int)
    requires
        0 <= i < lines_of(s).len(),
    ensures
        !lines_of(s)[i].contains('\n'),
    decreases s.len(),
{
    lemma_first_line_len(s);
    let n = first_line_len(s) as int;
    if i == 0 {
        lemma_first_line_has_one_newline(s);
        let piece = s.take(n);
        let line = without_line_ending(piece);
        assert(lines_of(s)[0] == line);
        assert forall|j: int| 0 <= j < line.len() implies line[j] != '\n' by {
            assert(line[j] == s[j]);
            assert(j == n - 1 ==> piece.last() != '\n');
        }
    } else {
        lemma_line_has_no_newline(s.skip(n), i - 1);
        assert(lines_of(s)[i] == lines_of(s.skip(n))[i - 1]);
    }
}

/// A newline ends the first line.
pub proof fn lemma_first_line_has_one_newline(s: Seq<char>)
    ensures
        forall|j: int| 0 <= j < first_line_len(s) - 1 ==> #[trigger] s[j] != '\n',
    decreases s.len(),
{
    if s.len() > 0 && s[0] != '\n' {
        let rest = s.drop_first();
        lemma_first_line_has_one_newline(rest);
        lemma_first_line_len(s);
        assert forall|j: int| 0 <= j < first_line_len(s) - 1 implies #[trigger] s[j] != '\n' by {
            assert(j > 0 ==> s[j] == rest[j - 1]);
        }
    }
}

/// A text without a newline is one piece.
pub proof fn lemma_one_piece(s: Seq<char>)
    requires
        !s.contains('\n'),
    ensures
        s.len() > 0 ==> pieces(s) == seq![s],
{
    if s.len() > 0 {
        lemma_whole_line(s);
        assert(s.take(s.len() as int) =~= s);
        assert(s.skip(s.len() as int) =~= Seq::<char>::empty());
        assert(pieces(Seq::<char>::empty()) =~= Seq::empty());
        assert(pieces(s) =~= seq![s]);
    }
}

proof fn lemma_whole_line(s: Seq<char>)
    requires
        !s.contains('\n'),
    ensures
        first_line_len(s) == s.len(),
    decreases s.len(),
{
    if s.len() > 0 {
        assert(s.contains(s[0]));
        assert forall|i: int| 0 <= i < s.drop_first().len() implies s.drop_first()[i] != '\n' by {
            assert(s.drop_first()[i] == s[i + 1]);
            assert(s.contains(s[i + 1]));
        }
        lemma_whole_line(s.drop_first());
    }
}

/// `parts` with a newline behind each of them.
spec fn closed_lines(parts: Seq<Seq<char>>) -> Seq<char>
    decreases parts.len(),
{
    if parts.len() == 0 {
        Seq::empty()
    } else {
        closed_lines(parts.drop_last()) + (parts.last() + "\n"@)
    }
}

proof fn lemma_lines_of_closed(parts: Seq<Seq<char>>)
    requires
        forall|i: int| 0 <= i < parts.len() ==> !(#[trigger] parts[i]).contains('\n'),
        forall|i: int|
            0 <= i < parts.len() ==> (#[trigger] parts[i]).len() > 0 && parts[i].last() != '\r',
    ensures
        at_line_start(closed_lines(parts)),
        lines_of(closed_lines(parts)) == parts,
    decreases parts.len(),
{
    reveal_strlit("\n");
    if parts.len() == 0 {
        assert(lines_of(closed_lines(parts)) =~= parts);
    } else {
        let most = parts.drop_last();
        let last = parts[parts.len() - 1];
        lemma_lines_of_closed(most);
        lemma_pieces_concat(closed_lines(most), last + "\n"@);
        lemma_pieces_line(last);
        assert((last + "\n"@).drop_last() =~= last);
        assert(without_line_ending(last + "\n"@) == last);
        assert(lines_of(closed_lines(parts)) =~= most.push(last));
        assert(most.push(last) =~= parts);
    }
}

proof fn lemma_joined_is_closed(parts: Seq<Seq<char>>)
    requires
        parts.len() > 0,
    ensures
        joined(parts, "\n"@) == closed_lines(parts.drop_last()) + parts.last(),
    decreases parts.len(),
{
    let most = parts.drop_last();
    if parts.len() == 1 {
        assert(Seq::<char>::empty() + parts.last() =~= parts[0]);
    } else {
        lemma_joined_is_closed(most);
        assert((closed_lines(most.drop_last()) + most.last()) + "\n"@ =~= closed_lines(most));
    }
}

/// Lines put together with newlines between them are cut apart again.
pub proof fn lemma_lines_of_joined(parts: Seq<Seq<char>>)
    requires
        forall|i: int|
            0 <= i < parts.len() ==> (#[trigger] parts[i]).len() > 0 && !parts[i].contains('\n'),
        forall|i: int| 0 <= i < parts.len() - 1 ==> (#[trigger] parts[i]).last() != '\r',
    ensures
        lines_of(joined(parts, "\n"@)) == parts,
{
    if parts.len() == 0 {
        assert(lines_of(joined(parts, "\n"@)) =~= parts);
    } else {
        let most = parts.drop_last();
        let last = parts[parts.len() - 1];
        assert forall|i: int| 0 <= i < most.len() implies {
            &&& (#[trigger] most[i]).len() > 0
            &&& !most[i].contains('\n')
            &&& most[i].last() != '\r'
        } by {
            assert(most[i] == parts[i]);
        }
        lemma_lines_of_closed(most);
        lemma_joined_is_closed(parts);
        lemma_pieces_concat(closed_lines(most), last);
        lemma_one_piece(last);
        assert(without_line_ending(last) == last) by {
            assert(last.contains(last[last.len() - 1]));
        }
        assert(lines_of(joined(parts, "\n"@)) =~= most.push(last));
        assert(most.push(last) =~= parts);
    }
}

} // verus!
