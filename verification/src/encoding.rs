//! Bytes written as text: base64 and hexadecimal.

use vstd::prelude::*;

use crate::text::{ascii_alphanumeric, ascii_digit, ascii_lower, ascii_upper};

verus! {

// ---- Base64 ----

/// The character that stands for the six bits `d` (RFC 4648).
pub open spec fn base64_char(d: int) -> char {
    if d < 26 {
        (65 + d) as u32 as char
    } else if d < 52 {
        (97 + d - 26) as u32 as char
    } else if d < 62 {
        (48 + d - 52) as u32 as char
    } else if d == 62 {
        '+'
    } else {
        '/'
    }
}

/// One to three bytes as a number of 24 bits, missing bytes being zero.
pub open spec fn group_value(group: Seq<u8>) -> int {
    group[0] * 0x1_0000 + (if group.len() > 1 {
        group[1] * 0x100
    } else {
        0
    }) + (if group.len() > 2 {
        group[2] as int
    } else {
        0
    })
}

/// One to three bytes in base64: four characters, the last ones `=` where bytes are missing.
pub open spec fn group_text(group: Seq<u8>) -> Seq<char> {
    let n = group_value(group);
    seq![
        base64_char(n / 0x4_0000),
        base64_char(n / 0x1000 % 64),
        if group.len() > 1 {
            base64_char(n / 64 % 64)
        } else {
            '='
        },
        if group.len() > 2 {
            base64_char(n % 64)
        } else {
            '='
        },
    ]
}

/// `bytes` in base64, with padding.
pub open spec fn base64(bytes: Seq<u8>) -> Seq<char>
    decreases bytes.len(),
{
    if bytes.len() == 0 {
        Seq::empty()
    } else if bytes.len() <= 3 {
        group_text(bytes)
    } else {
        group_text(bytes.take(3)) + base64(bytes.skip(3))
    }
}

/// The six bits that a character of base64 stands for; none for the padding.
pub open spec fn base64_value(c: char) -> int {
    if ascii_upper(c) {
        c as int - 65
    } else if ascii_lower(c) {
        c as int - 97 + 26
    } else if ascii_digit(c) {
        c as int - 48 + 52
    } else if c == '+' {
        62
    } else if c == '/' {
        63
    } else {
        0
    }
}

/// Four characters of base64 as a number of 24 bits.
pub open spec fn text_value(text: Seq<char>) -> int {
    base64_value(text[0]) * 0x4_0000 + base64_value(text[1]) * 0x1000 + base64_value(text[2]) * 64
        + base64_value(text[3])
}

/// The bytes that four characters of base64 stand for.
pub open spec fn group_bytes(text: Seq<char>) -> Seq<u8> {
    let n = text_value(text);
    if text[2] == '=' {
        seq![(n / 0x1_0000) as u8]
    } else if text[3] == '=' {
        seq![(n / 0x1_0000) as u8, (n / 0x100 % 0x100) as u8]
    } else {
        seq![(n / 0x1_0000) as u8, (n / 0x100 % 0x100) as u8, (n % 0x100) as u8]
    }
}

/// The bytes that a text in base64 stands for.
pub open spec fn base64_decoded(text: Seq<char>) -> Seq<u8>
    decreases text.len(),
{
    if text.len() < 4 {
        Seq::empty()
    } else {
        group_bytes(text.take(4)) + base64_decoded(text.skip(4))
    }
}

/// A character that base64 is made of.
pub open spec fn base64_alphabet(c: char) -> bool {
    ascii_alphanumeric(c) || c == '+' || c == '/' || c == '='
}

fn base64_digit(d: u32) -> (c: char)
    requires
        d < 64,
    ensures
        c == base64_char(d as int),
{
    let d: u8 = d as u8;
    if d < 26 {
        (65 + d) as char
    } else if d < 52 {
        (97 + (d - 26)) as char
    } else if d < 62 {
        (48 + (d - 52)) as char
    } else if d == 62 {
        '+'
    } else {
        '/'
    }
}

/// `bytes` in base64, with padding (RFC 4648).
pub fn to_base64(bytes: &[u8]) -> (text: String)
    ensures
        text@ == base64(bytes@),
{
    let mut text: String = String::new();
    let mut i: usize = 0;
    assert(bytes@.skip(0) =~= bytes@);
    while i < bytes.len()
        invariant
            i <= bytes@.len(),
            base64(bytes@) == text@ + base64(bytes@.skip(i as int)),
        decreases bytes@.len() - i,
    {
        let ghost rest = bytes@.skip(i as int);
        let ghost before = text@;
        let left: usize = bytes.len() - i;
        let b0: u32 = bytes[i] as u32;
        let b1: u32 = if left > 1 {
            bytes[i + 1] as u32
        } else {
            0
        };
        let b2: u32 = if left > 2 {
            bytes[i + 2] as u32
        } else {
            0
        };
        let n: u32 = b0 * 0x1_0000 + b1 * 0x100 + b2;
        let ghost group = if left > 3 {
            rest.take(3)
        } else {
            rest
        };
        assert(n == group_value(group));
        text.push(base64_digit(n / 0x4_0000));
        text.push(base64_digit(n / 0x1000 % 64));
        text.push(
            if left > 1 {
                base64_digit(n / 64 % 64)
            } else {
                '='
            },
        );
        text.push(
            if left > 2 {
                base64_digit(n % 64)
            } else {
                '='
            },
        );
        assert(text@ =~= before + group_text(group));
        if left > 3 {
            assert(rest.skip(3) =~= bytes@.skip(i + 3));
            assert(before + (group_text(group) + base64(rest.skip(3))) =~= text@ + base64(
                bytes@.skip(i + 3),
            ));
            i += 3;
        } else {
            assert(bytes@.skip(bytes@.len() as int) =~= Seq::<u8>::empty());
            assert(text@ + Seq::<char>::empty() =~= text@);
            i = bytes.len();
        }
    }
    assert(text@ + Seq::<char>::empty() =~= text@);
    text
}

// ---- Hexadecimal ----

pub open spec fn hex_char(d: int) -> char {
    if d < 10 {
        (48 + d) as u32 as char
    } else {
        (87 + d) as u32 as char
    }
}

/// `bytes` in hexadecimal, two small digits for each.
pub open spec fn hex(bytes: Seq<u8>) -> Seq<char> {
    Seq::new(
        2 * bytes.len(),
        |i: int|
            hex_char(
                if i % 2 == 0 {
                    bytes[i / 2] as int / 16
                } else {
                    bytes[i / 2] as int % 16
                },
            ),
    )
}

/// The last `width` hexadecimal digits of `n`.
pub open spec fn hex_padded(n: nat, width: nat) -> Seq<char>
    decreases width,
{
    if width == 0 {
        Seq::empty()
    } else {
        hex_padded(n / 16, (width - 1) as nat).push(hex_char((n % 16) as int))
    }
}

/// A digit that hexadecimal text is made of.
pub open spec fn hex_alphabet(c: char) -> bool {
    ascii_digit(c) || 'a' <= c <= 'f'
}

fn hex_digit(d: u8) -> (c: char)
    requires
        d < 16,
    ensures
        c == hex_char(d as int),
{
    if d < 10 {
        (48 + d) as char
    } else {
        (87 + d) as char
    }
}

/// `bytes` in hexadecimal.
pub fn to_hex(bytes: &Vec<u8>) -> (text: String)
    ensures
        text@ == hex(bytes@),
{
    let mut text: String = String::new();
    let mut i: usize = 0;
    while i < bytes.len()
        invariant
            i <= bytes@.len(),
            text@ == hex(bytes@).take(2 * i),
        decreases bytes@.len() - i,
    {
        let ghost before = text@;
        text.push(hex_digit(bytes[i] / 16));
        text.push(hex_digit(bytes[i] % 16));
        assert(hex(bytes@)[2 * i as int] == text@[2 * i as int]);
        assert(hex(bytes@)[2 * i + 1] == text@[2 * i + 1]);
        assert(hex(bytes@).take(2 * (i + 1)) =~= text@);
        i += 1;
    }
    assert(hex(bytes@).take(2 * bytes@.len() as int) =~= hex(bytes@));
    text
}

/// The last `width` hexadecimal digits of `n`.
pub fn to_hex_padded(n: u128, width: usize) -> (text: String)
    ensures
        text@ == hex_padded(n as nat, width as nat),
    decreases width,
{
    if width == 0 {
        String::new()
    } else {
        let mut text: String = to_hex_padded(n / 16, width - 1);
        text.push(hex_digit((n % 16) as u8));
        text
    }
}

// ---- Laws ----

/// Base64 is made of characters that mean nothing to a shell.
pub proof fn lemma_base64_alphabet(bytes: Seq<u8>, i: int)
    requires
        0 <= i < base64(bytes).len(),
    ensures
        base64_alphabet(base64(bytes)[i]),
    decreases bytes.len(),
{
    if bytes.len() > 3 && i >= 4 {
        lemma_base64_alphabet(bytes.skip(3), i - 4);
    }
}

/// Every three bytes, or what is left of them at the end, take four characters.
pub proof fn lemma_base64_len(bytes: Seq<u8>)
    ensures
        base64(bytes).len() == (bytes.len() + 2) / 3 * 4,
    decreases bytes.len(),
{
    if bytes.len() > 3 {
        lemma_base64_len(bytes.skip(3));
    }
}

proof fn lemma_base64_char(d: int)
    requires
        0 <= d < 64,
    ensures
        base64_value(base64_char(d)) == d,
        base64_char(d) != '=',
{
}

/// A number of 24 bits is made of its four sextets.
proof fn lemma_sextets(n: int)
    requires
        0 <= n < 0x100_0000,
    ensures
        n == n / 0x4_0000 * 0x4_0000 + n / 0x1000 % 64 * 0x1000 + n / 64 % 64 * 64 + n % 64,
        0 <= n / 0x4_0000 < 64,
{
    let q0 = n / 64;
    let q1 = q0 / 64;
    let q2 = q1 / 64;
    assert(n / 0x1000 == q1);
    assert(n / 0x4_0000 == q2);
}

proof fn lemma_bytes(n: int, b0: int, b1: int, b2: int)
    requires
        0 <= b0 < 0x100,
        0 <= b1 < 0x100,
        0 <= b2 < 0x100,
        n == b0 * 0x1_0000 + b1 * 0x100 + b2,
    ensures
        0 <= n < 0x100_0000,
        n / 0x1_0000 == b0,
        n / 0x100 % 0x100 == b1,
        n % 0x100 == b2,
        b2 == 0 ==> n % 64 == 0,
        b1 == 0 && b2 == 0 ==> n / 64 % 64 == 0,
{
    assert(n / 0x100 == b0 * 0x100 + b1);
    if b1 == 0 && b2 == 0 {
        assert(n / 64 == b0 * 1024);
    }
}

proof fn lemma_group_round_trip(group: Seq<u8>)
    requires
        1 <= group.len() <= 3,
    ensures
        group_text(group).len() == 4,
        group_bytes(group_text(group)) == group,
{
    let n = group_value(group);
    let b1 = if group.len() > 1 {
        group[1] as int
    } else {
        0
    };
    let b2 = if group.len() > 2 {
        group[2] as int
    } else {
        0
    };
    lemma_bytes(n, group[0] as int, b1, b2);
    lemma_sextets(n);
    let (d0, d1, d2, d3) = (n / 0x4_0000, n / 0x1000 % 64, n / 64 % 64, n % 64);
    lemma_base64_char(d0);
    lemma_base64_char(d1);
    lemma_base64_char(d2);
    lemma_base64_char(d3);
    let text = group_text(group);
    assert(text_value(text) == n);
    assert(group_bytes(text) =~= group);
}

proof fn lemma_decoded_step(head: Seq<char>, tail: Seq<char>)
    requires
        head.len() == 4,
    ensures
        base64_decoded(head + tail) == group_bytes(head) + base64_decoded(tail),
{
    assert((head + tail).take(4) =~= head);
    assert((head + tail).skip(4) =~= tail);
}

/// Decoding base64 gives back what was encoded.
pub proof fn lemma_base64_round_trip(bytes: Seq<u8>)
    ensures
        base64_decoded(base64(bytes)) == bytes,
    decreases bytes.len(),
{
    if bytes.len() > 3 {
        let (head, tail) = (bytes.take(3), bytes.skip(3));
        lemma_group_round_trip(head);
        lemma_base64_round_trip(tail);
        lemma_decoded_step(group_text(head), base64(tail));
        assert(head + tail =~= bytes);
    } else if bytes.len() > 0 {
        lemma_group_round_trip(bytes);
        lemma_decoded_step(group_text(bytes), Seq::empty());
        assert(group_text(bytes) + Seq::<char>::empty() =~= group_text(bytes));
        assert(bytes + Seq::<u8>::empty() =~= bytes);
    }
}

/// Hexadecimal text of a fixed width has that width and is made of digits.
pub proof fn lemma_hex_padded(n: nat, width: nat)
    ensures
        hex_padded(n, width).len() == width,
        forall|i: int| 0 <= i < width ==> hex_alphabet(#[trigger] hex_padded(n, width)[i]),
    decreases width,
{
    if width > 0 {
        lemma_hex_padded(n / 16, (width - 1) as nat);
    }
}

/// Hexadecimal text has two digits for every byte.
pub proof fn lemma_hex(bytes: Seq<u8>)
    ensures
        hex(bytes).len() == 2 * bytes.len(),
        forall|i: int| 0 <= i < hex(bytes).len() ==> hex_alphabet(#[trigger] hex(bytes)[i]),
{
}

} // verus!
