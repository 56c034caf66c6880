//! What base64 and hexadecimal are, said of the bytes that are written.

use vstd::prelude::*;

use crate::encoding::{base64, base64_char, group_text, hex, hex_char, hex_padded};

verus! {

/// The characters of base64 in the order of the sextets that they stand for.
proof fn lemma_base64_table(d: int)
    requires
        0 <= d < 64,
    ensures
        base64_char(d) == "ABCDEFGHIJKLMNOPQRSTUVWXYZabcdefghijklmnopqrstuvwxyz0123456789+/"@[d],
{
    reveal_strlit("ABCDEFGHIJKLMNOPQRSTUVWXYZabcdefghijklmnopqrstuvwxyz0123456789+/");
}

/// Three bytes are written as the four sextets that their bits make up.
pub proof fn lemma_three_bytes(a: u8, b: u8, c: u8)
    ensures
        ({
            let table = "ABCDEFGHIJKLMNOPQRSTUVWXYZabcdefghijklmnopqrstuvwxyz0123456789+/"@;
            base64(seq![a, b, c]) == seq![
                table[a as int / 4],
                table[a as int % 4 * 16 + b as int / 16],
                table[b as int % 16 * 4 + c as int / 64],
                table[c as int % 64],
            ]
        }),
{
    lemma_base64_table(a as int / 4);
    lemma_base64_table(a as int % 4 * 16 + b as int / 16);
    lemma_base64_table(b as int % 16 * 4 + c as int / 64);
    lemma_base64_table(c as int % 64);
    lemma_sextets(a as int, b as int, c as int);
    assert(base64(seq![a, b, c]) == group_text(seq![a, b, c]));
}

/// Two bytes at the end take three characters and one `=`.
pub proof fn lemma_two_bytes(a: u8, b: u8)
    ensures
        ({
            let table = "ABCDEFGHIJKLMNOPQRSTUVWXYZabcdefghijklmnopqrstuvwxyz0123456789+/"@;
            base64(seq![a, b]) == seq![
                table[a as int / 4],
                table[a as int % 4 * 16 + b as int / 16],
                table[b as int % 16 * 4],
                '=',
            ]
        }),
{
    lemma_base64_table(a as int / 4);
    lemma_base64_table(a as int % 4 * 16 + b as int / 16);
    lemma_base64_table(b as int % 16 * 4);
    lemma_sextets(a as int, b as int, 0);
    assert(base64(seq![a, b]) == group_text(seq![a, b]));
}

/// One byte at the end takes two characters and two `=`.
pub proof fn lemma_one_byte(a: u8)
    ensures
        ({
            let table = "ABCDEFGHIJKLMNOPQRSTUVWXYZabcdefghijklmnopqrstuvwxyz0123456789+/"@;
            base64(seq![a]) == seq![table[a as int / 4], table[a as int % 4 * 16], '=', '=']
        }),
{
    lemma_base64_table(a as int / 4);
    lemma_base64_table(a as int % 4 * 16);
    lemma_sextets(a as int, 0, 0);
    assert(base64(seq![a]) == group_text(seq![a]));
}

proof fn lemma_sextets(a: int, b: int, c: int)
    requires
        0 <= a < 256,
        0 <= b < 256,
        0 <= c < 256,
    ensures
        ({
            let n = a * 0x1_0000 + b * 0x100 + c;
            &&& n / 0x4_0000 == a / 4
            &&& n / 0x1000 % 64 == a % 4 * 16 + b / 16
            &&& n / 64 % 64 == b % 16 * 4 + c / 64
            &&& n % 64 == c % 64
        }),
{
    let n = a * 0x1_0000 + b * 0x100 + c;
    assert(n / 64 == a * 1024 + b * 4 + c / 64);
    assert(n / 0x1000 == a * 16 + b / 16);
    assert(n / 0x4_0000 == a / 4);
}

/// Whole groups of three bytes are written one after the other.
pub proof fn lemma_base64_concat(a: Seq<u8>, b: Seq<u8>)
    requires
        a.len() % 3 == 0,
    ensures
        base64(a + b) == base64(a) + base64(b),
    decreases a.len(),
{
    if a.len() == 0 {
        assert(a + b =~= b);
        assert(base64(a) + base64(b) =~= base64(b));
    } else if b.len() == 0 {
        assert(a + b =~= a);
        assert(base64(a) + base64(b) =~= base64(a));
    } else {
        let (head, tail) = (a.take(3), a.skip(3));
        assert((a + b).take(3) =~= head);
        assert((a + b).skip(3) =~= tail + b);
        lemma_base64_concat(tail, b);
        if a.len() == 3 {
            assert(head =~= a);
            assert(tail + b =~= b);
        } else {
            assert(group_text(head) + (base64(tail) + base64(b)) =~= (group_text(head) + base64(
                tail,
            )) + base64(b));
        }
    }
}

proof fn lemma_hex_table(d: int)
    requires
        0 <= d < 16,
    ensures
        hex_char(d) == "0123456789abcdef"@[d],
{
    reveal_strlit("0123456789abcdef");
}

/// A byte is written as its two digits, the higher one first.
pub proof fn lemma_hex_byte(b: u8)
    ensures
        hex(seq![b]) == seq!["0123456789abcdef"@[b as int / 16], "0123456789abcdef"@[b as int % 16]],
{
    lemma_hex_table(b as int / 16);
    lemma_hex_table(b as int % 16);
    assert(hex(seq![b]) =~= seq![hex_char(b as int / 16), hex_char(b as int % 16)]);
}

/// Bytes are written one after the other.
pub proof fn lemma_hex_concat(a: Seq<u8>, b: Seq<u8>)
    ensures
        hex(a + b) == hex(a) + hex(b),
{
    assert forall|i: int| 0 <= i < hex(a + b).len() implies hex(a + b)[i] == (hex(a) + hex(
        b,
    ))[i] by {
        if i >= 2 * a.len() {
            assert((i - 2 * a.len()) % 2 == i % 2);
            assert((i - 2 * a.len()) / 2 == i / 2 - a.len());
        }
    }
    assert(hex(a + b) =~= hex(a) + hex(b));
}

proof fn lemma_hex_char_differs(x: int, y: int)
    requires
        0 <= x < 16,
        0 <= y < 16,
        hex_char(x) == hex_char(y),
    ensures
        x == y,
{
}

/// Different bytes are written differently.
pub proof fn lemma_hex_differs(a: Seq<u8>, b: Seq<u8>)
    requires
        hex(a) == hex(b),
    ensures
        a == b,
{
    assert(hex(a).len() == 2 * a.len() && hex(b).len() == 2 * b.len());
    assert(a.len() == b.len());
    assert forall|i: int| 0 <= i < a.len() implies a[i] == b[i] by {
        assert(hex(a)[2 * i] == hex(b)[2 * i]);
        assert(hex(a)[2 * i + 1] == hex(b)[2 * i + 1]);
        assert((2 * i) / 2 == i && (2 * i + 1) / 2 == i);
        assert((2 * i) % 2 == 0 && (2 * i + 1) % 2 == 1);
        assert(hex(a)[2 * i] == hex_char(a[i] as int / 16));
        assert(hex(b)[2 * i] == hex_char(b[i] as int / 16));
        assert(hex(a)[2 * i + 1] == hex_char(a[i] as int % 16));
        assert(hex(b)[2 * i + 1] == hex_char(b[i] as int % 16));
        lemma_hex_char_differs(a[i] as int / 16, b[i] as int / 16);
        lemma_hex_char_differs(a[i] as int % 16, b[i] as int % 16);
    }
    assert(a =~= b);
}

/// One more digit of width shows the digit that was cut off before.
pub proof fn lemma_hex_padded_step(n: nat, d: nat, width: nat)
    requires
        d < 16,
    ensures
        hex_padded(n, 0).len() == 0,
        hex_padded(16 * n + d, width + 1) == hex_padded(n, width).push(
            "0123456789abcdef"@[d as int],
        ),
{
    lemma_hex_table(d as int);
    assert((16 * n + d) / 16 == n);
    assert((16 * n + d) % 16 == d);
}

/// How many numbers have at most this many hexadecimal digits.
pub open spec fn numbers_of_width(width: nat) -> nat
    decreases width,
{
    if width == 0 {
        1
    } else {
        16 * numbers_of_width((width - 1) as nat)
    }
}

/// Different numbers that fit in the width are written differently.
pub proof fn lemma_hex_padded_differs(n: nat, m: nat, width: nat)
    requires
        n < numbers_of_width(width),
        m < numbers_of_width(width),
        hex_padded(n, width) == hex_padded(m, width),
    ensures
        n == m,
    decreases width,
{
    if width > 0 {
        let less = (width - 1) as nat;
        let (a, b) = (hex_padded(n, width), hex_padded(m, width));
        assert(a.drop_last() =~= hex_padded(n / 16, less));
        assert(b.drop_last() =~= hex_padded(m / 16, less));
        assert(a.last() == hex_char((n % 16) as int));
        assert(b.last() == hex_char((m % 16) as int));
        lemma_hex_char_differs((n % 16) as int, (m % 16) as int);
        lemma_hex_padded_differs(n / 16, m / 16, less);
    }
}

} // verus!
