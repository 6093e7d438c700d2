//! Lowercase hexadecimal rendering of chunk addresses and chunk bytes.

use vstd::prelude::*;

verus! {

/// The lowercase hexadecimal digit character for a value below 16.
pub open spec fn spec_hex_digit(d: int) -> char {
    if d == 0 {
        '0'
    } else if d == 1 {
        '1'
    } else if d == 2 {
        '2'
    } else if d == 3 {
        '3'
    } else if d == 4 {
        '4'
    } else if d == 5 {
        '5'
    } else if d == 6 {
        '6'
    } else if d == 7 {
        '7'
    } else if d == 8 {
        '8'
    } else if d == 9 {
        '9'
    } else if d == 10 {
        'a'
    } else if d == 11 {
        'b'
    } else if d == 12 {
        'c'
    } else if d == 13 {
        'd'
    } else if d == 14 {
        'e'
    } else {
        'f'
    }
}

/// A character drawn from the lowercase hexadecimal alphabet.
pub open spec fn is_lower_hex_char(c: char) -> bool {
    ('0' <= c && c <= '9') || ('a' <= c && c <= 'f')
}

/// An offset rendered as exactly 8 lowercase hexadecimal digits,
/// zero-padded, most significant digit first.
pub open spec fn spec_hex8(v: u32) -> Seq<char> {
    seq![
        spec_hex_digit(v as int / 0x10000000 % 16),
        spec_hex_digit(v as int / 0x1000000 % 16),
        spec_hex_digit(v as int / 0x100000 % 16),
        spec_hex_digit(v as int / 0x10000 % 16),
        spec_hex_digit(v as int / 0x1000 % 16),
        spec_hex_digit(v as int / 0x100 % 16),
        spec_hex_digit(v as int / 0x10 % 16),
        spec_hex_digit(v as int % 16),
    ]
}

/// Every address string has exactly 8 characters, each a lowercase
/// hexadecimal digit.
pub proof fn lemma_hex8_wellformed(v: u32)
    ensures
        spec_hex8(v).len() == 8,
        forall|j: int| 0 <= j < 8 ==> is_lower_hex_char(#[trigger] spec_hex8(v)[j]),
{
    assert forall|d: int| 0 <= d < 16 implies is_lower_hex_char(#[trigger] spec_hex_digit(d)) by {}
    assert forall|j: int| 0 <= j < 8 implies is_lower_hex_char(#[trigger] spec_hex8(v)[j]) by {
        assert(0 <= v as int / 0x10000000 % 16 < 16);
        assert(0 <= v as int / 0x1000000 % 16 < 16);
        assert(0 <= v as int / 0x100000 % 16 < 16);
        assert(0 <= v as int / 0x10000 % 16 < 16);
        assert(0 <= v as int / 0x1000 % 16 < 16);
        assert(0 <= v as int / 0x100 % 16 < 16);
        assert(0 <= v as int / 0x10 % 16 < 16);
        assert(0 <= v as int % 16 < 16);
    }
}

/// Distinct offsets always render as distinct address strings.
pub proof fn lemma_hex8_injective(a: u32, b: u32)
    requires
        spec_hex8(a) == spec_hex8(b),
    ensures
        a == b,
{
    assert forall|d1: int, d2: int|
        0 <= d1 < 16 && 0 <= d2 < 16 && #[trigger] spec_hex_digit(d1)
            == #[trigger] spec_hex_digit(d2) implies d1 == d2 by {}
    assert(forall|j: int| 0 <= j < 8 ==> spec_hex8(a)[j] == spec_hex8(b)[j]);
    assert(a == b) by (bit_vector)
        requires
            a / 0x10000000 % 16 == b / 0x10000000 % 16,
            a / 0x1000000 % 16 == b / 0x1000000 % 16,
            a / 0x100000 % 16 == b / 0x100000 % 16,
            a / 0x10000 % 16 == b / 0x10000 % 16,
            a / 0x1000 % 16 == b / 0x1000 % 16,
            a / 0x100 % 16 == b / 0x100 % 16,
            a / 0x10 % 16 == b / 0x10 % 16,
            a % 16 == b % 16,
    ;
}

/// The one-character string slice holding the hexadecimal digit for `d`.
fn hex_digit_str(d: u8) -> (r: &'static str)
    requires
        d < 16,
    ensures
        r@ =~= seq![spec_hex_digit(d as int)],
{
    proof {
        reveal_strlit("0");
        reveal_strlit("1");
        reveal_strlit("2");
        reveal_strlit("3");
        reveal_strlit("4");
        reveal_strlit("5");
        reveal_strlit("6");
        reveal_strlit("7");
        reveal_strlit("8");
        reveal_strlit("9");
        reveal_strlit("a");
        reveal_strlit("b");
        reveal_strlit("c");
        reveal_strlit("d");
        reveal_strlit("e");
        reveal_strlit("f");
    }
    match d {
        0 => "0",
        1 => "1",
        2 => "2",
        3 => "3",
        4 => "4",
        5 => "5",
        6 => "6",
        7 => "7",
        8 => "8",
        9 => "9",
        10 => "a",
        11 => "b",
        12 => "c",
        13 => "d",
        14 => "e",
        _ => "f",
    }
}

/// A byte rendered as two lowercase hexadecimal digits, high nibble first.
pub open spec fn spec_byte_hex(b: u8) -> Seq<char> {
    seq![spec_hex_digit(b as int / 16), spec_hex_digit(b as int % 16)]
}

/// A byte sequence rendered as two-digit lowercase hexadecimal numbers,
/// in original order, separated by single spaces: empty bytes render as the
/// empty string.
pub open spec fn spec_hex_dump(bytes: Seq<u8>) -> Seq<char>
    decreases bytes.len(),
{
    if bytes.len() == 0 {
        Seq::empty()
    } else if bytes.len() == 1 {
        spec_byte_hex(bytes[0])
    } else {
        spec_hex_dump(bytes.drop_last()) + seq![' '] + spec_byte_hex(bytes.last())
    }
}

/// Renders a byte slice as its space-separated two-digit lowercase
/// hexadecimal dump.
pub fn hex_dump(bytes: &[u8]) -> (r: String)
    ensures
        r@ == spec_hex_dump(bytes@),
{
    let mut s = String::new();
    let mut i: usize = 0;
    while i < bytes.len()
        invariant
            i <= bytes@.len(),
            s@ == spec_hex_dump(bytes@.subrange(0, i as int)),
        decreases bytes@.len() - i,
    {
        if i > 0 {
            proof {
                reveal_strlit(" ");
            }
            s.append(" ");
        }
        let b = *vstd::slice::slice_index_get(bytes, i);
        s.append(hex_digit_str(b / 16));
        s.append(hex_digit_str(b % 16));
        proof {
            let prev = bytes@.subrange(0, i as int);
            let cur = bytes@.subrange(0, i as int + 1);
            assert(cur.drop_last() =~= prev);
            assert(cur.last() == bytes@[i as int]);
            assert(s@ =~= spec_hex_dump(cur));
        }
        i = i + 1;
    }
    proof {
        assert(bytes@.subrange(0, bytes@.len() as int) =~= bytes@);
    }
    s
}

/// Renders an offset as its 8-digit zero-padded lowercase hexadecimal
/// address string.
pub fn format_hex8(v: u32) -> (r: String)
    ensures
        r@ == spec_hex8(v),
{
    let mut s = String::new();
    s.append(hex_digit_str((v / 0x10000000 % 16) as u8));
    s.append(hex_digit_str((v / 0x1000000 % 16) as u8));
    s.append(hex_digit_str((v / 0x100000 % 16) as u8));
    s.append(hex_digit_str((v / 0x10000 % 16) as u8));
    s.append(hex_digit_str((v / 0x1000 % 16) as u8));
    s.append(hex_digit_str((v / 0x100 % 16) as u8));
    s.append(hex_digit_str((v / 0x10 % 16) as u8));
    s.append(hex_digit_str((v % 16) as u8));
    proof {
        assert(s@ =~= spec_hex8(v));
    }
    s
}

} // verus!
