//! Bytes written in hexadecimal.

use vstd::prelude::*;

verus! {

/// The lower-case hex digit for `n`, a number below sixteen.
pub open spec fn hex_digit(n: u8) -> char {
    if n < 10 {
        (n + 48) as char
    } else {
        (n + 87) as char
    }
}

/// `bytes` in lower-case hex: two digits for each byte, the high half first.
pub open spec fn hex_lower(bytes: Seq<u8>) -> Seq<char> {
    Seq::new(
        2 * bytes.len(),
        |i: int|
            hex_digit(
                if i % 2 == 0 {
                    bytes[i / 2] / 16
                } else {
                    bytes[i / 2] % 16
                },
            ),
    )
}

/// The number that the hex digit `c` stands for, in either case.
pub open spec fn hex_value(c: char) -> Option<u8> {
    if '0' <= c && c <= '9' {
        Some((c as u32 - 48) as u8)
    } else if 'a' <= c && c <= 'f' {
        Some((c as u32 - 87) as u8)
    } else if 'A' <= c && c <= 'F' {
        Some((c as u32 - 55) as u8)
    } else {
        None
    }
}

/// Whether `s` holds hex digits only.
pub open spec fn is_hex(s: Seq<char>) -> bool {
    forall|i: int| 0 <= i < s.len() ==> hex_value(#[trigger] s[i]) is Some
}

/// The bytes that the hex digits `s` spell, two digits for each byte.
pub open spec fn hex_bytes(s: Seq<char>) -> Seq<u8> {
    Seq::new(
        s.len() / 2,
        |i: int| (hex_value(s[2 * i])->0 * 16 + hex_value(s[2 * i + 1])->0) as u8,
    )
}

/// Whether `a` and `b` are the same but for the case of their letters
/// `a` to `f`.
pub open spec fn same_hex(a: Seq<char>, b: Seq<char>) -> bool {
    &&& a.len() == b.len()
    &&& forall|i: int|
        0 <= i < a.len() ==> #[trigger] a[i] == b[i] || (hex_value(a[i]) is Some && hex_value(
            a[i],
        ) == hex_value(b[i]))
}

/// `hex::encode`: the bytes in lower-case hex.
#[verifier::external_body]
pub(crate) fn hex_encode(data: &[u8]) -> (text: String)
    ensures
        text@ == hex_lower(data@),
{
    hex::encode(data)
}

/// The hex digit for a number stands for that number.
pub proof fn lemma_hex_digit_value(n: u8)
    requires
        n < 16,
    ensures
        hex_value(hex_digit(n)) == Some(n),
        ('0' <= hex_digit(n) && hex_digit(n) <= '9') || ('a' <= hex_digit(n) && hex_digit(n)
            <= 'f'),
{
}

/// Bytes written in hex spell themselves: the text is all hex digits, two
/// for each byte, and reading it gives the bytes back.
pub proof fn lemma_hex_round_trip(bytes: Seq<u8>)
    ensures
        hex_lower(bytes).len() == 2 * bytes.len(),
        is_hex(hex_lower(bytes)),
        hex_bytes(hex_lower(bytes)) == bytes,
{
    let text = hex_lower(bytes);
    assert forall|i: int| 0 <= i < text.len() implies hex_value(#[trigger] text[i]) is Some by {
        let n: u8 = if i % 2 == 0 {
            bytes[i / 2] / 16
        } else {
            bytes[i / 2] % 16
        };
        lemma_hex_digit_value(n);
    }
    assert forall|k: int| 0 <= k < bytes.len() implies #[trigger] hex_bytes(text)[k]
        == bytes[k] by {
        let b = bytes[k];
        lemma_hex_digit_value(b / 16);
        lemma_hex_digit_value(b % 16);
        assert(text[2 * k] == hex_digit(b / 16));
        assert(text[2 * k + 1] == hex_digit(b % 16));
    }
    assert(hex_bytes(text) =~= bytes);
}

/// Texts that are the same but for the case of their hex letters spell
/// the same bytes.
pub proof fn lemma_same_hex_bytes(a: Seq<char>, b: Seq<char>)
    requires
        same_hex(a, b),
        is_hex(b),
    ensures
        is_hex(a),
        hex_bytes(a) == hex_bytes(b),
{
    assert forall|i: int| 0 <= i < a.len() implies hex_value(#[trigger] a[i]) == hex_value(
        b[i],
    ) by {}
    assert forall|i: int| 0 <= i < a.len() implies hex_value(#[trigger] a[i]) is Some by {
        assert(hex_value(a[i]) == hex_value(b[i]));
    }
    assert forall|k: int| 0 <= k < hex_bytes(a).len() implies #[trigger] hex_bytes(a)[k]
        == hex_bytes(b)[k] by {
        assert(hex_value(a[2 * k]) == hex_value(b[2 * k]));
        assert(hex_value(a[2 * k + 1]) == hex_value(b[2 * k + 1]));
    }
    assert(hex_bytes(a) =~= hex_bytes(b));
}

} // verus!
