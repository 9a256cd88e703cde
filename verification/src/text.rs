//! Text forms of numbers and identifiers.

use std::borrow::Cow;
use vstd::prelude::*;

verus! {

/// Length of the text of an identifier, fitted to the longest one in use: a
/// trace id of 16 bytes.
pub const HEX_LEN: usize = 32;

/// The character of a digit below 16, in lower case.
pub open spec fn digit_char(v: int) -> char {
    "0123456789abcdef"@[v]
}

/// The decimal text of `n`, without leading zeros.
pub open spec fn decimal(n: nat) -> Seq<char>
    decreases n,
{
    if n < 10 {
        seq![digit_char(n as int)]
    } else {
        decimal(n / 10).push(digit_char((n % 10) as int))
    }
}

/// Two lower-case hex digits for each byte, high half first.
pub open spec fn hex(bytes: Seq<u8>) -> Seq<char> {
    Seq::new(
        bytes.len() * 2,
        |i: int|
            digit_char(
                if i % 2 == 0 {
                    bytes[i / 2] as int / 16
                } else {
                    bytes[i / 2] as int % 16
                },
            ),
    )
}

/// The text of an identifier: its hex digits, then NUL characters up to
/// `HEX_LEN`.
pub open spec fn hex_field(bytes: Seq<u8>) -> Seq<char> {
    hex(bytes) + Seq::new((HEX_LEN - bytes.len() * 2) as nat, |i: int| '\0')
}

proof fn lemma_digit_chars()
    ensures
        "0123456789abcdef"@.len() == 16,
        forall|v: int| 0 <= v < 16 ==> digit_char(v) != '\0',
        forall|v: int, w: int|
            0 <= v < 16 && 0 <= w < 16 && digit_char(v) == digit_char(w) ==> v == w,
{
    reveal_strlit("0123456789abcdef");
}

/// The text of one digit.
fn digit(v: u8) -> (r: &'static str)
    requires
        v < 16,
    ensures
        r@ == seq![digit_char(v as int)],
{
    proof {
        reveal_strlit("0123456789abcdef");
        reveal_strlit("0");
        reveal_strlit("1");
        reveal_strlit("2");
        reveal_strlit("3");
        reveal_strlit("4");
        reveal_strlit("5");
        reveal_strlit("6");
        reveal_strlit("7");
        reveal_strlit("8");
        reveal_strlit("9");
        reveal_strlit("a");
        reveal_strlit("b");
        reveal_strlit("c");
        reveal_strlit("d");
        reveal_strlit("e");
        reveal_strlit("f");
    }
    match v {
        0 => "0",
        1 => "1",
        2 => "2",
        3 => "3",
        4 => "4",
        5 => "5",
        6 => "6",
        7 => "7",
        8 => "8",
        9 => "9",
        10 => "a",
        11 => "b",
        12 => "c",
        13 => "d",
        14 => "e",
        _ => "f",
    }
}

/// Appends the decimal text of `n`.
pub fn push_decimal(n: u16, out: &mut String)
    ensures
        final(out)@ == old(out)@ + decimal(n as nat),
    decreases n,
{
    if n >= 10 {
        push_decimal(n / 10, out);
    }
    out.append(digit((n % 10) as u8));
}

/// The text of an identifier of `N` bytes: two lower-case hex digits for each
/// byte, then NUL characters up to `HEX_LEN`.
pub fn ser_hex<const N: usize>(bytes: &[u8; N]) -> (r: String)
    requires
        N * 2 <= HEX_LEN,
    ensures
        r@ == hex_field(bytes@),
{
    let mut out = String::new();
    let mut i: usize = 0;
    while i < N
        invariant
            i <= N,
            bytes@.len() == N,
            out@ == hex(bytes@.take(i as int)),
        decreases N - i,
    {
        let b: u8 = bytes[i];
        out.append(digit(b / 16));
        out.append(digit(b % 16));
        i += 1;
        assert(out@ =~= hex(bytes@.take(i as int))) by {
            let done = bytes@.take(i as int);
            assert(hex(done)[2 * (i - 1)] == digit_char(b as int / 16));
            assert(hex(done)[2 * (i - 1) + 1] == digit_char(b as int % 16));
        }
    }
    assert(bytes@.take(N as int) =~= bytes@);
    let mut j: usize = N * 2;
    while j < HEX_LEN
        invariant
            N * 2 <= j <= HEX_LEN,
            out@ == hex(bytes@) + Seq::new((j - N * 2) as nat, |k: int| '\0'),
        decreases HEX_LEN - j,
    {
        proof {
            reveal_strlit("\0");
        }
        out.append("\0");
        j += 1;
        assert(out@ =~= hex(bytes@) + Seq::new((j - N * 2) as nat, |k: int| '\0'));
    }
    out
}

/// The text of an optional identifier, absent where the identifier is.
pub fn ser_opt_hex<const N: usize>(bytes: &Option<[u8; N]>) -> (r: Option<String>)
    requires
        N * 2 <= HEX_LEN,
    ensures
        match *bytes {
            Some(b) => r matches Some(text) && text@ == hex_field(b@),
            None => r is None,
        },
{
    match bytes {
        Some(b) => Some(ser_hex(b)),
        None => None,
    }
}

/// A copy of a text, borrowed where the original is.
pub fn clone_cow(s: &Cow<'static, str>) -> (r: Cow<'static, str>)
    ensures
        r == *s,
{
    match s {
        Cow::Borrowed(b) => Cow::Borrowed(*b),
        Cow::Owned(o) => Cow::Owned(o.clone()),
    }
}

/// An identifier can be read back from its text: no two identifiers that fit,
/// of whatever lengths, share one.
pub proof fn law_hex_field_is_injective(a: Seq<u8>, b: Seq<u8>)
    requires
        a.len() * 2 <= HEX_LEN,
        b.len() * 2 <= HEX_LEN,
        hex_field(a) == hex_field(b),
    ensures
        a == b,
{
    lemma_digit_chars();
    if a.len() < b.len() {
        let i = 2 * a.len() as int;
        assert(hex_field(a)[i] == '\0');
        assert(hex_field(b)[i] == digit_char(b[i / 2] as int / 16));
        assert(false);
    }
    if b.len() < a.len() {
        let i = 2 * b.len() as int;
        assert(hex_field(b)[i] == '\0');
        assert(hex_field(a)[i] == digit_char(a[i / 2] as int / 16));
        assert(false);
    }
    assert forall|k: int| 0 <= k < a.len() implies a[k] == b[k] by {
        assert(hex_field(a)[2 * k] == digit_char(a[k] as int / 16));
        assert(hex_field(b)[2 * k] == digit_char(b[k] as int / 16));
        assert(hex_field(a)[2 * k + 1] == digit_char(a[k] as int % 16));
        assert(hex_field(b)[2 * k + 1] == digit_char(b[k] as int % 16));
    }
    assert(a =~= b);
}

/// The text of an identifier always has the same length.
pub proof fn law_hex_field_length(bytes: Seq<u8>)
    requires
        bytes.len() * 2 <= HEX_LEN,
    ensures
        hex_field(bytes).len() == HEX_LEN,
{
}

} // verus!
