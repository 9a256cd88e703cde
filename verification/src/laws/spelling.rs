//! Texts of numbers, identifiers and levels.

use std::borrow::Cow;
use vstd::prelude::*;

#[allow(unused_imports)]
use crate::event::{BogusKind, Level};
#[allow(unused_imports)]
use crate::outside::tracing_level_name;
#[allow(unused_imports)]
use crate::text::{
    clone_cow, decimal, digit_char, hex, hex_field, push_decimal, ser_hex, ser_opt_hex,
};

verus! {

/// The number that decimal digits spell.
pub open spec fn number_of(text: Seq<char>) -> int
    decreases text.len(),
{
    if text.len() == 0 {
        0
    } else {
        number_of(text.drop_last()) * 10 + (text.last() as int - '0' as int)
    }
}

proof fn lemma_digits()
    ensures
        forall|v: int|
            0 <= v < 10 ==> #[trigger] digit_char(v) as int == '0' as int + v,
        forall|v: int|
            10 <= v < 16 ==> #[trigger] digit_char(v) as int == 'a' as int + v - 10,
{
    reveal_strlit("0123456789abcdef");
    let s = "0123456789abcdef"@;
    assert(s[0] == '0' && s[1] == '1' && s[2] == '2' && s[3] == '3' && s[4] == '4' && s[5] == '5'
        && s[6] == '6' && s[7] == '7' && s[8] == '8' && s[9] == '9' && s[10] == 'a' && s[11] == 'b'
        && s[12] == 'c' && s[13] == 'd' && s[14] == 'e' && s[15] == 'f');
}

proof fn lemma_decimal(n: nat)
    ensures
        decimal(n).len() > 0,
        forall|i: int| 0 <= i < decimal(n).len() ==> '0' <= #[trigger] decimal(n)[i] <= '9',
        number_of(decimal(n)) == n,
        decimal(n)[0] == '0' ==> n == 0,
        n < 10 ==> decimal(n).len() == 1,
    decreases n,
{
    lemma_digits();
    let text = decimal(n);
    if n >= 10 {
        lemma_decimal(n / 10);
        assert(text.drop_last() =~= decimal(n / 10));
        assert(text[0] == decimal(n / 10)[0]);
        assert forall|i: int| 0 <= i < text.len() implies '0' <= #[trigger] text[i] <= '9' by {
            if i < text.len() - 1 {
                assert(text[i] == decimal(n / 10)[i]);
            }
        }
    } else {
        assert(text.drop_last() =~= Seq::empty());
        assert(number_of(text.drop_last()) == 0);
    }
}

/// The decimal text of a number is made of digits that spell it, at least one,
/// and begins with a zero only if the number is zero.
pub proof fn law_decimal_spells_the_number(n: nat)
    ensures
        decimal(n).len() > 0,
        forall|i: int| 0 <= i < decimal(n).len() ==> '0' <= #[trigger] decimal(n)[i] <= '9',
        number_of(decimal(n)) == n,
        decimal(n)[0] == '0' ==> decimal(n).len() == 1,
{
    lemma_decimal(n);
}

/// What a text held stays in front, and the digits of the number follow.
pub proof fn law_digits_follow(n: u16, out: &mut String)
    requires
        call_ensures(push_decimal, (n, out), ()),
    ensures
        old(out)@.is_prefix_of(final(out)@),
        final(out)@.len() > old(out)@.len(),
        number_of(final(out)@.skip(old(out)@.len() as int)) == n,
        forall|i: int|
            old(out)@.len() <= i < final(out)@.len() ==> '0' <= #[trigger] final(out)@[i] <= '9',
        final(out)@[old(out)@.len() as int] == '0' ==> n == 0 && final(out)@.len()
            == old(out)@.len() + 1,
{
    lemma_decimal(n as nat);
    let (a, b) = (old(out)@, final(out)@);
    assert(b.skip(a.len() as int) =~= decimal(n as nat));
    assert forall|i: int| a.len() <= i < b.len() implies '0' <= #[trigger] b[i] <= '9' by {
        assert(b[i] == decimal(n as nat)[i - a.len()]);
    }
}

/// The value of a lower-case hex digit; -1 for any other character.
pub open spec fn nibble(c: char) -> int {
    if '0' <= c <= '9' {
        c as int - '0' as int
    } else if 'a' <= c <= 'f' {
        c as int - 'a' as int + 10
    } else {
        -1
    }
}

proof fn lemma_hex_field(bytes: Seq<u8>)
    requires
        bytes.len() <= 16,
    ensures
        hex_field(bytes).len() == 32,
        forall|k: int|
            #![trigger bytes[k]]
            0 <= k < bytes.len() ==> 0 <= nibble(hex_field(bytes)[2 * k]) && 0 <= nibble(
                hex_field(bytes)[2 * k + 1],
            ) && nibble(hex_field(bytes)[2 * k]) * 16 + nibble(hex_field(bytes)[2 * k + 1])
                == bytes[k],
        forall|i: int| 2 * bytes.len() <= i < 32 ==> #[trigger] hex_field(bytes)[i] == '\0',
{
    lemma_digits();
    assert forall|k: int| #![trigger bytes[k]] 0 <= k < bytes.len() implies 0 <= nibble(
        hex_field(bytes)[2 * k],
    ) && 0 <= nibble(hex_field(bytes)[2 * k + 1]) && nibble(hex_field(bytes)[2 * k]) * 16 + nibble(
        hex_field(bytes)[2 * k + 1],
    ) == bytes[k] by {
        let (h, l) = (bytes[k] as int / 16, bytes[k] as int % 16);
        assert(hex_field(bytes)[2 * k] == digit_char(h));
        assert(hex_field(bytes)[2 * k + 1] == digit_char(l));
        assert(nibble(digit_char(h)) == h);
        assert(nibble(digit_char(l)) == l);
    }
}

/// The text of an identifier has 32 characters. The first two for each byte are
/// lower-case hex digits that spell the byte, the upper half first; all that are
/// left over are NUL.
pub proof fn law_hex_digits_spell_the_bytes<const N: usize>(bytes: [u8; N], r: String)
    requires
        N <= 16,
        call_ensures(ser_hex::<N>, (&bytes,), r),
    ensures
        r@.len() == 32,
        forall|k: int|
            #![trigger bytes@[k]]
            0 <= k < N ==> 0 <= nibble(r@[2 * k]) && 0 <= nibble(r@[2 * k + 1]) && nibble(r@[2 * k])
                * 16 + nibble(r@[2 * k + 1]) == bytes@[k],
        forall|i: int| 2 * N <= i < 32 ==> #[trigger] r@[i] == '\0',
{
    lemma_hex_field(bytes@);
}

/// The same, of what stands for an identifier in a record.
pub proof fn law_hex_field_spells_the_bytes(bytes: Seq<u8>)
    requires
        bytes.len() <= 16,
    ensures
        hex_field(bytes).len() == 32,
        forall|k: int|
            #![trigger bytes[k]]
            0 <= k < bytes.len() ==> 0 <= nibble(hex_field(bytes)[2 * k]) && 0 <= nibble(
                hex_field(bytes)[2 * k + 1],
            ) && nibble(hex_field(bytes)[2 * k]) * 16 + nibble(hex_field(bytes)[2 * k + 1])
                == bytes[k],
        forall|i: int| 2 * bytes.len() <= i < 32 ==> #[trigger] hex_field(bytes)[i] == '\0',
{
    lemma_hex_field(bytes);
}

/// An optional identifier has a text exactly if it is there, and then the text of
/// the identifier itself.
pub proof fn law_optional_identifier<const N: usize>(
    id: Option<[u8; N]>,
    r: Option<String>,
    own: String,
)
    requires
        N <= 16,
        call_ensures(ser_opt_hex::<N>, (&id,), r),
        id matches Some(bytes) ==> call_ensures(ser_hex::<N>, (&bytes,), own),
    ensures
        match (id, r) {
            (Some(_), Some(text)) => text@ == own@,
            (None, None) => true,
            _ => false,
        },
{
}

/// A copied text is the same text.
pub proof fn law_copied_text(s: Cow<'static, str>, r: Cow<'static, str>)
    requires
        call_ensures(clone_cow, (&s,), r),
    ensures
        r@ == s@,
        r is Borrowed <==> s is Borrowed,
{
}

/// A level is known by exactly one name, in capitals, and spelled by the same
/// letters in lower case.
pub proof fn law_level_names(name: &str, r: Option<Level>)
    requires
        call_ensures(Level::from_name, (name,), r),
    ensures
        r == Some(Level::Trace) <==> name@ == "TRACE"@,
        r == Some(Level::Debug) <==> name@ == "DEBUG"@,
        r == Some(Level::Info) <==> name@ == "INFO"@,
        r == Some(Level::Warn) <==> name@ == "WARN"@,
        r == Some(Level::Error) <==> name@ == "ERROR"@,
{
    reveal_strlit("TRACE");
    reveal_strlit("DEBUG");
    reveal_strlit("INFO");
    reveal_strlit("WARN");
    reveal_strlit("ERROR");
    assert("TRACE"@.len() == 5 && "DEBUG"@.len() == 5 && "ERROR"@.len() == 5);
    assert("INFO"@.len() == 4 && "WARN"@.len() == 4);
    assert("TRACE"@[0] == 'T' && "DEBUG"@[0] == 'D' && "ERROR"@[0] == 'E');
    assert("INFO"@[0] == 'I' && "WARN"@[0] == 'W');
}

/// A level of `tracing` becomes the level of the same name.
pub proof fn law_level_keeps_its_name(level: tracing::Level, r: Level)
    requires
        call_ensures(<Level as From<tracing::Level>>::from, (level,), r),
    ensures
        tracing_level_name(level) == "TRACE"@ ==> r is Trace,
        tracing_level_name(level) == "DEBUG"@ ==> r is Debug,
        tracing_level_name(level) == "INFO"@ ==> r is Info,
        tracing_level_name(level) == "WARN"@ ==> r is Warn,
        tracing_level_name(level) == "ERROR"@ ==> r is Error,
{
    reveal_strlit("TRACE");
    reveal_strlit("DEBUG");
    reveal_strlit("INFO");
    reveal_strlit("WARN");
    reveal_strlit("ERROR");
    assert("TRACE"@.len() == 5 && "DEBUG"@.len() == 5 && "ERROR"@.len() == 5);
    assert("INFO"@.len() == 4 && "WARN"@.len() == 4);
    assert("TRACE"@[0] == 'T' && "DEBUG"@[0] == 'D' && "ERROR"@[0] == 'E');
    assert("INFO"@[0] == 'I' && "WARN"@[0] == 'W');
}

/// How levels and kinds are spelled in a record.
pub proof fn law_level_text(level: Level, r: &'static str, kind: &'static str)
    requires
        call_ensures(Level::as_str, (level,), r),
        call_ensures(BogusKind::as_str, (&BogusKind,), kind),
    ensures
        r@ == match level {
            Level::Trace => "trace"@,
            Level::Debug => "debug"@,
            Level::Info => "info"@,
            Level::Warn => "warn"@,
            Level::Error => "error"@,
        },
        kind@ == "server"@,
{
}

} // verus!
