//! Calls into other crates, each with the contract that the rest of the
//! library relies on. Nothing in this module is proved: every clause below is
//! read off the source of the function that is called.

use tracing::Level as TracingLevel;
use vstd::prelude::*;

verus! {

/// `serde_json::Number`, carried through unopened.
#[verifier::external_type_specification]
#[verifier::external_body]
pub struct ExNumber(serde_json::Number);

/// The number that `serde_json::Number::from` makes of the integer `n`. That
/// conversion keeps the integer and forgets the width of its type, so there is
/// one number for every integer from `i64::MIN` to `u64::MAX`.
pub uninterp spec fn json_number(n: int) -> serde_json::Number;

/// `serde_json::Number::from::<u64>`: the number that holds `n`.
#[verifier::external_body]
pub(crate) fn number_from_u64(n: u64) -> (r: serde_json::Number)
    ensures
        r == json_number(n as int),
{
    serde_json::Number::from(n)
}

/// `serde_json::Number::from::<i64>`: the number that holds `n`. A non-negative
/// `n` gives the same number as the conversion from `u64`.
#[verifier::external_body]
pub(crate) fn number_from_i64(n: i64) -> (r: serde_json::Number)
    ensures
        r == json_number(n as int),
{
    serde_json::Number::from(n)
}

/// `serde_json::Number::clone`: an equal number.
pub assume_specification[ <serde_json::Number as Clone>::clone ](n: &serde_json::Number) -> (r:
    serde_json::Number)
    ensures
        r == *n,
;

/// `tracing::Level`, carried through unopened.
#[verifier::external_type_specification]
#[verifier::external_body]
pub struct ExTracingLevel(TracingLevel);

/// The name that `tracing::Level::as_str` gives a level.
pub uninterp spec fn tracing_level_name(level: TracingLevel) -> Seq<char>;

/// `tracing::Level::as_str`: the level's name, which is one of five.
pub assume_specification[ TracingLevel::as_str ](level: &TracingLevel) -> (r: &'static str)
    ensures
        r@ == tracing_level_name(*level),
        r@ == "TRACE"@ || r@ == "DEBUG"@ || r@ == "INFO"@ || r@ == "WARN"@ || r@ == "ERROR"@,
;

/// `bytes::BytesMut`, a growing byte buffer.
#[verifier::external_type_specification]
#[verifier::external_body]
pub struct ExBytesMut(bytes::BytesMut);

/// `bytes::Bytes`, an immutable byte string that is cheap to clone.
#[verifier::external_type_specification]
#[verifier::external_body]
pub struct ExBytes(bytes::Bytes);

/// The bytes that a `bytes::BytesMut` holds.
pub uninterp spec fn buffer_content(buffer: bytes::BytesMut) -> Seq<u8>;

/// The bytes that a `bytes::Bytes` holds.
pub uninterp spec fn bytes_content(b: bytes::Bytes) -> Seq<u8>;

/// `bytes::BytesMut::with_capacity`: an empty buffer. The capacity is bounded
/// because an allocation of more than `isize::MAX` bytes panics.
pub assume_specification[ bytes::BytesMut::with_capacity ](capacity: usize) -> (r: bytes::BytesMut)
    requires
        capacity <= 0x7fff_ffff,
    ensures
        buffer_content(r) == Seq::<u8>::empty(),
;

/// `bytes::BytesMut::split`: hands out everything the buffer holds and leaves
/// it empty.
pub assume_specification[ bytes::BytesMut::split ](buffer: &mut bytes::BytesMut) -> (r:
    bytes::BytesMut)
    ensures
        buffer_content(r) == buffer_content(*old(buffer)),
        buffer_content(*final(buffer)) == Seq::<u8>::empty(),
;

/// `bytes::BytesMut::freeze`: the same bytes, immutable.
pub assume_specification[ bytes::BytesMut::freeze ](buffer: bytes::BytesMut) -> (r: bytes::Bytes)
    ensures
        bytes_content(r) == buffer_content(buffer),
;

/// What `zstd::stream::decode_all` makes of a byte string: the decompressed
/// bytes, or `None` where it fails.
pub uninterp spec fn zstd_text(frame: Seq<u8>) -> Option<Seq<u8>>;

/// `zstd::Encoder` over a fresh context, given all of `text` and finished:
/// appends to `buffer` one zstd frame that decompresses to `text`. Which frame,
/// of all those that do, is left open.
#[verifier::external_body]
pub(crate) fn zstd_append(text: &[u8], buffer: &mut bytes::BytesMut)
    ensures
        buffer_content(*old(buffer)).is_prefix_of(buffer_content(*final(buffer))),
        zstd_text(
            buffer_content(*final(buffer)).skip(buffer_content(*old(buffer)).len() as int),
        ) == Some(text@),
{
    let mut context = zstd::zstd_safe::CCtx::try_create().unwrap();
    let mut writer = bytes::BufMut::writer(buffer);
    let mut encoder = zstd::Encoder::with_context(&mut writer, &mut context);
    std::io::Write::write_all(&mut encoder, text).unwrap();
    encoder.finish().unwrap();
}

/// What `reqwest::Url::join` makes of `input` relative to the absolute URL
/// `base`: the text of the resulting URL, or `None` where `base` is no URL or
/// the two cannot be joined.
pub uninterp spec fn url_joined(base: Seq<char>, input: Seq<char>) -> Option<Seq<char>>;

/// `reqwest::Url::join`, on the URL that `base` spells.
#[verifier::external_body]
pub(crate) fn url_join(base: &str, input: &str) -> (r: Option<String>)
    ensures
        match r {
            Some(url) => url_joined(base@, input@) == Some(url@),
            None => url_joined(base@, input@) is None,
        },
{
    let base = reqwest::Url::parse(base).ok()?;
    base.join(input).ok().map(String::from)
}

/// Whether a header value may hold the character: a tab, or anything from the
/// space on except DEL.
pub open spec fn header_char(c: char) -> bool {
    c == '\t' || (c >= ' ' && c != '\u{7f}')
}

/// `reqwest::header::HeaderValue::try_from::<String>`: succeeds on exactly the
/// texts made of header characters. It tests UTF-8 bytes; every byte of a
/// character beyond ASCII passes.
#[verifier::external_body]
pub(crate) fn is_header_value(text: &str) -> (r: bool)
    ensures
        r == (forall|i: int| 0 <= i < text@.len() ==> header_char(#[trigger] text@[i])),
{
    reqwest::header::HeaderValue::try_from(String::from(text)).is_ok()
}

/// Whether RFC 3339 can express a local date and time, `local_nanos` after
/// midnight of the first of January 1970, at an offset of `offset_seconds` from
/// UTC: the offset is a whole number of minutes and less than a day, and the
/// date lies in the years 0 to 9999.
pub open spec fn rfc3339_expressible(local_nanos: int, offset_seconds: int) -> bool {
    &&& -86_400 < offset_seconds < 86_400
    &&& offset_seconds % 60 == 0
    &&& -62_167_219_200_000_000_000 <= local_nanos < 253_402_300_800_000_000_000
}

/// The RFC 3339 text that `time::OffsetDateTime::format` gives the local date
/// and time `local_nanos` at the offset `offset_seconds`, where it gives one.
pub uninterp spec fn rfc3339_text(local_nanos: int, offset_seconds: int) -> Seq<char>;

/// `time::OffsetDateTime::format` with `Rfc3339`, on a local date and time and
/// its offset given as plain numbers. It succeeds on exactly what RFC 3339 can
/// express. The moment in UTC plays no part: it may lie after the year 9999.
#[verifier::external_body]
pub(crate) fn rfc3339(local_nanos: i128, offset_seconds: i32) -> (r: Option<String>)
    ensures
        r is Some <==> rfc3339_expressible(local_nanos as int, offset_seconds as int),
        r matches Some(text) ==> text@ == rfc3339_text(local_nanos as int, offset_seconds as int),
{
    let local = time::OffsetDateTime::from_unix_timestamp_nanos(local_nanos).ok()?;
    let offset = time::UtcOffset::from_whole_seconds(offset_seconds).ok()?;
    local.replace_offset(offset).format(&time::format_description::well_known::Rfc3339).ok()
}

} // verus!
