//! The calls into the `uuid`, `chrono` and `bytes` crates, and one method
//! of `String`.
//!
//! Nothing in this module is proved: each contract restates what the called
//! function's source shows, over plain values.

use vstd::prelude::*;

verus! {

/// Two to the power of 64: the weight of the first half of an identifier.
pub const LOW_HALF: u128 = 0x1_0000_0000_0000_0000;

/// Two to the power of 76: the weight of the version digit of an identifier.
pub const VERSION_UNIT: u128 = 0x1000_0000_0000_0000_0000;

/// Two to the power of 80: the weight of the millisecond field of a version 7 identifier.
pub const MILLIS_UNIT: u128 = 0x1_0000_0000_0000_0000_0000;

/// Two to the power of 96: the weight of the leading 32 bits of an identifier.
pub const TIME_LOW_UNIT: u128 = 0x1_0000_0000_0000_0000_0000_0000;

/// The count of 100-nanosecond ticks between 15 October 1582 and the Unix epoch.
pub const GREGORIAN_OFFSET: u64 = 0x01B2_1DD2_1381_4000;

/// Two to the power of 48: one more than the largest millisecond count an identifier holds.
pub const MILLIS_LIMIT: u64 = 0x1_0000_0000_0000;

/// The earliest day the calendar knows, in days since 1 January 1970.
pub const EARLIEST_EPOCH_DAY: i32 = -96465292;

/// The latest day the calendar knows, in days since 1 January 1970.
pub const LATEST_EPOCH_DAY: i32 = 95026236;

/// The character for one hexadecimal digit, lower case.
pub open spec fn hex_char(digit: int) -> char {
    if digit < 10 {
        ((48 + digit) as u8) as char
    } else {
        ((87 + digit) as u8) as char
    }
}

/// The lowest `width` hexadecimal digits of `value`, most significant first.
pub open spec fn hex_digits(value: nat, width: nat) -> Seq<char>
    decreases width,
{
    if width == 0 {
        Seq::empty()
    } else {
        hex_digits(value / 16, (width - 1) as nat).push(hex_char((value % 16) as int))
    }
}

/// The canonical text of an identifier: 32 hexadecimal digits in groups of
/// 8, 4, 4, 4 and 12, joined by hyphens.
pub open spec fn hyphenated(id: u128) -> Seq<char> {
    let digits = hex_digits(id as nat, 32);
    digits.subrange(0, 8) + seq!['-'] + digits.subrange(8, 12) + seq!['-'] + digits.subrange(
        12,
        16,
    ) + seq!['-'] + digits.subrange(16, 20) + seq!['-'] + digits.subrange(20, 32)
}

/// The version digit of an identifier.
pub open spec fn version_of(id: u128) -> int {
    (id / VERSION_UNIT) as int % 16
}

/// The leading 48 bits of an identifier, which in version 7 count milliseconds.
pub open spec fn millis_of(id: u128) -> int {
    (id / MILLIS_UNIT) as int
}

/// Seconds and nanoseconds of a count of milliseconds.
pub open spec fn unix_time_of_millis(millis: int) -> (u64, u32) {
    ((millis / 1000) as u64, ((millis % 1000) * 1000000) as u32)
}

/// The 60-bit tick count of a version 1 identifier: its low 32 bits lead
/// the identifier, 16 middle bits follow, the high 12 bits come after the
/// version digit.
pub open spec fn ticks_of_v1(id: u128) -> int {
    let low = (id / TIME_LOW_UNIT) as int;
    let mid = (id / MILLIS_UNIT) as int % 0x1_0000;
    let high = (id / LOW_HALF) as int % 0x1000;
    high * 0x1_0000_0000_0000 + mid * 0x1_0000_0000 + low
}

/// The 60-bit tick count of a version 6 identifier: its high 48 bits lead
/// the identifier, the low 12 bits come after the version digit.
pub open spec fn ticks_of_v6(id: u128) -> int {
    (id / MILLIS_UNIT) as int * 0x1000 + (id / LOW_HALF) as int % 0x1000
}

/// Seconds and nanoseconds since the Unix epoch of a count of
/// 100-nanosecond ticks since 15 October 1582; the difference wraps at 64 bits.
pub open spec fn unix_time_of_ticks(ticks: int) -> (u64, u32) {
    let since_epoch = (ticks - GREGORIAN_OFFSET) % (LOW_HALF as int);
    ((since_epoch / 10000000) as u64, ((since_epoch % 10000000) * 100) as u32)
}

/// The time that an identifier embeds, as seconds and nanoseconds since the
/// Unix epoch. Only versions 1, 6 and 7 embed one.
pub open spec fn embedded_time(id: u128) -> Option<(u64, u32)> {
    if version_of(id) == 7 {
        Some(unix_time_of_millis(millis_of(id)))
    } else if version_of(id) == 1 {
        Some(unix_time_of_ticks(ticks_of_v1(id)))
    } else if version_of(id) == 6 {
        Some(unix_time_of_ticks(ticks_of_v6(id)))
    } else {
        None
    }
}

/// The millisecond count that a version 7 identifier made at the given time
/// holds: the count saturates at the largest `u64` and keeps its low 48 bits.
pub open spec fn stored_millis(seconds: u64, nanos: u32) -> int {
    let millis = seconds * 1000 + nanos / 1000000;
    (if millis > u64::MAX { u64::MAX as int } else { millis }) % (MILLIS_LIMIT as int)
}

/// The calendar day of a time given in seconds since the Unix epoch, in
/// days since 1 January 1970, where the calendar can express that time.
pub open spec fn calendar_day(seconds: int, nanos: int) -> Option<i32> {
    let day = seconds / 86400;
    let second_of_day = seconds % 86400;
    if EARLIEST_EPOCH_DAY <= day <= LATEST_EPOCH_DAY && (nanos < 1000000000 || (nanos
        < 2000000000 && second_of_day % 60 == 59)) {
        Some(day as i32)
    } else {
        None
    }
}

/// What `uuid::Uuid::try_parse` makes of a text: the identifier's 128 bits,
/// or nothing where the text is not an identifier in one of the four
/// accepted notations.
pub uninterp spec fn uuid_parsed(text: Seq<char>) -> Option<u128>;

/// The bytes that a `bytes::BytesMut` holds, in order.
pub uninterp spec fn bytes_held(buffer: bytes::BytesMut) -> Seq<u8>;

/// `bytes::BytesMut`, a growable buffer of bytes.
#[verifier::external_type_specification]
#[verifier::external_body]
pub struct ExBytesMut(bytes::BytesMut);

/// `uuid::Error`, the failure of `uuid::Uuid::try_parse`.
#[verifier::external_type_specification]
#[verifier::external_body]
pub struct ExUuidError(uuid::Error);

/// `String::push` appends one character.
pub assume_specification[ String::push ](text: &mut String, c: char)
    ensures
        final(text)@ == old(text)@.push(c),
;

/// Calls `bytes::BytesMut::new`, which makes a buffer that holds nothing.
#[verifier::external_body]
pub(crate) fn new_bytes() -> (buffer: bytes::BytesMut)
    ensures
        bytes_held(buffer) == Seq::<u8>::empty(),
{
    bytes::BytesMut::new()
}

/// Calls `bytes::BytesMut::extend_from_slice`, which appends the bytes of
/// the slice to what the buffer holds.
#[verifier::external_body]
pub(crate) fn extend_bytes(buffer: &mut bytes::BytesMut, data: &[u8])
    ensures
        bytes_held(*final(buffer)) == bytes_held(*old(buffer)) + data@,
{
    buffer.extend_from_slice(data)
}

/// Calls the `Deref` implementation of `bytes::BytesMut`, which lends what
/// the buffer holds as a slice.
#[verifier::external_body]
pub(crate) fn bytes_slice(buffer: &bytes::BytesMut) -> (slice: &[u8])
    ensures
        slice@ == bytes_held(*buffer),
{
    std::ops::Deref::deref(buffer)
}

/// Calls `uuid::Uuid::try_parse`. The result is a function of the text
/// alone and is named `uuid_parsed`; the identifier is handed over as its
/// 128 bits, most significant byte first.
#[verifier::external_body]
pub(crate) fn parse_uuid(text: &str) -> (r: Result<u128, uuid::Error>)
    ensures
        r is Ok <==> uuid_parsed(text@) is Some,
        r matches Ok(id) ==> uuid_parsed(text@) == Some(id),
{
    match uuid::Uuid::try_parse(text) {
        Ok(id) => Ok(id.as_u128()),
        Err(e) => Err(e),
    }
}

/// Calls the `Display` implementation of `uuid::Uuid`, which writes the
/// hyphenated lower-case notation. `try_parse` reads that notation back to
/// the same identifier.
#[verifier::external_body]
pub(crate) fn uuid_text(id: u128) -> (text: String)
    ensures
        text@ == hyphenated(id),
        uuid_parsed(text@) == Some(id),
{
    uuid::Uuid::from_u128(id).to_string()
}

/// Calls `uuid::Uuid::get_timestamp` and `Timestamp::to_unix`. Versions 1
/// and 6 count 100-nanosecond ticks since 15 October 1582, version 7 counts
/// milliseconds since the Unix epoch; no other version embeds a time.
#[verifier::external_body]
pub(crate) fn embedded_unix_time(id: u128) -> (r: Option<(u64, u32)>)
    ensures
        r == embedded_time(id),
{
    match uuid::Uuid::from_u128(id).get_timestamp() {
        Some(t) => Some(t.to_unix()),
        None => None,
    }
}

/// Calls `uuid::Timestamp::from_unix` without a clock sequence and
/// `uuid::Uuid::new_v7`. The identifier's trailing bits are random; its
/// version is 7 and its leading 48 bits hold the time in milliseconds.
#[verifier::external_body]
pub(crate) fn new_v7(seconds: u64, nanos: u32) -> (id: u128)
    ensures
        version_of(id) == 7,
        millis_of(id) == stored_millis(seconds, nanos),
{
    uuid::Uuid::new_v7(uuid::Timestamp::from_unix(uuid::NoContext, seconds, nanos)).as_u128()
}

/// Calls `chrono::NaiveDateTime::from_timestamp_opt` and reads the date of
/// the result as days since 1 January 1970. The call fails for times
/// outside the calendar's range and for a sub-second part of a second or
/// more, except within a leap second.
#[verifier::external_body]
pub(crate) fn epoch_day(seconds: i64, nanos: u32) -> (day: Option<i32>)
    ensures
        day == calendar_day(seconds as int, nanos as int),
{
    #[allow(deprecated)]
    match chrono::NaiveDateTime::from_timestamp_opt(seconds, nanos) {
        Some(t) => Some(t.date().to_epoch_days()),
        None => None,
    }
}

} // verus!
