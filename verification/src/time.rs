//! When an identifier was made: its high bits count milliseconds from a fixed start.

use chrono::TimeZone;
use vstd::prelude::*;

verus! {

/// The start of the platform's clock, in milliseconds of Unix time.
pub const PLATFORM_EPOCH: u64 = 1420070400000;

/// The Unix time in milliseconds that an identifier encodes.
pub open spec fn snowflake_millis(id: u64) -> int {
    (id >> 22) as int + 1420070400000
}

/// Decodes the Unix time in milliseconds from an identifier.
pub fn timestamp_millis(id: u64) -> (ms: i64)
    ensures
        ms == snowflake_millis(id),
        0 <= ms < 0x800_0000_0000,
{
    let high: u64 = id >> 22;
    assert(high < 0x400_0000_0000) by (bit_vector)
        requires
            high == id >> 22,
    ;
    (high + PLATFORM_EPOCH) as i64
}

/// The RFC 2822 text of the instant `millis`, in milliseconds of Unix time,
/// as a clock reads it that runs `offset_seconds` ahead of UTC.
pub uninterp spec fn rfc2822_text(millis: int, offset_seconds: int) -> Seq<char>;

/// `text` is the date and time of the instant that `id` encodes, written as
/// RFC 2822 has it for a clock at some offset from UTC of less than a day.
pub open spec fn is_local_date(id: u64, text: Seq<char>) -> bool {
    &&& is_date_text(text)
    &&& exists|off: int|
        -86400 < off < 86400 && text == #[trigger] rfc2822_text(snowflake_millis(id), off)
}

/// Calls chrono's `TimeZone::timestamp_millis_opt` on `Local`, then
/// `DateTime::offset` and `FixedOffset::local_minus_utc`: the seconds that
/// the machine's time zone is ahead of UTC at the instant. The value depends
/// on the machine; chrono keeps every offset below a day, and no more is
/// claimed. The bound on the instant keeps it within the years that chrono
/// can make.
#[verifier::external_body]
fn local_offset_seconds(millis: i64) -> (off: i32)
    requires
        0 <= millis < 0x800_0000_0000,
    ensures
        -86400 < off < 86400,
{
    chrono::Local.timestamp_millis_opt(millis).unwrap().offset().local_minus_utc()
}

/// Calls chrono's `FixedOffset::east_opt`, `TimeZone::timestamp_millis_opt`
/// on that offset and `DateTime::to_rfc2822`. The text depends on the instant
/// and the offset alone: the contract gives it its name, and says how chrono
/// writes it. The bounds keep the offset one that chrono accepts and the year
/// within four digits.
#[verifier::external_body]
fn rfc2822_at(millis: i64, offset: i32) -> (r: String)
    requires
        0 <= millis < 0x800_0000_0000,
        -86400 < offset < 86400,
    ensures
        r@ == rfc2822_text(millis as int, offset as int),
        is_date_text(r@),
{
    chrono::FixedOffset::east_opt(offset).unwrap().timestamp_millis_opt(millis).unwrap().to_rfc2822()
}

/// The date and time at which an identifier was made, for a clock that runs
/// `offset_seconds` ahead of UTC. There is none for an offset of a day or more.
pub fn date_at(id: u64, offset_seconds: i32) -> (r: Option<String>)
    ensures
        r is Some <==> -86400 < offset_seconds < 86400,
        r is Some ==> r->0@ == rfc2822_text(snowflake_millis(id), offset_seconds as int)
            && is_local_date(id, r->0@),
{
    if -86400 < offset_seconds && offset_seconds < 86400 {
        Some(rfc2822_at(timestamp_millis(id), offset_seconds))
    } else {
        None
    }
}

/// The local date and time at which an identifier was made, written as RFC
/// 2822 has it. The offset from UTC is the one of the machine's time zone at
/// that instant.
pub fn get_date(id: u64) -> (r: String)
    ensures
        is_local_date(id, r@),
{
    let millis: i64 = timestamp_millis(id);
    let offset: i32 = local_offset_seconds(millis);
    rfc2822_at(millis, offset)
}

/// The bits of an identifier below the twenty-third do not reach its date:
/// two identifiers that agree above them have the same instant and the same
/// dates.
pub proof fn lemma_low_bits_do_not_count(a: u64, b: u64, text: Seq<char>)
    requires
        a >> 22 == b >> 22,
    ensures
        snowflake_millis(a) == snowflake_millis(b),
        is_local_date(a, text) == is_local_date(b, text),
{
    let ms = snowflake_millis(a);
    assert(snowflake_millis(b) == ms);
    if is_local_date(a, text) {
        let off = choose|off: int|
            -86400 < off < 86400 && text == #[trigger] rfc2822_text(snowflake_millis(a), off);
        assert(text == rfc2822_text(snowflake_millis(b), off));
    }
    if is_local_date(b, text) {
        let off = choose|off: int|
            -86400 < off < 86400 && text == #[trigger] rfc2822_text(snowflake_millis(b), off);
        assert(text == rfc2822_text(snowflake_millis(a), off));
    }
}

/// A larger identifier never encodes an earlier instant, and every instant
/// lies between the start of the platform's clock and the end of its 42 bits.
pub proof fn lemma_instants_rise(a: u64, b: u64)
    requires
        a <= b,
    ensures
        1420070400000 <= snowflake_millis(a) <= snowflake_millis(b) <= 5818116911103,
{
    assert(a >> 22 <= b >> 22) by (bit_vector)
        requires
            a <= b,
    ;
    assert(b >> 22 <= 0x3ff_ffff_ffff) by (bit_vector);
}

/// The three letters are the short English name of a day of the week.
pub open spec fn is_weekday_name(a: char, b: char, c: char) -> bool {
    ||| (a == 'S' && b == 'u' && c == 'n')
    ||| (a == 'M' && b == 'o' && c == 'n')
    ||| (a == 'T' && b == 'u' && c == 'e')
    ||| (a == 'W' && b == 'e' && c == 'd')
    ||| (a == 'T' && b == 'h' && c == 'u')
    ||| (a == 'F' && b == 'r' && c == 'i')
    ||| (a == 'S' && b == 'a' && c == 't')
}

/// The three letters are the short English name of a month.
pub open spec fn is_month_name(a: char, b: char, c: char) -> bool {
    ||| (a == 'J' && b == 'a' && c == 'n')
    ||| (a == 'F' && b == 'e' && c == 'b')
    ||| (a == 'M' && b == 'a' && c == 'r')
    ||| (a == 'A' && b == 'p' && c == 'r')
    ||| (a == 'M' && b == 'a' && c == 'y')
    ||| (a == 'J' && b == 'u' && c == 'n')
    ||| (a == 'J' && b == 'u' && c == 'l')
    ||| (a == 'A' && b == 'u' && c == 'g')
    ||| (a == 'S' && b == 'e' && c == 'p')
    ||| (a == 'O' && b == 'c' && c == 't')
    ||| (a == 'N' && b == 'o' && c == 'v')
    ||| (a == 'D' && b == 'e' && c == 'c')
}

/// The characters of `s` from `from` up to `to` are digits.
pub open spec fn digits_at(s: Seq<char>, from: int, to: int) -> bool {
    forall|i: int| from <= i < to ==> crate::text::is_digit(#[trigger] s[i])
}

/// `s` is written as a date and time of RFC 2822, such as
/// `Tue, 1 Jul 2003 10:52:37 +0200`: the day of the week, a comma, the day
/// of the month in one or two digits, the month, the year in four digits,
/// hours, minutes and seconds in two digits each, and the zone as a sign and
/// four digits, with single spaces between them.
pub open spec fn is_date_text(s: Seq<char>) -> bool {
    let d = s.len() - 29;
    &&& d == 1 || d == 2
    &&& is_weekday_name(s[0], s[1], s[2])
    &&& s[3] == ',' && s[4] == ' '
    &&& digits_at(s, 5, 5 + d)
    &&& s[5 + d] == ' '
    &&& is_month_name(s[6 + d], s[7 + d], s[8 + d])
    &&& s[9 + d] == ' '
    &&& digits_at(s, 10 + d, 14 + d)
    &&& s[14 + d] == ' '
    &&& digits_at(s, 15 + d, 17 + d)
    &&& s[17 + d] == ':'
    &&& digits_at(s, 18 + d, 20 + d)
    &&& s[20 + d] == ':'
    &&& digits_at(s, 21 + d, 23 + d)
    &&& s[23 + d] == ' '
    &&& (s[24 + d] == '+' || s[24 + d] == '-')
    &&& digits_at(s, 25 + d, 29 + d)
}

} // verus!
