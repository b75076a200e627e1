//! The calls into `chrono` and `uuid`: the current time and fresh memory ids.

use vstd::prelude::*;

use crate::text::{decimal, digit_char};

verus! {

/// The current time in Unix milliseconds, from `chrono::Utc::now()` and
/// `DateTime::timestamp_millis`. The value depends on the clock and nothing is said of
/// it beyond this: `Utc::now` panics on a clock set before the Unix epoch, so a value
/// that comes back is not negative.
#[verifier::external_body]
pub fn now_millis() -> (t: i64)
    ensures
        t >= 0,
{
    chrono::Utc::now().timestamp_millis()
}

/// A lowercase hexadecimal digit.
pub open spec fn is_lower_hex(c: char) -> bool {
    ('0' <= c && c <= '9') || ('a' <= c && c <= 'f')
}

/// The text of a random (version 4) UUID in hyphenated lowercase form:
/// `xxxxxxxx-xxxx-4xxx-yxxx-xxxxxxxxxxxx`.
pub open spec fn is_v4_uuid_text(s: Seq<char>) -> bool {
    &&& s.len() == 36
    &&& forall|i: int| 0 <= i < 36 && (i == 8 || i == 13 || i == 18 || i == 23) ==> #[trigger] s[i] == '-'
    &&& forall|i: int| 0 <= i < 36 && !(i == 8 || i == 13 || i == 18 || i == 23) ==> is_lower_hex(#[trigger] s[i])
    &&& s[14] == '4'
    &&& (s[19] == '8' || s[19] == '9' || s[19] == 'a' || s[19] == 'b')
}

/// A fresh memory id: `uuid::Uuid::new_v4()` written with `to_string()`. The value is
/// random; the contract states only its shape, which `Uuid::new_v4` (version and
/// variant bits) and the hyphenated lowercase `Display` of `Uuid` give it.
#[verifier::external_body]
pub fn new_memory_id() -> (id: String)
    ensures
        is_v4_uuid_text(id@),
{
    uuid::Uuid::new_v4().to_string()
}

/// The proleptic Gregorian date `(year, month, day)` of the day `z`, counted from
/// 1970-01-01 (year 0 is 1 BCE).
pub open spec fn civil_from_days(z: int) -> (int, int, int) {
    let shifted = z + 719468;
    let era = shifted / 146097;
    let doe = shifted - era * 146097;
    let yoe = (doe - doe / 1460 + doe / 36524 - doe / 146096) / 365;
    let doy = doe - (365 * yoe + yoe / 4 - yoe / 100);
    let mp = (5 * doy + 2) / 153;
    let day = doy - (153 * mp + 2) / 5 + 1;
    let month = if mp < 10 { mp + 3 } else { mp - 9 };
    (yoe + era * 400 + if month <= 2 { 1int } else { 0int }, month, day)
}

/// The decimal digits of `n`, with zeros in front up to `width` characters.
pub open spec fn zero_padded(n: nat, width: nat) -> Seq<char> {
    let digits = decimal(n);
    if digits.len() < width {
        Seq::new((width - digits.len()) as nat, |i: int| '0') + digits
    } else {
        digits
    }
}

/// Two decimal digits of `n` (below 100).
pub open spec fn two_digits(n: int) -> Seq<char> {
    seq![digit_char(n / 10), digit_char(n % 10)]
}

/// A year as `%Y` writes it: four digits from 0 to 9999, otherwise a sign and at least
/// four digits.
pub open spec fn year_text(y: int) -> Seq<char> {
    if 0 <= y <= 9999 {
        zero_padded(y as nat, 4)
    } else if y < 0 {
        seq!['-'] + zero_padded((-y) as nat, 4)
    } else {
        seq!['+'] + zero_padded(y as nat, 4)
    }
}

/// The milliseconds in a day.
pub open spec fn day_millis() -> int {
    86_400_000
}

/// The year (UTC) of the instant `millis`, Unix milliseconds.
pub open spec fn year_of_millis(millis: int) -> int {
    civil_from_days(millis / day_millis()).0
}

/// The instant lies in the years that `chrono` represents, -262143 to 262142.
pub open spec fn minute_in_range(millis: int) -> bool {
    -262143 <= year_of_millis(millis) <= 262142
}

/// The instant `millis` (Unix milliseconds, UTC) as `%Y-%m-%d %H:%M`.
pub open spec fn minute_text(millis: int) -> Seq<char> {
    let date = civil_from_days(millis / day_millis());
    let in_day = millis % day_millis();
    year_text(date.0) + seq!['-'] + two_digits(date.1) + seq!['-'] + two_digits(date.2) + seq![' ']
        + two_digits(in_day / 3_600_000) + seq![':'] + two_digits((in_day % 3_600_000) / 60_000)
}

/// Formats an instant as `%Y-%m-%d %H:%M` in UTC with `chrono`
/// (`DateTime::from_timestamp_millis`, then `format(..).to_string()`). The first gives
/// `None` exactly when the instant's year is outside chrono's range; otherwise the text
/// is the proleptic Gregorian date and time of the instant, the year as `%Y` writes it and
/// the other fields as two digits each.
#[verifier::external_body]
pub fn format_minute(millis: i64) -> (r: Option<String>)
    ensures
        match r {
            Some(s) => minute_in_range(millis as int) && s@ == minute_text(millis as int),
            None => !minute_in_range(millis as int),
        },
{
    match chrono::DateTime::from_timestamp_millis(millis) {
        Some(d) => Some(d.format("%Y-%m-%d %H:%M").to_string()),
        None => None,
    }
}

} // verus!
