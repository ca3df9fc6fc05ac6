//! The capture time of a reading, as `chrono` tells and prints it.

use vstd::prelude::*;
use crate::text::has_no_break;

verus! {

/// `chrono::SecondsFormat`: how many subsecond digits a timestamp shows. Its
/// variants are visible, so that `Millis` can be named.
#[verifier::external_type_specification]
pub struct ExSecondsFormat(chrono::SecondsFormat);

/// A decimal digit.
pub open spec fn is_digit(c: char) -> bool {
    '0' <= c <= '9'
}

/// `text` follows `pattern`: a digit wherever the pattern holds `d`, and the
/// pattern's own character everywhere else.
pub open spec fn follows(text: Seq<char>, pattern: Seq<char>) -> bool {
    &&& text.len() == pattern.len()
    &&& forall|i: int|
        0 <= i < pattern.len() ==> if pattern[i] == 'd' {
            is_digit(#[trigger] text[i])
        } else {
            text[i] == pattern[i]
        }
}

/// Month, day and time of day with three subsecond digits and the zero
/// offset written as `Z`.
pub open spec fn stamp_tail() -> Seq<char> {
    "-dd-ddTdd:dd:dd.dddZ"@
}

/// A year as it opens a timestamp: four digits, or a sign and four digits or
/// more.
pub open spec fn is_year(text: Seq<char>) -> bool {
    ||| text.len() == 4 && forall|i: int| 0 <= i < text.len() ==> is_digit(#[trigger] text[i])
    ||| text.len() >= 5 && (text[0] == '+' || text[0] == '-') && forall|i: int|
        1 <= i < text.len() ==> is_digit(#[trigger] text[i])
}

/// A UTC timestamp to the millisecond: the year, then the month, the day and
/// the time of day in fixed columns.
pub open spec fn is_utc_millis_stamp(stamp: Seq<char>) -> bool {
    &&& stamp.len() >= 4 + stamp_tail().len()
    &&& is_year(stamp.subrange(0, stamp.len() - stamp_tail().len()))
    &&& follows(stamp.subrange(stamp.len() - stamp_tail().len(), stamp.len() as int), stamp_tail())
}

/// A timestamp holds no line break.
pub proof fn lemma_stamp_holds_no_break(stamp: Seq<char>)
    requires
        is_utc_millis_stamp(stamp),
    ensures
        has_no_break(stamp),
{
    reveal_strlit("-dd-ddTdd:dd:dd.dddZ");
    let cut = stamp.len() - stamp_tail().len();
    let year = stamp.subrange(0, cut);
    let tail = stamp.subrange(cut, stamp.len() as int);
    assert forall|i: int| 0 <= i < stamp.len() implies stamp[i] != '\n' by {
        if i < cut {
            assert(stamp[i] == year[i]);
        } else {
            assert(stamp[i] == tail[i - cut]);
        }
    }
}

/// `chrono::Utc::now`, printed by `DateTime::to_rfc3339_opts` with
/// millisecond precision and `Z` for the zero offset. Whatever the time, the
/// text is the year (four digits, or a sign and four digits or more), then
/// month, day and time of day, each of two digits, three subsecond digits and
/// `Z`. `Utc::now` panics where the system clock stands before 1970.
#[verifier::external_body]
pub(crate) fn utc_now_rfc3339(secform: chrono::SecondsFormat, use_z: bool) -> (stamp: String)
    requires
        secform is Millis,
        use_z,
    ensures
        is_utc_millis_stamp(stamp@),
{
    chrono::Utc::now().to_rfc3339_opts(secform, use_z)
}

/// The current time as a UTC timestamp to the millisecond. Panics where the
/// system clock stands before 1970.
pub fn timestamp_now() -> (stamp: String)
    ensures
        is_utc_millis_stamp(stamp@),
{
    utc_now_rfc3339(chrono::SecondsFormat::Millis, true)
}

} // verus!
