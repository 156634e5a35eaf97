//! The time of generation, as it is written into the header.

use vstd::prelude::*;

verus! {

/// Whether a character can stand in a time written by `utc_timestamp`: a
/// decimal digit, or one of the marks `-`, `+`, `:`, `.` and `T`.
pub open spec fn is_stamp_char(c: char) -> bool {
    ||| 48 <= c as u32 <= 57
    ||| c == '-'
    ||| c == '+'
    ||| c == ':'
    ||| c == '.'
    ||| c == 'T'
}

/// The written offset of UTC.
pub open spec fn utc_offset() -> Seq<char> {
    "+00:00"@
}

/// What holds of every time written by `utc_timestamp`: it is made of
/// digits and the marks of the format, and it ends with the offset of UTC.
pub open spec fn is_utc_stamp(text: Seq<char>) -> bool {
    &&& forall|i: int| 0 <= i < text.len() ==> is_stamp_char(#[trigger] text[i])
    &&& utc_offset().is_suffix_of(text)
}

/// A time written by the clock stays on its line.
pub proof fn lemma_stamp_has_no_line_break(text: Seq<char>)
    requires
        is_utc_stamp(text),
    ensures
        !text.contains('\n'),
{
    if text.contains('\n') {
        let i: int = choose|i: int| 0 <= i < text.len() && text[i] == '\n';
        assert(is_stamp_char(text[i]));
    }
}

/// The current time in UTC as an RFC 3339 date-time with offset, such as
/// `2024-05-06T07:08:09.123456789+00:00`.
///
/// Reads the clock with `std::time::SystemTime::now`, turns the reading into
/// a `chrono::DateTime<Utc>` with chrono's `From<SystemTime>`, and writes it
/// with `chrono::DateTime::to_rfc3339`. The conversion counts a reading
/// before the Unix epoch backwards from it, and holds every time within
/// chrono's range of some 262,000 years either side of the epoch. Which time
/// comes back depends on the moment of the call, so the contract holds only
/// what `to_rfc3339` writes for every time in UTC: digits for the fields of
/// date and time, `-`, `T`, `:` and `.` between them (with a sign before a
/// year outside 0 to 9999), and `+00:00` for the offset.
#[verifier::external_body]
pub(crate) fn utc_timestamp() -> (stamp: String)
    ensures
        is_utc_stamp(stamp@),
{
    chrono::DateTime::<chrono::Utc>::from(std::time::SystemTime::now()).to_rfc3339()
}

} // verus!
