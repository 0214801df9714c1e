//! The local wall-clock time, as text.

use vstd::prelude::*;

verus! {

/// The pattern of the time stamp in the name of a backup: year, month and
/// day, then hour, minute and second.
pub open spec fn stamp_pattern() -> Seq<char> {
    "%Y-%m-%d_%H-%M-%S"@
}

/// Calls `chrono::Local::now` and formats the result with
/// `chrono::DateTime::format`. Nothing is claimed of the text that comes
/// back: it depends on the clock and on the time zone of the machine. The
/// pattern is held to the one that the library uses, because turning the
/// formatted value into a string panics on a pattern that chrono cannot
/// read. chrono itself panics where the clock of the machine stands before
/// 1970 or its time zone cannot be worked out; no contract can rule that
/// out.
#[verifier::external_body]
pub(crate) fn local_time_text(pattern: &str) -> (r: String)
    requires
        pattern@ == stamp_pattern(),
{
    chrono::Local::now().format(pattern).to_string()
}

} // verus!
