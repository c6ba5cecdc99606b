//! The wall clock, as the text that stamps messages.

use vstd::prelude::*;

verus! {

/// `c` is a decimal digit.
pub open spec fn is_digit(c: char) -> bool {
    48 <= c as int <= 57
}

/// The shape of a local timestamp `%d/%m/%Y %H:%M:%S` as chrono documents
/// it: two-digit day and month, each followed by `/`, a year of at least
/// four characters (digits, with a sign beyond year 9999), a space, and
/// two-digit hour, minute and second separated by `:`.
pub open spec fn is_local_timestamp(ts: Seq<char>) -> bool {
    let n = ts.len();
    &&& n >= 19
    &&& is_digit(ts[0]) && is_digit(ts[1]) && ts[2] == '/'
    &&& is_digit(ts[3]) && is_digit(ts[4]) && ts[5] == '/'
    &&& ts[n - 9] == ' '
    &&& is_digit(ts[n - 8]) && is_digit(ts[n - 7]) && ts[n - 6] == ':'
    &&& is_digit(ts[n - 5]) && is_digit(ts[n - 4]) && ts[n - 3] == ':'
    &&& is_digit(ts[n - 2]) && is_digit(ts[n - 1])
}

/// A reading of the local clock, as the text that stamps messages. Outside
/// this module a reading cannot be built: each one comes from a call of
/// `local_timestamp`, so a text taken from a reading is what the clock gave.
#[derive(Debug)]
pub struct ClockReading {
    text: String,
}

impl View for ClockReading {
    type V = Seq<char>;

    closed spec fn view(&self) -> Seq<char> {
        self.text@
    }
}

impl ClockReading {
    /// The text of the reading.
    pub fn text(&self) -> (t: String)
        ensures
            t@ == self@,
    {
        self.text.clone()
    }
}

/// Calls `chrono::Local::now()` and formats it with the format `fmt`. Which
/// time comes out depends on the clock and the machine's time zone; what is
/// claimed is the shape that chrono's `strftime` documentation gives for
/// this format (`%d`, `%m`, `%H`, `%M`, `%S` zero-padded to 2 digits, `%Y`
/// zero-padded to 4 digits with a sign beyond 9999). Only the timestamp
/// format of this library is admitted:
/// chrono panics in `to_string` on a format with an invalid specifier, and
/// which formats are valid is not stated here.
#[verifier::external_body]
fn format_local_now(fmt: &str) -> (ts: ClockReading)
    requires
        fmt@ == "%d/%m/%Y %H:%M:%S"@,
    ensures
        is_local_timestamp(ts@),
{
    ClockReading { text: chrono::Local::now().format(fmt).to_string() }
}

/// Reads the local clock: the current local time as
/// `day/month/year hour:minute:second`, each part in two digits but the year
/// (for example `17/06/2026 18:30:00`).
pub(crate) fn local_timestamp() -> (ts: ClockReading)
    ensures
        is_local_timestamp(ts@),
{
    format_local_now("%d/%m/%Y %H:%M:%S")
}

} // verus!
