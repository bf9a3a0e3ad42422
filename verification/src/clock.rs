//! The one place the library reads the clock: the current civil date,
//! used to stamp realized-P/L entries.

use vstd::prelude::*;

use crate::types::Date;

verus! {

/// Relies on chrono's `Local::now` and the `Datelike` accessors: the
/// current date in the system time zone. The result depends on the
/// clock and the machine's time zone, so nothing ties it to a value;
/// chrono documents that `month` is 1..=12 and `day` is 1..=31.
#[verifier::external_body]
pub fn today_local() -> (d: Date)
    ensures
        1 <= d.month <= 12,
        1 <= d.day <= 31,
{
    let today = chrono::Local::now().date_naive();
    Date {
        year: chrono::Datelike::year(&today),
        month: chrono::Datelike::month(&today),
        day: chrono::Datelike::day(&today),
    }
}

} // verus!
