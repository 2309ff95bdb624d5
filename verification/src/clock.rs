//! Today's month and year.

use vstd::prelude::*;

verus! {

/// `chrono::Local::now`, read with `Datelike::month` and `Datelike::year`:
/// the month and the year of the local calendar date at the moment of the
/// call. All that is claimed is what `chrono` documents of every date: the
/// month lies between 1 and 12. Two calls may give different answers.
#[verifier::external_body]
pub(crate) fn current_month_and_year() -> (r: (u32, i32))
    ensures
        1 <= r.0 <= 12,
{
    let now = chrono::Local::now();
    (chrono::Datelike::month(&now), chrono::Datelike::year(&now))
}

} // verus!
