//! The figures of one page of results: the page size used, the page number,
//! and the number of the last page.

use vstd::prelude::*;
use crate::query::builder::page_size;

verus! {

/// The number of pages `total` rows fill, `per` to a page; at least one.
pub open spec fn last_page_spec(total: i64, per: int) -> int {
    if total <= 0 {
        1
    } else {
        (total as int) / per + (if (total as int) % per == 0 { 0int } else { 1int })
    }
}

/// The page size (`per_page` kept within 1 to 100), the page number (at
/// least 1) and the last page number of a result of `total` rows.
pub fn page_meta(total: i64, per_page: i64, page: i64) -> (r: (i64, i64, i64))
    ensures
        r.0 == page_size(per_page),
        r.1 == (if page < 1 { 1 } else { page }),
        r.2 == last_page_spec(total, page_size(per_page)),
{
    let per: i64 = if per_page < 1 {
        1
    } else if per_page > 100 {
        100
    } else {
        per_page
    };
    let current: i64 = if page < 1 { 1 } else { page };
    let last: i64 = if total <= 0 {
        1
    } else {
        let whole = total / per;
        assert(whole <= total) by (nonlinear_arith)
            requires
                total > 0,
                per >= 1,
                whole == total / per,
        ;
        if total % per == 0 {
            whole
        } else {
            assert(whole < total) by (nonlinear_arith)
                requires
                    total > 0,
                    per >= 1,
                    whole == total / per,
                    total % per != 0,
            ;
            whole + 1
        }
    };
    (per, current, last)
}

} // verus!
