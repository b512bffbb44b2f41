//! A user's print history, read one page at a time, and the paging rules
//! shared by the lists of the platform.
use vstd::prelude::*;

verus! {

/// The page of a list that is asked for.
#[derive(Debug, Clone)]
pub struct PageQuery {
    pub page: Option<i64>,
    pub per_page: Option<i64>,
}

/// A task in a user's history.
#[derive(Debug, Clone)]
pub struct HistoryItem {
    pub id: i64,
    pub file_name: String,
    pub page_count: i64,
    pub odd_even: String,
    pub status: String,
    pub submitted_at: String,
    pub completed_at: Option<String>,
    pub review_reason: Option<String>,
}

/// One page of a user's history.
#[derive(Debug, Clone)]
pub struct HistoryResponse {
    pub items: Vec<HistoryItem>,
    pub page: i64,
    pub per_page: i64,
    pub total: i64,
}

/// The page number used: the one asked for, 1 when none is, and never
/// below 1.
pub open spec fn page_number(page: Option<i64>) -> int {
    let p = match page {
        Some(p) => p as int,
        None => 1,
    };
    if p < 1 {
        1
    } else {
        p
    }
}

/// The page size used: the one asked for, `default` when none is, kept
/// between 1 and `max`.
pub open spec fn page_size(per_page: Option<i64>, default: i64, max: i64) -> int {
    let n = match per_page {
        Some(n) => n as int,
        None => default as int,
    };
    if n < 1 {
        1
    } else if n > max {
        max as int
    } else {
        n
    }
}

/// The page, the page size and the number of rows that come before the
/// page.
pub fn page_window(page: Option<i64>, per_page: Option<i64>, default: i64, max: i64) -> (r: (i64, i64, i64))
    requires
        1 <= default <= max,
        (page_number(page) - 1) * page_size(per_page, default, max) <= i64::MAX,
    ensures
        r.0 == page_number(page),
        r.1 == page_size(per_page, default, max),
        r.2 == (page_number(page) - 1) * page_size(per_page, default, max),
{
    let asked: i64 = match page {
        Some(p) => p,
        None => 1,
    };
    let p: i64 = if asked < 1 { 1 } else { asked };
    let wanted: i64 = match per_page {
        Some(n) => n,
        None => default,
    };
    let n: i64 = if wanted < 1 { 1 } else if wanted > max { max } else { wanted };
    assert((p - 1) * n >= 0) by (nonlinear_arith)
        requires
            p >= 1,
            n >= 1,
    ;
    let offset: i64 = (p - 1) * n;
    (p, n, offset)
}

/// The window of a user's history: 20 tasks a page unless asked otherwise,
/// at most 100.
pub fn history_window(query: &PageQuery) -> (r: (i64, i64, i64))
    requires
        (page_number(query.page) - 1) * page_size(query.per_page, 20, 100) <= i64::MAX,
    ensures
        r.0 == page_number(query.page),
        r.1 == page_size(query.per_page, 20, 100),
        r.2 == (page_number(query.page) - 1) * page_size(query.per_page, 20, 100),
{
    page_window(query.page, query.per_page, 20, 100)
}

} // verus!
