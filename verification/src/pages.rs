//! Pagination of the commit range.
//!
//! The coordinator splits a range of `total` commits into fixed-size pages and
//! dispatches one unit of work per page. The page count is the ceiling of
//! `total / page_size`; pages are identified by 1-based indices.

use vstd::prelude::*;
use vstd::arithmetic::div_mod::{lemma_fundamental_div_mod, lemma_fundamental_div_mod_converse};

verus! {

/// The number of pages needed for `total` commits at `page_size` commits per
/// page: the ceiling of `total / page_size`.
pub open spec fn spec_page_count(total: int, page_size: int) -> int
    recommends
        page_size >= 1,
        total >= 0,
{
    (total + page_size - 1) / page_size
}

/// Computes the number of pages, and so the number of concurrent units that a
/// run dispatches: exactly `ceil(total / page_size)`.
pub fn page_count(total: u64, page_size: u64) -> (r: u64)
    requires
        page_size >= 1,
    ensures
        r == spec_page_count(total as int, page_size as int),
{
    if total == 0 {
        proof {
            lemma_fundamental_div_mod_converse(
                page_size as int - 1,
                page_size as int,
                0,
                page_size as int - 1,
            );
        }
        0
    } else {
        let q = (total - 1) / page_size;
        proof {
            let t = total as int;
            let s = page_size as int;
            lemma_fundamental_div_mod(t - 1, s);
            let qq = (t - 1) / s;
            let rr = (t - 1) % s;
            assert(qq <= qq * s) by (nonlinear_arith)
                requires
                    qq >= 0,
                    s >= 1,
            ;
            assert(t + s - 1 == (qq + 1) * s + rr) by (nonlinear_arith)
                requires
                    t - 1 == qq * s + rr,
            ;
            lemma_fundamental_div_mod_converse(t + s - 1, s, qq + 1, rr);
        }
        q + 1
    }
}

/// The page count covers the whole range and wastes no page: all `total`
/// commits fit in `page_count` pages, and every page but possibly the last is
/// needed (the count is the least number of pages that fits the range).
pub proof fn lemma_page_count_tight(total: int, page_size: int)
    requires
        page_size >= 1,
        total >= 0,
    ensures
        total <= spec_page_count(total, page_size) * page_size,
        spec_page_count(total, page_size) * page_size < total + page_size,
        total == 0 ==> spec_page_count(total, page_size) == 0,
        total >= 1 ==> spec_page_count(total, page_size) >= 1,
{
    let s = page_size;
    let c = spec_page_count(total, s);
    lemma_fundamental_div_mod(total + s - 1, s);
    let r = (total + s - 1) % s;
    assert(total + s - 1 == s * c + r);
    assert(s * c == c * s) by (nonlinear_arith);
    if total == 0 {
        lemma_fundamental_div_mod_converse(s - 1, s, 0, s - 1);
    }
    if total >= 1 && c < 1 {
        assert(c * s <= 0) by (nonlinear_arith)
            requires
                c <= 0,
                s >= 1,
        ;
    }
}

/// Every commit of the range lands on exactly one page: commit `c` (0-based)
/// belongs to page `c / page_size + 1`, which lies between 1 and the page
/// count, and the page's slice `[(p - 1) * page_size, p * page_size)` holds it.
pub proof fn lemma_pages_cover_range(total: int, page_size: int, c: int)
    requires
        page_size >= 1,
        0 <= c < total,
    ensures
        ({
            let p = c / page_size + 1;
            &&& 1 <= p <= spec_page_count(total, page_size)
            &&& (p - 1) * page_size <= c < p * page_size
        }),
{
    let s = page_size;
    lemma_fundamental_div_mod(c, s);
    let q = c / s;
    let r = c % s;
    assert(c == s * q + r);
    assert(q >= 0 && (q * s <= c < (q + 1) * s)) by (nonlinear_arith)
        requires
            c == s * q + r,
            0 <= r < s,
            c >= 0,
            s >= 1,
    ;
    let p = q + 1;
    let n = spec_page_count(total, s);
    lemma_page_count_tight(total, s);
    if p > n {
        assert(n * s <= (p - 1) * s) by (nonlinear_arith)
            requires
                n <= p - 1,
                s >= 1,
        ;
    }
}

/// Builds the dispatch plan: the 1-based indices of every page of the range,
/// in dispatch order. The plan has exactly `ceil(total / page_size)` entries,
/// entry `i` being page `i + 1`.
pub fn plan_pages(total: u64, page_size: u64) -> (r: Vec<u64>)
    requires
        page_size >= 1,
    ensures
        r@.len() == spec_page_count(total as int, page_size as int),
        forall|i: int| 0 <= i < r@.len() ==> r@[i] == i + 1,
{
    let n = page_count(total, page_size);
    let mut r: Vec<u64> = Vec::new();
    let mut p: u64 = 0;
    while p < n
        invariant
            p <= n,
            r@.len() == p as int,
            forall|i: int| 0 <= i < r@.len() ==> r@[i] == i + 1,
        decreases n - p,
    {
        r.push(p + 1);
        p = p + 1;
    }
    r
}

} // verus!
