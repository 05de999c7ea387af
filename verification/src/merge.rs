//! Merging per-page fragments into the final output.
//!
//! The coordinator dispatches one unit of work per page and collects one
//! result per page. The final output concatenates the page fragments in page
//! order — the order the pages were dispatched in — never in the order the
//! units happened to complete. A failed unit aborts the merge with its error,
//! at the point the failed page is reached in page order.

use vstd::prelude::*;
use vstd::string::StringExecFns;
use crate::Error;

verus! {

/// The result the unit for page `p` delivered, looked up among the collected
/// results (first entry with page index `p`, in collection order).
pub open spec fn spec_find_page(parts: Seq<(u64, Result<String, Error>)>, p: int) -> Option<
    Result<Seq<char>, Error>,
>
    decreases parts.len(),
{
    if parts.len() == 0 {
        None
    } else if parts[0].0 == p {
        Some(
            match parts[0].1 {
                Ok(s) => Ok(s@),
                Err(e) => Err(e),
            },
        )
    } else {
        spec_find_page(parts.drop_first(), p)
    }
}

/// The merged output of pages `p` through `n`: their fragments concatenated
/// in page order, or the error of the first failed page in that order. A page
/// without a collected result counts as a format error; the merge function
/// requires that the case does not arise.
pub open spec fn spec_merge_pages(
    parts: Seq<(u64, Result<String, Error>)>,
    p: int,
    n: int,
) -> Result<Seq<char>, Error>
    decreases n + 1 - p,
{
    if p > n {
        Ok(Seq::empty())
    } else {
        match spec_find_page(parts, p) {
            None => Err(Error::Format),
            Some(Err(e)) => Err(e),
            Some(Ok(frag)) => match spec_merge_pages(parts, p + 1, n) {
                Err(e) => Err(e),
                Ok(rest) => Ok(frag + rest),
            },
        }
    }
}

/// Merges the collected per-page results into the run's output.
///
/// `parts` holds one result per page index 1 through `n`, in any collection
/// order: the output is the page-order concatenation of the fragments, or the
/// error of the first failed page in page order, however the units' results
/// were collected.
pub fn merge_pages(parts: &Vec<(u64, Result<String, Error>)>, n: u64) -> (r: Result<String, Error>)
    requires
        forall|p: int| 1 <= p <= n ==> spec_find_page(parts@, p) is Some,
    ensures
        match r {
            Ok(out) => spec_merge_pages(parts@, 1, n as int) == Ok::<Seq<char>, Error>(out@),
            Err(e) => spec_merge_pages(parts@, 1, n as int) == Err::<Seq<char>, Error>(e),
        },
{
    let mut out = String::new();
    let mut p: u64 = 0;
    proof {
        if spec_merge_pages(parts@, 1, n as int) is Ok {
            assert(out@ + spec_merge_pages(parts@, 1, n as int)->Ok_0 =~= spec_merge_pages(
                parts@,
                1,
                n as int,
            )->Ok_0);
        }
    }
    while p < n
        invariant
            0 <= p <= n,
            forall|q: int| 1 <= q <= n ==> spec_find_page(parts@, q) is Some,
            spec_merge_pages(parts@, 1, n as int) == (match spec_merge_pages(
                parts@,
                p + 1,
                n as int,
            ) {
                Ok(rest) => Ok::<Seq<char>, Error>(out@ + rest),
                Err(e) => Err::<Seq<char>, Error>(e),
            }),
        decreases n - p,
    {
        let page = p + 1;
        let found = find_result(parts, page);
        match found {
            Err(e) => {
                return Err(e);
            },
            Ok(frag) => {
                let ghost pre = out@;
                out.append(frag.as_str());
                proof {
                    let next = spec_merge_pages(parts@, page + 1, n as int);
                    if next is Ok {
                        assert(pre + (frag@ + next->Ok_0) =~= out@ + next->Ok_0);
                    }
                }
            },
        }
        p = p + 1;
    }
    proof {
        assert(out@ + Seq::<char>::empty() =~= out@);
    }
    Ok(out)
}

/// Looks the result of page `p` up among the collected results.
fn find_result<'a>(parts: &'a Vec<(u64, Result<String, Error>)>, p: u64) -> (r: Result<&'a String, Error>)
    requires
        spec_find_page(parts@, p as int) is Some,
    ensures
        match r {
            Ok(frag) => spec_find_page(parts@, p as int) == Some(
                Ok::<Seq<char>, Error>(frag@),
            ),
            Err(e) => spec_find_page(parts@, p as int) == Some(Err::<Seq<char>, Error>(e)),
        },
{
    let n = parts.len();
    let mut i: usize = 0;
    proof {
        assert(parts@.skip(0) =~= parts@);
    }
    loop
        invariant
            0 <= i <= n,
            n == parts@.len(),
            spec_find_page(parts@, p as int) is Some,
            spec_find_page(parts@, p as int) == spec_find_page(parts@.skip(i as int), p as int),
        decreases n - i,
    {
        proof {
            if i as int == n as int {
                assert(parts@.skip(i as int) =~= Seq::<(u64, Result<String, Error>)>::empty());
                assert(false);
            }
        }
        proof {
            assert(parts@.skip(i as int)[0] == parts@[i as int]);
            assert(parts@.skip(i as int).drop_first() =~= parts@.skip(i + 1));
        }
        if parts[i].0 == p {
            match &parts[i].1 {
                Ok(s) => {
                    return Ok(s);
                },
                Err(e) => {
                    return Err(*e);
                },
            }
        }
        i = i + 1;
    }
}

/// The merged output is a function of which fragment each page produced
/// alone: two collections that assign every page the same result merge to the
/// same output, whatever order the units' results were collected in.
pub proof fn lemma_merge_order_independent(
    a: Seq<(u64, Result<String, Error>)>,
    b: Seq<(u64, Result<String, Error>)>,
    p: int,
    n: int,
)
    requires
        forall|q: int| p <= q <= n ==> spec_find_page(a, q) == spec_find_page(b, q),
    ensures
        spec_merge_pages(a, p, n) == spec_merge_pages(b, p, n),
    decreases n + 1 - p,
{
    if p > n {
    } else {
        lemma_merge_order_independent(a, b, p + 1, n);
    }
}

} // verus!
