//! Scraping the release-note block out of a change request's description.
//!
//! A description contributes a note when it holds the section header
//! `### Release note` followed, anywhere later, by a fenced block delimited by
//! triple backticks. The note is the interior of the first such fenced block;
//! a description without the pattern contributes the empty text (that is not
//! an error).

use vstd::prelude::*;
use vstd::string::StrSliceExecFns;

verus! {

/// `pat` occurs in `s` at position `i`.
pub open spec fn is_match_at(s: Seq<char>, pat: Seq<char>, i: int) -> bool {
    &&& 0 <= i
    &&& i + pat.len() <= s.len()
    &&& s.subrange(i, i + pat.len()) == pat
}

/// The first position at or after `from` where `pat` occurs in `s`, if any.
pub open spec fn spec_find_from(s: Seq<char>, pat: Seq<char>, from: int) -> Option<int>
    recommends
        0 <= from <= s.len(),
    decreases s.len() - from,
    when 0 <= from <= s.len()
    via spec_find_from_decreases
{
    if from + pat.len() > s.len() {
        None
    } else if s.subrange(from, from + pat.len()) == pat {
        Some(from)
    } else {
        spec_find_from(s, pat, from + 1)
    }
}

#[via_fn]
proof fn spec_find_from_decreases(s: Seq<char>, pat: Seq<char>, from: int) {
    if 0 <= from <= s.len() && from + pat.len() <= s.len() && s.subrange(
        from,
        from + pat.len(),
    ) != pat && pat.len() == 0 {
        assert(s.subrange(from, from + pat.len()) =~= pat);
    }
}

/// A found position is a match, and the least one at or after `from`.
pub proof fn lemma_find_from_some(s: Seq<char>, pat: Seq<char>, from: int)
    requires
        0 <= from <= s.len(),
        spec_find_from(s, pat, from) is Some,
    ensures
        ({
            let i = spec_find_from(s, pat, from)->Some_0;
            &&& from <= i
            &&& is_match_at(s, pat, i)
            &&& forall|j: int| from <= j < i ==> !is_match_at(s, pat, j)
        }),
    decreases s.len() - from,
{
    if from + pat.len() > s.len() {
    } else if s.subrange(from, from + pat.len()) == pat {
    } else {
        assert(pat.len() > 0) by {
            if pat.len() == 0 {
                assert(s.subrange(from, from + pat.len()) =~= pat);
            }
        }
        lemma_find_from_some(s, pat, from + 1);
    }
}

/// The least match at or after `from` is what `spec_find_from` returns.
pub proof fn lemma_find_from_first(s: Seq<char>, pat: Seq<char>, from: int, i: int)
    requires
        0 <= from <= s.len(),
        from <= i,
        is_match_at(s, pat, i),
        forall|j: int| from <= j < i ==> !is_match_at(s, pat, j),
    ensures
        spec_find_from(s, pat, from) == Some(i),
    decreases i - from,
{
    if from == i {
    } else {
        assert(!is_match_at(s, pat, from));
        lemma_find_from_first(s, pat, from + 1, i);
    }
}

/// Whether `pat` occurs in `s` at position `i`, checked character by
/// character.
fn match_at(s: &str, pat: &str, i: usize, s_len: usize, pat_len: usize) -> (r: bool)
    requires
        s_len == s@.len(),
        pat_len == pat@.len(),
        i + pat_len <= s_len,
    ensures
        r == is_match_at(s@, pat@, i as int),
{
    let mut j: usize = 0;
    while j < pat_len
        invariant
            0 <= j <= pat_len,
            s_len == s@.len(),
            pat_len == pat@.len(),
            i + pat_len <= s_len,
            forall|k: int| 0 <= k < j ==> s@[i + k] == pat@[k],
        decreases pat_len - j,
    {
        let cs = s.get_char(i + j);
        let cp = pat.get_char(j);
        if cs != cp {
            proof {
                let sub = s@.subrange(i as int, i + pat@.len());
                assert(sub[j as int] == s@[i + j]);
                assert(sub != pat@);
            }
            return false;
        }
        j = j + 1;
    }
    proof {
        assert(s@.subrange(i as int, i + pat@.len()) =~= pat@);
    }
    true
}

/// Finds the first occurrence of `pat` in `s` at or after position `from`
/// (positions count characters, not bytes).
pub fn find_from(s: &str, pat: &str, from: usize) -> (r: Option<usize>)
    requires
        from <= s@.len(),
        pat@.len() >= 1,
    ensures
        match r {
            Some(i) => {
                &&& spec_find_from(s@, pat@, from as int) == Some(i as int)
                &&& i + pat@.len() <= s@.len() <= usize::MAX
            },
            None => spec_find_from(s@, pat@, from as int) is None,
        },
{
    let s_len = s.unicode_len();
    let pat_len = pat.unicode_len();
    if pat_len > s_len || from > s_len - pat_len {
        proof {
            assert(spec_find_from(s@, pat@, from as int) is None);
        }
        return None;
    }
    let mut i = from;
    loop
        invariant
            from <= i <= s_len - pat_len + 1,
            1 <= pat_len <= s_len,
            s_len == s@.len(),
            pat_len == pat@.len(),
            spec_find_from(s@, pat@, from as int) == spec_find_from(s@, pat@, i as int),
        decreases s_len + 1 - i,
    {
        if i > s_len - pat_len {
            proof {
                assert(spec_find_from(s@, pat@, i as int) is None);
            }
            return None;
        }
        if match_at(s, pat, i, s_len, pat_len) {
            proof {
                assert(spec_find_from(s@, pat@, i as int) == Some(i as int));
            }
            return Some(i);
        }
        proof {
            assert(spec_find_from(s@, pat@, i as int) == spec_find_from(s@, pat@, i + 1));
        }
        i = i + 1;
    }
}

/// The section header that announces a release-note block.
pub open spec fn spec_header() -> Seq<char> {
    seq!['#', '#', '#', ' ', 'R', 'e', 'l', 'e', 'a', 's', 'e', ' ', 'n', 'o', 't', 'e']
}

/// The fence that delimits the block.
pub open spec fn spec_fence() -> Seq<char> {
    seq!['`', '`', '`']
}

/// The note text carried by a description: the interior of the first fenced
/// block after the first `### Release note` header, or empty when the pattern
/// does not occur.
pub open spec fn spec_extract_note(body: Seq<char>) -> Seq<char> {
    match spec_find_from(body, spec_header(), 0) {
        None => Seq::empty(),
        Some(h) => match spec_find_from(body, spec_fence(), h + spec_header().len()) {
            None => Seq::empty(),
            Some(o) => match spec_find_from(body, spec_fence(), o + spec_fence().len()) {
                None => Seq::empty(),
                Some(c) => body.subrange(o + spec_fence().len(), c),
            },
        },
    }
}

/// Extracts the release-note text from a change request's description:
/// exactly the interior of the first triple-backtick fenced block after the
/// first `### Release note` header, and empty when the pattern does not match.
pub fn extract_note(body: &str) -> (r: String)
    ensures
        r@ == spec_extract_note(body@),
{
    proof {
        reveal_strlit("### Release note");
        reveal_strlit("```");
        assert("### Release note"@ =~= spec_header());
        assert("```"@ =~= spec_fence());
    }
    let h = match find_from(body, "### Release note", 0) {
        None => {
            let r = String::new();
            return r;
        },
        Some(h) => h,
    };
    proof {
        lemma_find_from_some(body@, spec_header(), 0);
    }
    let o = match find_from(body, "```", h + 16) {
        None => {
            let r = String::new();
            return r;
        },
        Some(o) => o,
    };
    proof {
        lemma_find_from_some(body@, spec_fence(), h + 16);
    }
    let c = match find_from(body, "```", o + 3) {
        None => {
            let r = String::new();
            return r;
        },
        Some(c) => c,
    };
    proof {
        lemma_find_from_some(body@, spec_fence(), o + 3);
    }
    let inner = body.substring_char(o + 3, c);
    inner.to_owned()
}

/// A description that is exactly the header line followed by a fenced block
/// holding `Hello` yields the note `\nHello\n`: the fence interior keeps the
/// line breaks on both sides.
pub proof fn lemma_note_example(body: Seq<char>)
    requires
        body == "### Release note\n```\nHello\n```"@,
    ensures
        spec_extract_note(body) == "\nHello\n"@,
{
    reveal_strlit("### Release note\n```\nHello\n```");
    reveal_strlit("\nHello\n");
    assert(body.len() == 30);
    assert(body.subrange(0, 16) =~= spec_header());
    lemma_find_from_first(body, spec_header(), 0, 0);
    assert(body.subrange(17, 20) =~= spec_fence());
    assert(!is_match_at(body, spec_fence(), 16)) by {
        if is_match_at(body, spec_fence(), 16) {
            assert(body.subrange(16, 19)[0] == body[16]);
        }
    }
    lemma_find_from_first(body, spec_fence(), 16, 17);
    assert(body.subrange(27, 30) =~= spec_fence());
    assert forall|j: int| 20 <= j < 27 implies !is_match_at(body, spec_fence(), j) by {
        if is_match_at(body, spec_fence(), j) {
            assert(body.subrange(j, j + 3)[0] == body[j]);
        }
    }
    lemma_find_from_first(body, spec_fence(), 20, 27);
    assert(body.subrange(20, 27) =~= "\nHello\n"@);
}

} // verus!
