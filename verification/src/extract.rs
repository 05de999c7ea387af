//! Deciding which commits contribute a release-note entry.
//!
//! A commit linked to no change request contributes nothing. A commit linked
//! to more than one is a data-integrity violation that aborts the whole run.
//! A commit linked to exactly one contributes an entry if and only if the
//! request carries the qualifying label `release-note`; the entry's text is
//! scraped from the request's description.

use vstd::prelude::*;
use crate::Error;
use crate::format::{EntryModel, ReleaseNoteEntry, spec_format_entry, format_entry};
use crate::text::{spec_extract_note, extract_note};
use vstd::string::StringExecFns;

verus! {

/// A commit of the requested range, as the comparison listing names it.
#[derive(Debug)]
pub struct CommitRef {
    /// The commit's sha.
    pub sha: String,
}

impl View for CommitRef {
    type V = Seq<char>;

    open spec fn view(&self) -> Seq<char> {
        self.sha@
    }
}

impl DeepView for CommitRef {
    type V = Seq<char>;

    open spec fn deep_view(&self) -> Seq<char> {
        self.view()
    }
}

/// A change request linked to a commit.
#[derive(Debug)]
pub struct ChangeRequest {
    /// The request's number.
    pub number: u64,
    /// The request's URL.
    pub url: String,
    /// The names of the request's labels.
    pub labels: Vec<String>,
    /// The request's description text.
    pub body: String,
}

/// The mathematical model of a change request: its fields as plain values.
pub struct ChangeRequestModel {
    pub number: int,
    pub url: Seq<char>,
    pub labels: Seq<Seq<char>>,
    pub body: Seq<char>,
}

impl View for ChangeRequest {
    type V = ChangeRequestModel;

    open spec fn view(&self) -> ChangeRequestModel {
        ChangeRequestModel {
            number: self.number as int,
            url: self.url@,
            labels: self.labels.deep_view(),
            body: self.body@,
        }
    }
}

impl DeepView for ChangeRequest {
    type V = ChangeRequestModel;

    open spec fn deep_view(&self) -> ChangeRequestModel {
        self.view()
    }
}

/// The qualifying label that marks a request's note as worth extracting.
pub open spec fn spec_label() -> Seq<char> {
    seq!['r', 'e', 'l', 'e', 'a', 's', 'e', '-', 'n', 'o', 't', 'e']
}

/// Some label of the set is exactly the qualifying label.
pub open spec fn spec_has_qualifying_label(labels: Seq<Seq<char>>) -> bool {
    exists|i: int| 0 <= i < labels.len() && labels[i] == spec_label()
}

/// Whether the label set carries the qualifying label `release-note`.
pub fn has_qualifying_label(labels: &Vec<String>) -> (r: bool)
    ensures
        r == spec_has_qualifying_label(labels.deep_view()),
{
    proof {
        reveal_strlit("release-note");
        assert("release-note"@ =~= spec_label());
    }
    let qualifying: String = "release-note".to_owned();
    let n = labels.len();
    let mut i: usize = 0;
    while i < n
        invariant
            0 <= i <= n,
            n == labels@.len(),
            qualifying@ == spec_label(),
            forall|j: int| 0 <= j < i ==> labels.deep_view()[j] != spec_label(),
        decreases n - i,
    {
        if labels[i].eq(&qualifying) {
            proof {
                assert(labels.deep_view()[i as int] == labels@[i as int]@);
            }
            return true;
        }
        proof {
            assert(labels.deep_view()[i as int] == labels@[i as int]@);
        }
        i = i + 1;
    }
    false
}

/// What a single commit contributes, given the change requests linked to it:
/// an error when the link is ambiguous, nothing when there is no request or
/// the single request lacks the qualifying label, and otherwise the entry
/// with the note text extracted from the request's description.
pub open spec fn spec_commit_entry(sha: Seq<char>, requests: Seq<ChangeRequestModel>) -> Result<
    Option<EntryModel>,
    Error,
> {
    if requests.len() > 1 {
        Err(Error::AmbiguousLink)
    } else if requests.len() == 0 {
        Ok(None)
    } else if !spec_has_qualifying_label(requests[0].labels) {
        Ok(None)
    } else {
        Ok(
            Some(
                EntryModel {
                    sha: sha,
                    request_number: requests[0].number,
                    request_url: requests[0].url,
                    extracted_text: spec_extract_note(requests[0].body),
                },
            ),
        )
    }
}

/// Decides what `commit` contributes, given the list of change requests the
/// host reports as linked to it.
///
/// No entry and no error come of a commit with zero linked requests, or of one
/// whose single linked request lacks the qualifying label; two or more linked
/// requests are an `AmbiguousLink` error; exactly one request carrying the
/// label yields the entry, with the note text extracted from the request's
/// description.
pub fn commit_entry(commit: &CommitRef, requests: &Vec<ChangeRequest>) -> (r: Result<
    Option<ReleaseNoteEntry>,
    Error,
>)
    ensures
        requests@.len() == 0 ==> r == Ok::<Option<ReleaseNoteEntry>, Error>(None),
        requests@.len() > 1 ==> r == Err::<Option<ReleaseNoteEntry>, Error>(Error::AmbiguousLink),
        requests@.len() == 1 && !spec_has_qualifying_label(requests.deep_view()[0].labels) ==> r
            == Ok::<Option<ReleaseNoteEntry>, Error>(None),
        match r {
            Err(e) => spec_commit_entry(commit@, requests.deep_view()) == Err::<
                Option<EntryModel>,
                Error,
            >(e),
            Ok(None) => spec_commit_entry(commit@, requests.deep_view()) == Ok::<
                Option<EntryModel>,
                Error,
            >(None),
            Ok(Some(entry)) => spec_commit_entry(commit@, requests.deep_view()) == Ok::<
                Option<EntryModel>,
                Error,
            >(Some(entry@)),
        },
{
    if requests.len() > 1 {
        return Err(Error::AmbiguousLink);
    }
    if requests.len() == 0 {
        return Ok(None);
    }
    let request = &requests[0];
    proof {
        assert(requests.deep_view()[0] == requests@[0]@);
    }
    if !has_qualifying_label(&request.labels) {
        return Ok(None);
    }
    let text = extract_note(request.body.as_str());
    Ok(
        Some(
            ReleaseNoteEntry {
                sha: commit.sha.clone(),
                request_number: request.number,
                request_url: request.url.clone(),
                extracted_text: text,
            },
        ),
    )
}

/// What a page's worth of commits renders to, processed in commit-list order:
/// the concatenated display blocks of the qualifying commits, or the first
/// error in that order. `pulls[i]` is the list of change requests linked to
/// `commits[i]`.
pub open spec fn spec_render_page(commits: Seq<Seq<char>>, pulls: Seq<Seq<ChangeRequestModel>>) -> Result<
    Seq<char>,
    Error,
>
    recommends
        commits.len() == pulls.len(),
    decreases commits.len(),
{
    if commits.len() == 0 {
        Ok(Seq::empty())
    } else {
        match spec_commit_entry(commits[0], pulls[0]) {
            Err(e) => Err(e),
            Ok(None) => spec_render_page(commits.drop_first(), pulls.drop_first()),
            Ok(Some(entry)) => match spec_render_page(commits.drop_first(), pulls.drop_first()) {
                Err(e) => Err(e),
                Ok(rest) => Ok(spec_format_entry(entry) + rest),
            },
        }
    }
}

/// Renders one page: runs the extractor over every commit of the page in
/// commit-list order and concatenates the qualifying commits' display blocks,
/// stopping at the first error. `pulls[i]` must be the change requests linked
/// to `commits[i]`.
pub fn render_page(commits: &Vec<CommitRef>, pulls: &Vec<Vec<ChangeRequest>>) -> (r: Result<
    String,
    Error,
>)
    requires
        commits@.len() == pulls@.len(),
    ensures
        match r {
            Ok(out) => spec_render_page(commits.deep_view(), pulls.deep_view()) == Ok::<
                Seq<char>,
                Error,
            >(out@),
            Err(e) => spec_render_page(commits.deep_view(), pulls.deep_view()) == Err::<
                Seq<char>,
                Error,
            >(e),
        },
{
    let ghost cs = commits.deep_view();
    let ghost ps = pulls.deep_view();
    let n = commits.len();
    let mut out = String::new();
    let mut i: usize = 0;
    proof {
        assert(cs.skip(0) =~= cs);
        assert(ps.skip(0) =~= ps);
        if spec_render_page(cs, ps) is Ok {
            assert(out@ + spec_render_page(cs, ps)->Ok_0 =~= spec_render_page(cs, ps)->Ok_0);
        }
    }
    while i < n
        invariant
            0 <= i <= n,
            n == commits@.len(),
            commits@.len() == pulls@.len(),
            cs == commits.deep_view(),
            ps == pulls.deep_view(),
            cs.len() == ps.len() == n,
            spec_render_page(cs, ps) == (match spec_render_page(
                cs.skip(i as int),
                ps.skip(i as int),
            ) {
                Ok(rest) => Ok::<Seq<char>, Error>(out@ + rest),
                Err(e) => Err::<Seq<char>, Error>(e),
            }),
        decreases n - i,
    {
        proof {
            assert(cs.skip(i as int)[0] == cs[i as int]);
            assert(ps.skip(i as int)[0] == ps[i as int]);
            assert(cs.skip(i as int).drop_first() =~= cs.skip(i + 1));
            assert(ps.skip(i as int).drop_first() =~= ps.skip(i + 1));
            assert(cs[i as int] == commits@[i as int]@);
            assert(ps[i as int] == pulls@[i as int].deep_view());
        }
        match commit_entry(&commits[i], &pulls[i]) {
            Err(e) => {
                return Err(e);
            },
            Ok(None) => {},
            Ok(Some(entry)) => {
                let ghost pre = out@;
                let block = format_entry(&entry);
                out.append(block.as_str());
                proof {
                    let next = spec_render_page(cs.skip(i + 1), ps.skip(i + 1));
                    if next is Ok {
                        assert(pre + (spec_format_entry(entry@) + next->Ok_0) =~= out@
                            + next->Ok_0);
                    }
                }
            },
        }
        i = i + 1;
    }
    proof {
        assert(cs.skip(n as int) =~= Seq::<Seq<char>>::empty());
        assert(ps.skip(n as int) =~= Seq::<Seq<ChangeRequestModel>>::empty());
        assert(out@ + Seq::<char>::empty() =~= out@);
    }
    Ok(out)
}

/// Running twice against an unchanged range produces byte-identical output: a
/// page's rendering is a function of the fetched data alone, so two runs that
/// see the same commits and linked change requests render byte-identical
/// fragments (and `merge::lemma_merge_order_independent` carries the same
/// guarantee through the merge).
pub proof fn lemma_run_idempotent(
    commits1: Seq<Seq<char>>,
    pulls1: Seq<Seq<ChangeRequestModel>>,
    commits2: Seq<Seq<char>>,
    pulls2: Seq<Seq<ChangeRequestModel>>,
)
    requires
        commits1 == commits2,
        pulls1 == pulls2,
    ensures
        spec_render_page(commits1, pulls1) == spec_render_page(commits2, pulls2),
{
}

/// A commit linked to exactly one change request that carries the qualifying
/// label and whose description is exactly the header line followed by a
/// fenced block holding `Hello` yields an entry whose extracted text is
/// exactly `\nHello\n`.
pub proof fn lemma_labeled_request_yields_note(sha: Seq<char>, req: ChangeRequestModel)
    requires
        spec_has_qualifying_label(req.labels),
        req.body == "### Release note\n```\nHello\n```"@,
    ensures
        spec_commit_entry(sha, seq![req]) == Ok::<Option<EntryModel>, Error>(
            Some(
                EntryModel {
                    sha: sha,
                    request_number: req.number,
                    request_url: req.url,
                    extracted_text: "\nHello\n"@,
                },
            ),
        ),
{
    crate::text::lemma_note_example(req.body);
    assert(seq![req][0] == req);
}

} // verus!
