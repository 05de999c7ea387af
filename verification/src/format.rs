//! Rendering a release-note entry as its display block.
//!
//! Each qualifying entry is emitted as: a blank line, the commit sha, a
//! markdown link line `[#<number>](<url>)`, then the extracted note text on
//! its own lines. An entry whose extracted text is empty ends after the link
//! line.

use vstd::prelude::*;
use vstd::string::StringExecFns;
use vstd::arithmetic::div_mod::{lemma_fundamental_div_mod, lemma_mod_bound};

verus! {

/// A produced output record: a commit together with the change request that
/// qualified it and the note text scraped from the request's description.
#[derive(Debug)]
pub struct ReleaseNoteEntry {
    /// The commit's sha.
    pub sha: String,
    /// The linked change request's number.
    pub request_number: u64,
    /// The linked change request's URL.
    pub request_url: String,
    /// The note text extracted from the request's description; may be empty.
    pub extracted_text: String,
}

/// The mathematical model of an entry: its four fields as plain values.
pub struct EntryModel {
    pub sha: Seq<char>,
    pub request_number: int,
    pub request_url: Seq<char>,
    pub extracted_text: Seq<char>,
}

impl View for ReleaseNoteEntry {
    type V = EntryModel;

    open spec fn view(&self) -> EntryModel {
        EntryModel {
            sha: self.sha@,
            request_number: self.request_number as int,
            request_url: self.request_url@,
            extracted_text: self.extracted_text@,
        }
    }
}

impl DeepView for ReleaseNoteEntry {
    type V = EntryModel;

    open spec fn deep_view(&self) -> EntryModel {
        self.view()
    }
}

/// The decimal digit character of `d`.
pub open spec fn spec_digit(d: int) -> char
    recommends
        0 <= d <= 9,
{
    if d == 0 {
        '0'
    } else if d == 1 {
        '1'
    } else if d == 2 {
        '2'
    } else if d == 3 {
        '3'
    } else if d == 4 {
        '4'
    } else if d == 5 {
        '5'
    } else if d == 6 {
        '6'
    } else if d == 7 {
        '7'
    } else if d == 8 {
        '8'
    } else {
        '9'
    }
}

/// The decimal rendering of `n`, most significant digit first, without
/// leading zeros (`0` renders as `"0"`).
pub open spec fn spec_dec(n: int) -> Seq<char>
    recommends
        n >= 0,
    decreases n,
    when n >= 0
    via spec_dec_decreases
{
    if n <= 9 {
        seq![spec_digit(n)]
    } else {
        spec_dec(n / 10) + seq![spec_digit(n % 10)]
    }
}

#[via_fn]
proof fn spec_dec_decreases(n: int) {
    if n > 9 {
        lemma_fundamental_div_mod(n, 10);
        lemma_mod_bound(n, 10);
    }
}

/// Appends the decimal digits of `n` to `out`.
fn push_dec(n: u64, out: &mut String)
    ensures
        final(out)@ == old(out)@ + spec_dec(n as int),
    decreases n,
{
    proof {
        reveal_strlit("0");
        reveal_strlit("1");
        reveal_strlit("2");
        reveal_strlit("3");
        reveal_strlit("4");
        reveal_strlit("5");
        reveal_strlit("6");
        reveal_strlit("7");
        reveal_strlit("8");
        reveal_strlit("9");
    }
    if n >= 10 {
        push_dec(n / 10, out);
    }
    let d = n % 10;
    proof {
        lemma_fundamental_div_mod(n as int, 10);
        lemma_mod_bound(n as int, 10);
    }
    if d == 0 {
        out.append("0");
    } else if d == 1 {
        out.append("1");
    } else if d == 2 {
        out.append("2");
    } else if d == 3 {
        out.append("3");
    } else if d == 4 {
        out.append("4");
    } else if d == 5 {
        out.append("5");
    } else if d == 6 {
        out.append("6");
    } else if d == 7 {
        out.append("7");
    } else if d == 8 {
        out.append("8");
    } else {
        out.append("9");
    }
    proof {
        assert(out@ =~= old(out)@ + spec_dec(n as int));
    }
}

/// Renders `n` in decimal.
pub fn u64_to_dec(n: u64) -> (r: String)
    ensures
        r@ == spec_dec(n as int),
{
    let mut out = String::new();
    push_dec(n, &mut out);
    proof {
        assert(out@ =~= spec_dec(n as int));
    }
    out
}

/// The display block of an entry: a blank line, the sha, the markdown link
/// line, then the extracted text followed by a newline; the text lines are
/// omitted entirely when the extracted text is empty.
pub open spec fn spec_format_entry(e: EntryModel) -> Seq<char> {
    let head = seq!['\n'] + e.sha + seq!['\n', '[', '#'] + spec_dec(e.request_number) + seq![
        ']',
        '(',
    ] + e.request_url + seq![')', '\n'];
    if e.extracted_text.len() == 0 {
        head
    } else {
        head + e.extracted_text + seq!['\n']
    }
}

/// Renders an entry as its display block.
pub fn format_entry(e: &ReleaseNoteEntry) -> (r: String)
    ensures
        r@ == spec_format_entry(e@),
{
    proof {
        reveal_strlit("\n");
        reveal_strlit("\n[#");
        reveal_strlit("](");
        reveal_strlit(")\n");
    }
    let mut out = String::new();
    out.append("\n");
    out.append(e.sha.as_str());
    out.append("\n[#");
    let num = u64_to_dec(e.request_number);
    out.append(num.as_str());
    out.append("](");
    out.append(e.request_url.as_str());
    out.append(")\n");
    if !e.extracted_text.as_str().is_empty() {
        out.append(e.extracted_text.as_str());
        out.append("\n");
    }
    proof {
        assert(out@ =~= spec_format_entry(e@));
    }
    out
}

} // verus!
