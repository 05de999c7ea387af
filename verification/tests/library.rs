use release_notes::extract::{
    commit_entry, has_qualifying_label, render_page, ChangeRequest, CommitRef,
};
use release_notes::format::{format_entry, u64_to_dec, ReleaseNoteEntry};
use release_notes::json::{
    decode_compare, decode_compare_body, decode_pulls, decode_pulls_body, parse_json, JsonValue,
};
use release_notes::merge::merge_pages;
use release_notes::pages::{page_count, plan_pages};
use release_notes::text::{extract_note, find_from};
use release_notes::Error;

#[test]
fn page_count_examples() {
    assert_eq!(page_count(0, 30), 0);
    assert_eq!(page_count(1, 30), 1);
    assert_eq!(page_count(2, 30), 1);
    assert_eq!(page_count(30, 30), 1);
    assert_eq!(page_count(31, 30), 2);
    assert_eq!(page_count(61, 30), 3);
    assert_eq!(page_count(5, 1), 5);
    assert_eq!(page_count(20, 7), 3);
}

#[test]
fn plan_pages_dispatches_ceil_units() {
    assert_eq!(plan_pages(61, 30), vec![1, 2, 3]);
    assert_eq!(plan_pages(0, 30), Vec::<u64>::new());
    assert_eq!(plan_pages(2, 30), vec![1]);
}

#[test]
fn find_from_examples() {
    assert_eq!(find_from("abcabc", "bc", 0), Some(1));
    assert_eq!(find_from("abcabc", "bc", 2), Some(4));
    assert_eq!(find_from("abcabc", "zz", 0), None);
    assert_eq!(find_from("abc", "abcd", 0), None);
}

#[test]
fn extract_note_hello() {
    let body = "### Release note\n```\nHello\n```";
    assert_eq!(extract_note(body), "\nHello\n");
}

#[test]
fn extract_note_without_header_is_empty() {
    assert_eq!(extract_note("no header here\n```\nHello\n```"), "");
}

#[test]
fn extract_note_without_fences_is_empty() {
    assert_eq!(extract_note("### Release note\nno fence"), "");
    assert_eq!(extract_note("### Release note\n```\nunclosed"), "");
}

#[test]
fn extract_note_takes_first_fenced_block() {
    assert_eq!(extract_note("### Release note\n```A```B```"), "A");
}

#[test]
fn extract_note_with_surrounding_text() {
    let body = "intro\n### Release note\nblah\n```\nfoo\n```\ntail";
    assert_eq!(extract_note(body), "\nfoo\n");
}

#[test]
fn extract_note_counts_characters_not_bytes() {
    let body = "caf\u{e9} \u{2713}\n### Release note\n```\nx\n```";
    assert_eq!(extract_note(body), "\nx\n");
}

#[test]
fn u64_to_dec_examples() {
    assert_eq!(u64_to_dec(0), "0");
    assert_eq!(u64_to_dec(7), "7");
    assert_eq!(u64_to_dec(30), "30");
    assert_eq!(u64_to_dec(12345), "12345");
    assert_eq!(u64_to_dec(u64::MAX), "18446744073709551615");
}

#[test]
fn format_entry_with_text() {
    let e = ReleaseNoteEntry {
        sha: "abc123".to_owned(),
        request_number: 42,
        request_url: "https://example.invalid/pr/42".to_owned(),
        extracted_text: "\nHello\n".to_owned(),
    };
    assert_eq!(
        format_entry(&e),
        "\nabc123\n[#42](https://example.invalid/pr/42)\n\nHello\n\n"
    );
}

#[test]
fn format_entry_with_empty_text_ends_after_link() {
    let e = ReleaseNoteEntry {
        sha: "abc123".to_owned(),
        request_number: 7,
        request_url: "u".to_owned(),
        extracted_text: String::new(),
    };
    assert_eq!(format_entry(&e), "\nabc123\n[#7](u)\n");
}

#[test]
fn qualifying_label_is_exact() {
    assert!(has_qualifying_label(&vec![
        "bug".to_owned(),
        "release-note".to_owned()
    ]));
    assert!(!has_qualifying_label(&vec!["Release-note".to_owned()]));
    assert!(!has_qualifying_label(&vec!["release-notes".to_owned()]));
    assert!(!has_qualifying_label(&Vec::new()));
}

fn labeled_request(number: u64, url: &str, body: &str) -> ChangeRequest {
    ChangeRequest {
        number,
        url: url.to_owned(),
        labels: vec!["release-note".to_owned()],
        body: body.to_owned(),
    }
}

#[test]
fn commit_with_no_requests_contributes_nothing() {
    let commit = CommitRef { sha: "aaa".to_owned() };
    let r = commit_entry(&commit, &Vec::new());
    assert!(matches!(r, Ok(None)));
}

#[test]
fn commit_with_unlabeled_request_contributes_nothing() {
    let commit = CommitRef { sha: "aaa".to_owned() };
    let req = ChangeRequest {
        number: 1,
        url: "u".to_owned(),
        labels: vec!["bug".to_owned()],
        body: "### Release note\n```\nHello\n```".to_owned(),
    };
    let r = commit_entry(&commit, &vec![req]);
    assert!(matches!(r, Ok(None)));
}

#[test]
fn commit_with_two_requests_is_ambiguous() {
    let commit = CommitRef { sha: "aaa".to_owned() };
    let reqs = vec![
        labeled_request(1, "u1", ""),
        labeled_request(2, "u2", ""),
    ];
    let r = commit_entry(&commit, &reqs);
    assert_eq!(r.unwrap_err(), Error::AmbiguousLink);
}

#[test]
fn commit_with_labeled_request_yields_entry() {
    let commit = CommitRef { sha: "aaa".to_owned() };
    let reqs = vec![labeled_request(42, "u", "### Release note\n```\nHello\n```")];
    let entry = commit_entry(&commit, &reqs).unwrap().unwrap();
    assert_eq!(entry.sha, "aaa");
    assert_eq!(entry.request_number, 42);
    assert_eq!(entry.request_url, "u");
    assert_eq!(entry.extracted_text, "\nHello\n");
}

#[test]
fn render_page_end_to_end_scenario() {
    // Two commits on one page: one without a linked request (skipped) and one
    // with a labeled request whose body carries a fenced block holding "foo".
    let commits = vec![
        CommitRef { sha: "sha-one".to_owned() },
        CommitRef { sha: "sha-two".to_owned() },
    ];
    let pulls = vec![
        Vec::new(),
        vec![labeled_request(9, "https://example.invalid/pr/9", "### Release note\n```foo```")],
    ];
    let out = render_page(&commits, &pulls).unwrap();
    assert_eq!(out, "\nsha-two\n[#9](https://example.invalid/pr/9)\nfoo\n");
}

#[test]
fn render_page_aborts_on_ambiguous_link() {
    let commits = vec![
        CommitRef { sha: "one".to_owned() },
        CommitRef { sha: "two".to_owned() },
    ];
    let pulls = vec![
        vec![labeled_request(1, "u1", ""), labeled_request(2, "u2", "")],
        vec![labeled_request(3, "u3", "### Release note\n```x```")],
    ];
    let r = render_page(&commits, &pulls);
    assert_eq!(r.unwrap_err(), Error::AmbiguousLink);
}

#[test]
fn render_page_is_idempotent() {
    let build = || {
        (
            vec![CommitRef { sha: "s".to_owned() }],
            vec![vec![labeled_request(5, "u", "### Release note\n```\nnote\n```")]],
        )
    };
    let (c1, p1) = build();
    let (c2, p2) = build();
    assert_eq!(render_page(&c1, &p1).unwrap(), render_page(&c2, &p2).unwrap());
}

#[test]
fn merge_pages_in_page_order() {
    let parts = vec![
        (1u64, Ok("a".to_owned())),
        (2u64, Ok("b".to_owned())),
        (3u64, Ok("c".to_owned())),
    ];
    assert_eq!(merge_pages(&parts, 3).unwrap(), "abc");
}

#[test]
fn merge_pages_ignores_collection_order() {
    // Page 3's unit finished first, then page 1's, then page 2's: the output
    // still concatenates in page order.
    let parts = vec![
        (3u64, Ok("c".to_owned())),
        (1u64, Ok("a".to_owned())),
        (2u64, Ok("b".to_owned())),
    ];
    assert_eq!(merge_pages(&parts, 3).unwrap(), "abc");
}

#[test]
fn merge_pages_of_no_pages_is_empty() {
    assert_eq!(merge_pages(&Vec::new(), 0).unwrap(), "");
}

#[test]
fn merge_pages_reports_a_failed_page() {
    let parts = vec![
        (2u64, Err(Error::Transport)),
        (1u64, Ok("a".to_owned())),
    ];
    assert_eq!(merge_pages(&parts, 2).unwrap_err(), Error::Transport);
}

#[test]
fn merge_pages_reports_the_first_failed_page_in_page_order() {
    // Page 3 failed first in time, but page 2's failure comes first in page
    // order, so it is the one reported.
    let parts = vec![
        (3u64, Err(Error::Encoding)),
        (2u64, Err(Error::AmbiguousLink)),
        (1u64, Ok("a".to_owned())),
    ];
    assert_eq!(merge_pages(&parts, 3).unwrap_err(), Error::AmbiguousLink);
}

#[test]
fn parse_json_succeeds_exactly_on_valid_json() {
    assert!(matches!(parse_json("[]"), Ok(JsonValue::Array(_))));
    assert!(matches!(parse_json("{\"a\": 1}"), Ok(JsonValue::Object(_))));
    assert!(matches!(parse_json("null"), Ok(JsonValue::Null)));
    assert_eq!(parse_json("").unwrap_err(), Error::Format);
    assert_eq!(parse_json("{broken").unwrap_err(), Error::Format);
}

#[test]
fn decode_compare_body_accepts_a_listing() {
    let body = r#"{"total_commits": 2, "commits": [{"sha": "abc"}, {"sha": "def"}]}"#;
    let page = decode_compare_body(body).unwrap();
    assert_eq!(page.total_commits, 2);
    assert_eq!(page.commits.len(), 2);
    assert_eq!(page.commits[0].sha, "abc");
    assert_eq!(page.commits[1].sha, "def");
}

#[test]
fn decode_compare_body_rejects_bad_shapes() {
    assert_eq!(decode_compare_body("not json").unwrap_err(), Error::Format);
    assert_eq!(decode_compare_body("[]").unwrap_err(), Error::Format);
    assert_eq!(
        decode_compare_body(r#"{"commits": []}"#).unwrap_err(),
        Error::Format
    );
    assert_eq!(
        decode_compare_body(r#"{"total_commits": "2", "commits": []}"#).unwrap_err(),
        Error::Format
    );
    assert_eq!(
        decode_compare_body(r#"{"total_commits": 2, "commits": {}}"#).unwrap_err(),
        Error::Format
    );
    assert_eq!(
        decode_compare_body(r#"{"total_commits": 2, "commits": [{"nosha": 1}]}"#).unwrap_err(),
        Error::Format
    );
    assert_eq!(
        decode_compare_body(r#"{"total_commits": -1, "commits": []}"#).unwrap_err(),
        Error::Format
    );
}

#[test]
fn decode_pulls_body_accepts_a_listing() {
    let body = r####"[{
        "number": 42,
        "html_url": "https://example.invalid/pr/42",
        "labels": [{"name": "bug"}, {"name": "release-note"}],
        "body": "### Release note\n```\nHello\n```"
    }]"####;
    let reqs = decode_pulls_body(body).unwrap();
    assert_eq!(reqs.len(), 1);
    assert_eq!(reqs[0].number, 42);
    assert_eq!(reqs[0].url, "https://example.invalid/pr/42");
    assert_eq!(reqs[0].labels, vec!["bug".to_owned(), "release-note".to_owned()]);
    assert_eq!(reqs[0].body, "### Release note\n```\nHello\n```");
}

#[test]
fn decode_pulls_body_accepts_an_empty_listing() {
    assert_eq!(decode_pulls_body("[]").unwrap().len(), 0);
}

#[test]
fn decode_pulls_body_rejects_bad_shapes() {
    assert_eq!(decode_pulls_body("{}").unwrap_err(), Error::Format);
    assert_eq!(decode_pulls_body("zzz").unwrap_err(), Error::Format);
    // a request without a body text (a null body) is a format error
    let null_body = r#"[{"number": 1, "html_url": "u", "labels": [], "body": null}]"#;
    assert_eq!(decode_pulls_body(null_body).unwrap_err(), Error::Format);
    // a fractional number has no unsigned integer value
    let frac = r#"[{"number": 1.5, "html_url": "u", "labels": [], "body": ""}]"#;
    assert_eq!(decode_pulls_body(frac).unwrap_err(), Error::Format);
    // a label record must be an object with a string name
    let bad_label = r#"[{"number": 1, "html_url": "u", "labels": [7], "body": ""}]"#;
    assert_eq!(decode_pulls_body(bad_label).unwrap_err(), Error::Format);
}

#[test]
fn decode_compare_takes_first_entry_with_a_key() {
    let v = JsonValue::Object(vec![
        ("total_commits".to_owned(), JsonValue::UInt(1)),
        ("commits".to_owned(), JsonValue::Array(Vec::new())),
        ("total_commits".to_owned(), JsonValue::UInt(9)),
    ]);
    let page = decode_compare(&v).unwrap();
    assert_eq!(page.total_commits, 1);
}

#[test]
fn decode_pulls_requires_an_array() {
    assert_eq!(decode_pulls(&JsonValue::Null).unwrap_err(), Error::Format);
}

#[test]
fn pipeline_is_idempotent_from_response_bodies() {
    let compare = r#"{"total_commits": 1, "commits": [{"sha": "abc"}]}"#;
    let pulls = r####"[{
        "number": 3,
        "html_url": "u",
        "labels": [{"name": "release-note"}],
        "body": "### Release note\n```\nnote\n```"
    }]"####;
    let run = || {
        let page = decode_compare_body(compare).unwrap();
        let linked = vec![decode_pulls_body(pulls).unwrap()];
        let fragment = render_page(&page.commits, &linked).unwrap();
        let parts = vec![(1u64, Ok(fragment))];
        merge_pages(&parts, page_count(page.total_commits, 30)).unwrap()
    };
    assert_eq!(run(), run());
    assert_eq!(run(), "\nabc\n[#3](u)\n\nnote\n\n");
}
