//! Structured response data and its decoding.
//!
//! Response bodies are parsed by serde_json behind a trusted boundary into
//! the library's own value type, and every field the tool reads is then a
//! fallible, verified lookup: an absent or mistyped field is a format error,
//! never an assumption.

use vstd::prelude::*;
use crate::Error;
use crate::extract::{ChangeRequest, ChangeRequestModel, CommitRef};

verus! {

/// A parsed response body. Numbers keep their unsigned integer value when
/// they have one; any other number is carried as `OtherNumber`, since the
/// tool only ever reads unsigned integer fields.
#[derive(Debug)]
pub enum JsonValue {
    Null,
    Bool(bool),
    UInt(u64),
    OtherNumber,
    Text(String),
    Array(Vec<JsonValue>),
    Object(Vec<(String, JsonValue)>),
}

/// serde_json's parsed value type, declared so that the trusted parsing
/// boundary can hand values of it through.
#[verifier::external_type_specification]
#[verifier::external_body]
pub struct ExValue(serde_json::Value);

/// What parsing a body yields: the parsed value for text that the JSON parser
/// accepts, `None` for text it rejects. The parse is a function of the text
/// alone, so its result carries this name rather than a written-out JSON
/// grammar; nothing about particular texts is assumed of it.
pub uninterp spec fn spec_json_parse(s: Seq<char>) -> Option<JsonValue>;

/// Relies on serde_json::from_str: the parse is a function of the text alone,
/// returning a value exactly when the text is valid JSON. The result is
/// carried over into the library's value type by `value_to_json`.
#[verifier::external_body]
fn parse_converted(s: &str) -> (r: Option<JsonValue>)
    ensures
        r == spec_json_parse(s@),
{
    serde_json::from_str::<serde_json::Value>(s).ok().map(value_to_json)
}

/// Relies on the serde_json::Value enum: carries a parsed document over into
/// the library's own value type, variant by variant (object entries keep
/// serde_json's order; integer values outside u64 become `OtherNumber`).
#[verifier::external_body]
fn value_to_json(v: serde_json::Value) -> (r: JsonValue) {
    match v {
        serde_json::Value::Null => JsonValue::Null,
        serde_json::Value::Bool(b) => JsonValue::Bool(b),
        serde_json::Value::Number(n) => match n.as_u64() {
            Some(u) => JsonValue::UInt(u),
            None => JsonValue::OtherNumber,
        },
        serde_json::Value::String(s) => JsonValue::Text(s),
        serde_json::Value::Array(a) => JsonValue::Array(a.into_iter().map(value_to_json).collect()),
        serde_json::Value::Object(m) => JsonValue::Object(
            m.into_iter().map(|(k, x)| (k, value_to_json(x))).collect(),
        ),
    }
}

/// Parses a response body into the library's value type: the parsed value for
/// valid JSON, and a format error if and only if the text is not valid JSON.
pub fn parse_json(s: &str) -> (r: Result<JsonValue, Error>)
    ensures
        match r {
            Ok(v) => spec_json_parse(s@) == Some(v),
            Err(e) => spec_json_parse(s@) is None && e == Error::Format,
        },
{
    match parse_converted(s) {
        Some(v) => Ok(v),
        None => Err(Error::Format),
    }
}

/// The value of the first entry of an object with the given key, if any.
pub open spec fn spec_obj_get(entries: Seq<(String, JsonValue)>, key: Seq<char>) -> Option<
    JsonValue,
>
    decreases entries.len(),
{
    if entries.len() == 0 {
        None
    } else if entries[0].0@ == key {
        Some(entries[0].1)
    } else {
        spec_obj_get(entries.drop_first(), key)
    }
}

/// Looks a key up among an object's entries.
pub fn obj_get<'a>(entries: &'a Vec<(String, JsonValue)>, key: &String) -> (r: Option<
    &'a JsonValue,
>)
    ensures
        match r {
            Some(v) => spec_obj_get(entries@, key@) == Some(*v),
            None => spec_obj_get(entries@, key@) is None,
        },
{
    let n = entries.len();
    let mut i: usize = 0;
    proof {
        assert(entries@.skip(0) =~= entries@);
    }
    while i < n
        invariant
            0 <= i <= n,
            n == entries@.len(),
            spec_obj_get(entries@, key@) == spec_obj_get(entries@.skip(i as int), key@),
        decreases n - i,
    {
        proof {
            assert(entries@.skip(i as int)[0] == entries@[i as int]);
            assert(entries@.skip(i as int).drop_first() =~= entries@.skip(i + 1));
        }
        if entries[i].0.eq(key) {
            return Some(&entries[i].1);
        }
        i = i + 1;
    }
    proof {
        assert(entries@.skip(n as int) =~= Seq::<(String, JsonValue)>::empty());
    }
    None
}

/// One page of the comparison listing: the range's total commit count and the
/// page's commits.
#[derive(Debug)]
pub struct ComparePage {
    /// The total number of commits in the requested range.
    pub total_commits: u64,
    /// The commits of this page, in listing order.
    pub commits: Vec<CommitRef>,
}

/// The mathematical model of a comparison page.
pub struct ComparePageModel {
    pub total_commits: int,
    pub commits: Seq<Seq<char>>,
}

impl View for ComparePage {
    type V = ComparePageModel;

    open spec fn view(&self) -> ComparePageModel {
        ComparePageModel { total_commits: self.total_commits as int, commits: self.commits.deep_view() }
    }
}

/// What a commit record of the listing decodes to: its `sha` field, which
/// must be a string.
pub open spec fn spec_decode_commit(v: JsonValue) -> Result<Seq<char>, Error> {
    match v {
        JsonValue::Object(entries) => match spec_obj_get(entries@, "sha"@) {
            Some(JsonValue::Text(s)) => Ok(s@),
            _ => Err(Error::Format),
        },
        _ => Err(Error::Format),
    }
}

/// What a list of commit records decodes to: each record's sha in order, or
/// the first record's format error.
pub open spec fn spec_decode_commits(items: Seq<JsonValue>) -> Result<Seq<Seq<char>>, Error>
    decreases items.len(),
{
    if items.len() == 0 {
        Ok(Seq::empty())
    } else {
        match spec_decode_commit(items[0]) {
            Err(e) => Err(e),
            Ok(sha) => match spec_decode_commits(items.drop_first()) {
                Err(e) => Err(e),
                Ok(rest) => Ok(seq![sha] + rest),
            },
        }
    }
}

/// Decodes one commit record of the listing.
fn decode_commit(v: &JsonValue) -> (r: Result<CommitRef, Error>)
    ensures
        r is Err ==> r == Err::<CommitRef, Error>(Error::Format),
        match r {
            Ok(c) => spec_decode_commit(*v) == Ok::<Seq<char>, Error>(c@),
            Err(e) => spec_decode_commit(*v) == Err::<Seq<char>, Error>(e),
        },
{
    let entries = match v {
        JsonValue::Object(entries) => entries,
        _ => {
            return Err(Error::Format);
        },
    };
    let key = "sha".to_owned();
    match obj_get(entries, &key) {
        Some(JsonValue::Text(s)) => Ok(CommitRef { sha: s.clone() }),
        _ => Err(Error::Format),
    }
}

/// What a comparison response decodes to: its `total_commits` count, which
/// must be an unsigned integer, and its `commits` array of commit records.
pub open spec fn spec_decode_compare(v: JsonValue) -> Result<ComparePageModel, Error> {
    match v {
        JsonValue::Object(entries) => match spec_obj_get(entries@, "total_commits"@) {
            Some(JsonValue::UInt(t)) => match spec_obj_get(entries@, "commits"@) {
                Some(JsonValue::Array(items)) => match spec_decode_commits(items@) {
                    Ok(shas) => Ok(ComparePageModel { total_commits: t as int, commits: shas }),
                    Err(e) => Err(e),
                },
                _ => Err(Error::Format),
            },
            _ => Err(Error::Format),
        },
        _ => Err(Error::Format),
    }
}

/// Decodes a comparison response: the range's total commit count and this
/// page's commits. Every field access is fallible; an absent or mistyped
/// field is a format error.
pub fn decode_compare(v: &JsonValue) -> (r: Result<ComparePage, Error>)
    ensures
        r is Err ==> r == Err::<ComparePage, Error>(Error::Format),
        match r {
            Ok(page) => spec_decode_compare(*v) == Ok::<ComparePageModel, Error>(page@),
            Err(e) => spec_decode_compare(*v) == Err::<ComparePageModel, Error>(e),
        },
{
    let entries = match v {
        JsonValue::Object(entries) => entries,
        _ => {
            return Err(Error::Format);
        },
    };
    let key_total = "total_commits".to_owned();
    let total = match obj_get(entries, &key_total) {
        Some(JsonValue::UInt(t)) => *t,
        _ => {
            return Err(Error::Format);
        },
    };
    let key_commits = "commits".to_owned();
    let items = match obj_get(entries, &key_commits) {
        Some(JsonValue::Array(items)) => items,
        _ => {
            return Err(Error::Format);
        },
    };
    let n = items.len();
    let mut commits: Vec<CommitRef> = Vec::new();
    let mut i: usize = 0;
    proof {
        assert(items@.skip(0) =~= items@);
        assert(commits.deep_view() =~= Seq::<Seq<char>>::empty());
    }
    while i < n
        invariant
            0 <= i <= n,
            n == items@.len(),
            spec_decode_compare(*v) == (match spec_decode_commits(items@) {
                Ok(shas) => Ok::<ComparePageModel, Error>(
                    ComparePageModel { total_commits: total as int, commits: shas },
                ),
                Err(e) => Err::<ComparePageModel, Error>(e),
            }),
            spec_decode_commits(items@) == (match spec_decode_commits(items@.skip(i as int)) {
                Ok(rest) => Ok::<Seq<Seq<char>>, Error>(commits.deep_view() + rest),
                Err(e) => Err::<Seq<Seq<char>>, Error>(e),
            }),
        decreases n - i,
    {
        proof {
            assert(items@.skip(i as int)[0] == items@[i as int]);
            assert(items@.skip(i as int).drop_first() =~= items@.skip(i + 1));
        }
        let ghost pre = commits.deep_view();
        match decode_commit(&items[i]) {
            Ok(c) => {
                commits.push(c);
            },
            Err(e) => {
                proof {
                    assert(spec_decode_commits(items@.skip(i as int)) == Err::<
                        Seq<Seq<char>>,
                        Error,
                    >(e));
                    assert(spec_decode_commits(items@) == Err::<Seq<Seq<char>>, Error>(e));
                    assert(spec_decode_compare(*v) == Err::<ComparePageModel, Error>(e));
                }
                return Err(e);
            },
        }
        proof {
            let sha = spec_decode_commit(items@[i as int])->Ok_0;
            assert(commits.deep_view() =~= pre + seq![sha]);
            let next = spec_decode_commits(items@.skip(i + 1));
            if next is Ok {
                assert(pre + (seq![sha] + next->Ok_0) =~= commits.deep_view() + next->Ok_0);
            }
        }
        i = i + 1;
    }
    proof {
        assert(items@.skip(n as int) =~= Seq::<JsonValue>::empty());
        assert(commits.deep_view() + Seq::<Seq<char>>::empty() =~= commits.deep_view());
    }
    Ok(ComparePage { total_commits: total, commits })
}

/// What a label record decodes to: its `name` field, which must be a string.
pub open spec fn spec_decode_label(v: JsonValue) -> Result<Seq<char>, Error> {
    match v {
        JsonValue::Object(entries) => match spec_obj_get(entries@, "name"@) {
            Some(JsonValue::Text(s)) => Ok(s@),
            _ => Err(Error::Format),
        },
        _ => Err(Error::Format),
    }
}

/// What a list of label records decodes to: each label's name in order, or
/// the first record's format error.
pub open spec fn spec_decode_labels(items: Seq<JsonValue>) -> Result<Seq<Seq<char>>, Error>
    decreases items.len(),
{
    if items.len() == 0 {
        Ok(Seq::empty())
    } else {
        match spec_decode_label(items[0]) {
            Err(e) => Err(e),
            Ok(name) => match spec_decode_labels(items.drop_first()) {
                Err(e) => Err(e),
                Ok(rest) => Ok(seq![name] + rest),
            },
        }
    }
}

/// Decodes one label record.
fn decode_label(v: &JsonValue) -> (r: Result<String, Error>)
    ensures
        r is Err ==> r == Err::<String, Error>(Error::Format),
        match r {
            Ok(name) => spec_decode_label(*v) == Ok::<Seq<char>, Error>(name@),
            Err(e) => spec_decode_label(*v) == Err::<Seq<char>, Error>(e),
        },
{
    let entries = match v {
        JsonValue::Object(entries) => entries,
        _ => {
            return Err(Error::Format);
        },
    };
    let key = "name".to_owned();
    match obj_get(entries, &key) {
        Some(JsonValue::Text(s)) => Ok(s.clone()),
        _ => Err(Error::Format),
    }
}

/// What a change-request record decodes to: its `number` (an unsigned
/// integer), `html_url` (a string), `labels` (an array of label records) and
/// `body` (a string).
pub open spec fn spec_decode_request(v: JsonValue) -> Result<ChangeRequestModel, Error> {
    match v {
        JsonValue::Object(entries) => match spec_obj_get(entries@, "number"@) {
            Some(JsonValue::UInt(number)) => match spec_obj_get(entries@, "html_url"@) {
                Some(JsonValue::Text(url)) => match spec_obj_get(entries@, "labels"@) {
                    Some(JsonValue::Array(items)) => match spec_decode_labels(items@) {
                        Ok(labels) => match spec_obj_get(entries@, "body"@) {
                            Some(JsonValue::Text(body)) => Ok(
                                ChangeRequestModel {
                                    number: number as int,
                                    url: url@,
                                    labels: labels,
                                    body: body@,
                                },
                            ),
                            _ => Err(Error::Format),
                        },
                        Err(e) => Err(e),
                    },
                    _ => Err(Error::Format),
                },
                _ => Err(Error::Format),
            },
            _ => Err(Error::Format),
        },
        _ => Err(Error::Format),
    }
}

/// Decodes one change-request record.
fn decode_request(v: &JsonValue) -> (r: Result<ChangeRequest, Error>)
    ensures
        r is Err ==> r == Err::<ChangeRequest, Error>(Error::Format),
        match r {
            Ok(req) => spec_decode_request(*v) == Ok::<ChangeRequestModel, Error>(req@),
            Err(e) => spec_decode_request(*v) == Err::<ChangeRequestModel, Error>(e),
        },
{
    let entries = match v {
        JsonValue::Object(entries) => entries,
        _ => {
            return Err(Error::Format);
        },
    };
    let key_number = "number".to_owned();
    let number = match obj_get(entries, &key_number) {
        Some(JsonValue::UInt(n)) => *n,
        _ => {
            return Err(Error::Format);
        },
    };
    let key_url = "html_url".to_owned();
    let url = match obj_get(entries, &key_url) {
        Some(JsonValue::Text(s)) => s.clone(),
        _ => {
            return Err(Error::Format);
        },
    };
    let key_labels = "labels".to_owned();
    let items = match obj_get(entries, &key_labels) {
        Some(JsonValue::Array(items)) => items,
        _ => {
            return Err(Error::Format);
        },
    };
    let n = items.len();
    let mut labels: Vec<String> = Vec::new();
    let mut i: usize = 0;
    proof {
        assert(items@.skip(0) =~= items@);
        assert(labels.deep_view() =~= Seq::<Seq<char>>::empty());
    }
    while i < n
        invariant
            0 <= i <= n,
            n == items@.len(),
            spec_decode_request(*v) == (match spec_decode_labels(items@) {
                Ok(ls) => (match spec_obj_get(entries@, "body"@) {
                    Some(JsonValue::Text(b)) => Ok::<ChangeRequestModel, Error>(
                        ChangeRequestModel {
                            number: number as int,
                            url: url@,
                            labels: ls,
                            body: b@,
                        },
                    ),
                    _ => Err::<ChangeRequestModel, Error>(Error::Format),
                }),
                Err(e) => Err::<ChangeRequestModel, Error>(e),
            }),
            spec_decode_labels(items@) == (match spec_decode_labels(items@.skip(i as int)) {
                Ok(rest) => Ok::<Seq<Seq<char>>, Error>(labels.deep_view() + rest),
                Err(e) => Err::<Seq<Seq<char>>, Error>(e),
            }),
        decreases n - i,
    {
        proof {
            assert(items@.skip(i as int)[0] == items@[i as int]);
            assert(items@.skip(i as int).drop_first() =~= items@.skip(i + 1));
        }
        let ghost pre = labels.deep_view();
        match decode_label(&items[i]) {
            Ok(name) => {
                labels.push(name);
            },
            Err(e) => {
                proof {
                    assert(spec_decode_labels(items@.skip(i as int)) == Err::<
                        Seq<Seq<char>>,
                        Error,
                    >(e));
                    assert(spec_decode_labels(items@) == Err::<Seq<Seq<char>>, Error>(e));
                    assert(spec_decode_request(*v) == Err::<ChangeRequestModel, Error>(e));
                }
                return Err(e);
            },
        }
        proof {
            let name = spec_decode_label(items@[i as int])->Ok_0;
            assert(labels.deep_view() =~= pre + seq![name]);
            let next = spec_decode_labels(items@.skip(i + 1));
            if next is Ok {
                assert(pre + (seq![name] + next->Ok_0) =~= labels.deep_view() + next->Ok_0);
            }
        }
        i = i + 1;
    }
    proof {
        assert(items@.skip(n as int) =~= Seq::<JsonValue>::empty());
        assert(labels.deep_view() + Seq::<Seq<char>>::empty() =~= labels.deep_view());
    }
    let key_body = "body".to_owned();
    let body = match obj_get(entries, &key_body) {
        Some(JsonValue::Text(s)) => s.clone(),
        _ => {
            return Err(Error::Format);
        },
    };
    Ok(ChangeRequest { number, url, labels, body })
}

/// What the list of change requests linked to a commit decodes to: the
/// decoded records in order, or the first record's format error. The response
/// must be an array.
pub open spec fn spec_decode_requests(items: Seq<JsonValue>) -> Result<
    Seq<ChangeRequestModel>,
    Error,
>
    decreases items.len(),
{
    if items.len() == 0 {
        Ok(Seq::empty())
    } else {
        match spec_decode_request(items[0]) {
            Err(e) => Err(e),
            Ok(req) => match spec_decode_requests(items.drop_first()) {
                Err(e) => Err(e),
                Ok(rest) => Ok(seq![req] + rest),
            },
        }
    }
}

/// What a "list change requests for a commit" response decodes to.
pub open spec fn spec_decode_pulls(v: JsonValue) -> Result<Seq<ChangeRequestModel>, Error> {
    match v {
        JsonValue::Array(items) => spec_decode_requests(items@),
        _ => Err(Error::Format),
    }
}

/// Decodes a "list change requests for a commit" response: an array of
/// change-request records. Every field access is fallible; an absent or
/// mistyped field is a format error.
pub fn decode_pulls(v: &JsonValue) -> (r: Result<Vec<ChangeRequest>, Error>)
    ensures
        r is Err ==> r == Err::<Vec<ChangeRequest>, Error>(Error::Format),
        match r {
            Ok(reqs) => spec_decode_pulls(*v) == Ok::<Seq<ChangeRequestModel>, Error>(
                reqs.deep_view(),
            ),
            Err(e) => spec_decode_pulls(*v) == Err::<Seq<ChangeRequestModel>, Error>(e),
        },
{
    let items = match v {
        JsonValue::Array(items) => items,
        _ => {
            return Err(Error::Format);
        },
    };
    let n = items.len();
    let mut reqs: Vec<ChangeRequest> = Vec::new();
    let mut i: usize = 0;
    proof {
        assert(items@.skip(0) =~= items@);
        assert(reqs.deep_view() =~= Seq::<ChangeRequestModel>::empty());
    }
    while i < n
        invariant
            0 <= i <= n,
            n == items@.len(),
            spec_decode_pulls(*v) == spec_decode_requests(items@),
            spec_decode_requests(items@) == (match spec_decode_requests(items@.skip(i as int)) {
                Ok(rest) => Ok::<Seq<ChangeRequestModel>, Error>(reqs.deep_view() + rest),
                Err(e) => Err::<Seq<ChangeRequestModel>, Error>(e),
            }),
        decreases n - i,
    {
        proof {
            assert(items@.skip(i as int)[0] == items@[i as int]);
            assert(items@.skip(i as int).drop_first() =~= items@.skip(i + 1));
        }
        let ghost pre = reqs.deep_view();
        match decode_request(&items[i]) {
            Ok(req) => {
                reqs.push(req);
            },
            Err(e) => {
                proof {
                    assert(spec_decode_requests(items@.skip(i as int)) == Err::<
                        Seq<ChangeRequestModel>,
                        Error,
                    >(e));
                    assert(spec_decode_requests(items@) == Err::<Seq<ChangeRequestModel>, Error>(
                        e,
                    ));
                    assert(spec_decode_pulls(*v) == Err::<Seq<ChangeRequestModel>, Error>(e));
                }
                return Err(e);
            },
        }
        proof {
            let m = spec_decode_request(items@[i as int])->Ok_0;
            assert(reqs.deep_view() =~= pre + seq![m]);
            let next = spec_decode_requests(items@.skip(i + 1));
            if next is Ok {
                assert(pre + (seq![m] + next->Ok_0) =~= reqs.deep_view() + next->Ok_0);
            }
        }
        i = i + 1;
    }
    proof {
        assert(items@.skip(n as int) =~= Seq::<JsonValue>::empty());
        assert(reqs.deep_view() + Seq::<ChangeRequestModel>::empty() =~= reqs.deep_view());
    }
    Ok(reqs)
}

/// Parses and decodes a comparison response body: exactly what
/// `spec_decode_compare` says of the parsed value, and a format error when
/// the body is not valid JSON.
pub fn decode_compare_body(body: &str) -> (r: Result<ComparePage, Error>)
    ensures
        match r {
            Ok(page) => (match spec_json_parse(body@) {
                Some(v) => spec_decode_compare(v) == Ok::<ComparePageModel, Error>(page@),
                None => false,
            }),
            Err(e) => (match spec_json_parse(body@) {
                Some(v) => spec_decode_compare(v) == Err::<ComparePageModel, Error>(e),
                None => e == Error::Format,
            }),
        },
{
    match parse_json(body) {
        Ok(v) => {
            let r = decode_compare(&v);
            proof {
                match &r {
                    Ok(page) => {
                        assert(spec_decode_compare(v) == Ok::<ComparePageModel, Error>(page@));
                    },
                    Err(e) => {
                        assert(spec_decode_compare(v) == Err::<ComparePageModel, Error>(*e));
                    },
                }
            }
            r
        },
        Err(e) => Err(e),
    }
}

/// Parses and decodes a "list change requests for a commit" response body:
/// exactly what `spec_decode_pulls` says of the parsed value, and a format
/// error when the body is not valid JSON.
pub fn decode_pulls_body(body: &str) -> (r: Result<Vec<ChangeRequest>, Error>)
    ensures
        match r {
            Ok(reqs) => (match spec_json_parse(body@) {
                Some(v) => spec_decode_pulls(v) == Ok::<Seq<ChangeRequestModel>, Error>(
                    reqs.deep_view(),
                ),
                None => false,
            }),
            Err(e) => (match spec_json_parse(body@) {
                Some(v) => spec_decode_pulls(v) == Err::<Seq<ChangeRequestModel>, Error>(e),
                None => e == Error::Format,
            }),
        },
{
    match parse_json(body) {
        Ok(v) => {
            let r = decode_pulls(&v);
            proof {
                match &r {
                    Ok(reqs) => {
                        assert(spec_decode_pulls(v) == Ok::<Seq<ChangeRequestModel>, Error>(
                            reqs.deep_view(),
                        ));
                    },
                    Err(e) => {
                        assert(spec_decode_pulls(v) == Err::<Seq<ChangeRequestModel>, Error>(*e));
                    },
                }
            }
            r
        },
        Err(e) => Err(e),
    }
}

} // verus!
