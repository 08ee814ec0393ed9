//! The in-memory form of an OpenAPI document that resolution reads.
//!
//! Every mapping of the document is a list of `(key, value)` pairs kept in
//! document order; where a key occurs twice, lookups take the first.
use vstd::prelude::*;
use crate::text::{chars_of, same_chars};

verus! {

/// An example value: arbitrary JSON, carried through resolution untouched.
#[verifier::external_type_specification]
#[verifier::external_body]
pub struct ExValue(serde_json::Value);

/// HTTP methods
#[derive(Clone, Copy, Debug, PartialEq, Eq, Structural)]
pub enum Method {
    Get,
    Post,
    Put,
    Delete,
    Options,
    Head,
    Patch,
    Trace,
}

/// The upper-case form of a string, as `str::to_uppercase` gives it.
pub uninterp spec fn upper_of(s: Seq<char>) -> Seq<char>;

/// Relies on `str::to_uppercase`: the upper-case form of `s`, which depends
/// on the characters of `s` alone.
#[verifier::external_body]
fn uppercase(s: &str) -> (r: String)
    ensures
        r@ == upper_of(s@),
{
    s.to_uppercase()
}

/// The method whose name, in upper case, is `s`.
pub open spec fn method_named(s: Seq<char>) -> Option<Method> {
    if s == seq!['G', 'E', 'T'] {
        Some(Method::Get)
    } else if s == seq!['P', 'O', 'S', 'T'] {
        Some(Method::Post)
    } else if s == seq!['P', 'U', 'T'] {
        Some(Method::Put)
    } else if s == seq!['D', 'E', 'L', 'E', 'T', 'E'] {
        Some(Method::Delete)
    } else if s == seq!['O', 'P', 'T', 'I', 'O', 'N', 'S'] {
        Some(Method::Options)
    } else if s == seq!['H', 'E', 'A', 'D'] {
        Some(Method::Head)
    } else if s == seq!['P', 'A', 'T', 'C', 'H'] {
        Some(Method::Patch)
    } else if s == seq!['T', 'R', 'A', 'C', 'E'] {
        Some(Method::Trace)
    } else {
        None
    }
}

impl Method {
    /// The method whose upper-case name is exactly `token`.
    pub fn from_upper(token: &str) -> (r: Option<Method>)
        ensures
            r == method_named(token@),
    {
        let t = chars_of(token);
        let get = vec!['G', 'E', 'T'];
        let post = vec!['P', 'O', 'S', 'T'];
        let put = vec!['P', 'U', 'T'];
        let delete = vec!['D', 'E', 'L', 'E', 'T', 'E'];
        let options = vec!['O', 'P', 'T', 'I', 'O', 'N', 'S'];
        let head = vec!['H', 'E', 'A', 'D'];
        let patch = vec!['P', 'A', 'T', 'C', 'H'];
        let trace = vec!['T', 'R', 'A', 'C', 'E'];
        assert(get@ =~= seq!['G', 'E', 'T']);
        assert(post@ =~= seq!['P', 'O', 'S', 'T']);
        assert(put@ =~= seq!['P', 'U', 'T']);
        assert(delete@ =~= seq!['D', 'E', 'L', 'E', 'T', 'E']);
        assert(options@ =~= seq!['O', 'P', 'T', 'I', 'O', 'N', 'S']);
        assert(head@ =~= seq!['H', 'E', 'A', 'D']);
        assert(patch@ =~= seq!['P', 'A', 'T', 'C', 'H']);
        assert(trace@ =~= seq!['T', 'R', 'A', 'C', 'E']);
        if same_chars(t.as_slice(), get.as_slice()) {
            Some(Method::Get)
        } else if same_chars(t.as_slice(), post.as_slice()) {
            Some(Method::Post)
        } else if same_chars(t.as_slice(), put.as_slice()) {
            Some(Method::Put)
        } else if same_chars(t.as_slice(), delete.as_slice()) {
            Some(Method::Delete)
        } else if same_chars(t.as_slice(), options.as_slice()) {
            Some(Method::Options)
        } else if same_chars(t.as_slice(), head.as_slice()) {
            Some(Method::Head)
        } else if same_chars(t.as_slice(), patch.as_slice()) {
            Some(Method::Patch)
        } else if same_chars(t.as_slice(), trace.as_slice()) {
            Some(Method::Trace)
        } else {
            None
        }
    }

    /// The method named by `token` in any mix of cases (`get`, `Get`, `GET`).
    pub fn from_token(token: &str) -> (r: Option<Method>)
        ensures
            r == method_named(upper_of(token@)),
    {
        let upper = uppercase(token);
        Method::from_upper(upper.as_str())
    }
}

/// A definition given inline, or a reference by name into the component
/// registry.
pub enum RefOr<T> {
    Item(T),
    Ref(String),
}

/// A named example; it may carry no value.
pub struct Example {
    pub value: Option<serde_json::Value>,
}

/// What a media type offers: one literal example, or named examples.
pub enum MediaExamples {
    Single(serde_json::Value),
    Named(Vec<(String, RefOr<Example>)>),
}

pub struct MediaType {
    pub examples: Option<MediaExamples>,
}

pub struct Response {
    pub description: Option<String>,
    /// Keyed by content type, such as `application/json`.
    pub content: Vec<(String, MediaType)>,
}

pub struct Operation {
    pub operation_id: Option<String>,
    /// Keyed by status code in decimal (`"200"`), or `"default"`.
    pub responses: Vec<(String, RefOr<Response>)>,
}

/// The operations of one path template, at most one per method.
pub struct PathItem {
    pub operations: Vec<(Method, Operation)>,
}

/// Shared definitions that references name.
pub struct Components {
    pub responses: Vec<(String, RefOr<Response>)>,
    pub examples: Vec<(String, RefOr<Example>)>,
}

pub struct Document {
    /// Keyed by path template, such as `/pets/{petId}`.
    pub paths: Vec<(String, PathItem)>,
    pub components: Components,
}

/// Index of the first entry at or after `start` whose key is `key`.
pub open spec fn key_index<T>(entries: Seq<(String, T)>, key: Seq<char>, start: int) -> Option<int>
    decreases entries.len() - start,
{
    if start < 0 || start >= entries.len() {
        None
    } else if entries[start].0@ == key {
        Some(start)
    } else {
        key_index(entries, key, start + 1)
    }
}

/// The value of the first entry whose key is `key`.
pub open spec fn lookup<T>(entries: Seq<(String, T)>, key: Seq<char>) -> Option<T> {
    match key_index(entries, key, 0) {
        Some(i) => Some(entries[i].1),
        None => None,
    }
}

pub proof fn lemma_key_index_bounds<T>(entries: Seq<(String, T)>, key: Seq<char>, start: int)
    ensures
        key_index(entries, key, start) matches Some(i) ==> start <= i < entries.len()
            && entries[i].0@ == key,
    decreases entries.len() - start,
{
    if 0 <= start < entries.len() && entries[start].0@ != key {
        lemma_key_index_bounds(entries, key, start + 1);
    }
}

/// Index of the first entry whose key is `key`.
pub fn find_key<T>(entries: &Vec<(String, T)>, key: &[char]) -> (r: Option<usize>)
    ensures
        r matches Some(i) ==> key_index(entries@, key@, 0) == Some(i as int),
        r is None ==> key_index(entries@, key@, 0) is None,
{
    let mut i: usize = 0;
    while i < entries.len()
        invariant
            i <= entries@.len(),
            key_index(entries@, key@, 0) == key_index(entries@, key@, i as int),
        decreases entries.len() - i,
    {
        let name = crate::text::chars_of(entries[i].0.as_str());
        if crate::text::same_chars(name.as_slice(), key) {
            return Some(i);
        }
        i = i + 1;
    }
    None
}

} // verus!
