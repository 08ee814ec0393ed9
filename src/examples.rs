//! Choosing one example of a response for a request.
use vstd::prelude::*;
use crate::model::{find_key, key_index, lemma_key_index_bounds, lookup, Document, Example, MediaExamples, RefOr, Response};
use crate::query::{query_example_matches, query_marker, query_pairs, query_params, QueryString};
use crate::refs::{refers_to, resolve, resolved, MAX_REF_DEPTH};
use crate::text::{chars_of, same_chars};

verus! {

/// The name of the example used when no other one fits the request.
pub open spec fn default_name() -> Seq<char> {
    seq!['d', 'e', 'f', 'a', 'u', 'l', 't']
}

/// Whether the example `name` fits a request to `path` with query
/// parameters `params`: it is named exactly as the path, or states query
/// parameters that the request holds.
pub open spec fn fits(name: Seq<char>, path: Seq<char>, params: Map<Seq<char>, Seq<char>>) -> bool {
    name == path || query_example_matches(name, params)
}

/// Index of the first example at or after `start` that fits the request.
pub open spec fn fit_index(entries: Seq<(String, RefOr<Example>)>, path: Seq<char>, params: Map<Seq<char>, Seq<char>>, start: int) -> Option<int>
    decreases entries.len() - start,
{
    if start < 0 || start >= entries.len() {
        None
    } else if fits(entries[start].0@, path, params) {
        Some(start)
    } else {
        fit_index(entries, path, params, start + 1)
    }
}

/// The example chosen for a request: the first that is named exactly as
/// the request path or whose query parameters the request holds; else the
/// first named `default`; else none.
pub open spec fn chosen_example(entries: Seq<(String, RefOr<Example>)>, path: Seq<char>, params: Map<Seq<char>, Seq<char>>) -> Option<int> {
    match fit_index(entries, path, params, 0) {
        Some(i) => Some(i),
        None => key_index(entries, default_name(), 0),
    }
}

/// The value of an example entry, once its references are followed.
pub open spec fn example_value(document: Document, entry: RefOr<Example>) -> Option<serde_json::Value> {
    match resolved(document.components.examples@, entry, MAX_REF_DEPTH as nat) {
        Some(e) => e.value,
        None => None,
    }
}

/// The example value that a response offers under `content_type` for a
/// request to `path` with query parameters `params`.
pub open spec fn selected_example(document: Document, response: Response, content_type: Seq<char>, path: Seq<char>, params: Map<Seq<char>, Seq<char>>) -> Option<serde_json::Value> {
    match lookup(response.content@, content_type) {
        Some(media) => match media.examples {
            Some(MediaExamples::Single(v)) => Some(v),
            Some(MediaExamples::Named(entries)) => match chosen_example(entries@, path, params) {
                Some(i) => example_value(document, entries@[i].1),
                None => None,
            },
            None => None,
        },
        None => None,
    }
}

/// Index of the example chosen for a request to `path` whose query string
/// is `query`.
pub fn find_example_match(examples: &Vec<(String, RefOr<Example>)>, path: &str, query: &QueryString) -> (r: Option<usize>)
    ensures
        r matches Some(i) ==> chosen_example(examples@, path@, query.params()) == Some(i as int)
            && i < examples@.len(),
        r is None ==> chosen_example(examples@, path@, query.params()) is None,
{
    let ghost e = examples@;
    let ghost params = query.params();
    let path_chars = chars_of(path);
    let default_chars = vec!['d', 'e', 'f', 'a', 'u', 'l', 't'];
    assert(default_chars@ =~= default_name());
    let mut default_hit: Option<usize> = None;
    let mut i: usize = 0;
    while i < examples.len()
        invariant
            i <= e.len(),
            e == examples@,
            params == query.params(),
            path_chars@ == path@,
            default_chars@ == default_name(),
            fit_index(e, path@, params, 0) == fit_index(e, path@, params, i as int),
            match default_hit {
                Some(j) => key_index(e, default_name(), 0) == Some(j as int) && j < e.len(),
                None => key_index(e, default_name(), 0) == key_index(e, default_name(), i as int),
            },
        decreases examples.len() - i,
    {
        let name = chars_of(examples[i].0.as_str());
        if same_chars(name.as_slice(), path_chars.as_slice()) || query.match_example(examples[i].0.as_str()) {
            return Some(i);
        }
        if default_hit.is_none() && same_chars(name.as_slice(), default_chars.as_slice()) {
            default_hit = Some(i);
        }
        i = i + 1;
    }
    proof {
        lemma_key_index_bounds(e, default_name(), 0);
    }
    default_hit
}

/// The example value that `response` offers under `content_type` for a
/// request to `path` with the query string `query`: the literal example of
/// the media type, or the named example that the request picks, with its
/// references followed. `None` where the content type is missing, nothing
/// fits, or a reference is broken.
pub fn select_example<'a>(document: &'a Document, response: &'a Response, content_type: &str, path: &str, query: &str) -> (r: Option<&'a serde_json::Value>)
    ensures
        refers_to(r, selected_example(*document, *response, content_type@, path@, query_params(query@))),
{
    let query_string = QueryString::from_query(query);
    let ct = chars_of(content_type);
    match find_key(&response.content, ct.as_slice()) {
        None => None,
        Some(k) => {
            proof {
                lemma_key_index_bounds(response.content@, ct@, 0);
            }
            match &response.content[k].1.examples {
                None => None,
                Some(MediaExamples::Single(v)) => Some(v),
                Some(MediaExamples::Named(entries)) => {
                    match find_example_match(entries, path, &query_string) {
                        None => None,
                        Some(i) => resolve_example_value(document, &entries[i].1),
                    }
                },
            }
        },
    }
}

/// The value of an example entry, once its references are followed.
pub fn resolve_example_value<'a>(document: &'a Document, entry: &'a RefOr<Example>) -> (r: Option<&'a serde_json::Value>)
    ensures
        refers_to(r, example_value(*document, *entry)),
{
    match resolve(&document.components.examples, entry) {
        Some(example) => match &example.value {
            Some(v) => Some(v),
            None => None,
        },
        None => None,
    }
}

proof fn lemma_fit_index_found(entries: Seq<(String, RefOr<Example>)>, path: Seq<char>, params: Map<Seq<char>, Seq<char>>, start: int, i: int)
    requires
        0 <= start <= i < entries.len(),
        fits(entries[i].0@, path, params),
    ensures
        fit_index(entries, path, params, start) matches Some(j) && j <= i,
    decreases i - start,
{
    if !fits(entries[start].0@, path, params) {
        lemma_fit_index_found(entries, path, params, start + 1, i);
    }
}

proof fn lemma_fit_index_hit(entries: Seq<(String, RefOr<Example>)>, path: Seq<char>, params: Map<Seq<char>, Seq<char>>, start: int)
    ensures
        fit_index(entries, path, params, start) matches Some(j) ==> start <= j < entries.len()
            && fits(entries[j].0@, path, params) && forall|k: int|
            start <= k < j ==> !fits(#[trigger] entries[k].0@, path, params),
    decreases entries.len() - start,
{
    if 0 <= start < entries.len() && !fits(entries[start].0@, path, params) {
        lemma_fit_index_hit(entries, path, params, start + 1);
    }
}

/// Where an example is named exactly as the request path, an example that
/// fits the request is chosen, never one only for being named `default`:
/// the first that fits, which is the one so named unless an earlier one
/// matches the query.
pub proof fn lemma_exact_name_wins(entries: Seq<(String, RefOr<Example>)>, path: Seq<char>, params: Map<Seq<char>, Seq<char>>, i: int)
    requires
        0 <= i < entries.len(),
        entries[i].0@ == path,
    ensures
        chosen_example(entries, path, params) matches Some(j) && j <= i && fits(entries[j].0@, path, params)
            && forall|k: int| 0 <= k < j ==> !fits(#[trigger] entries[k].0@, path, params),
        (forall|k: int| 0 <= k < i ==> !query_example_matches(#[trigger] entries[k].0@, params))
            ==> (chosen_example(entries, path, params) matches Some(j) && entries[j].0@ == path),
{
    lemma_fit_index_found(entries, path, params, 0, i);
    lemma_fit_index_hit(entries, path, params, 0);
}

/// The example named `default` is chosen only where no example fits the
/// request, and then the first so named is.
pub proof fn lemma_default_last_resort(entries: Seq<(String, RefOr<Example>)>, path: Seq<char>, params: Map<Seq<char>, Seq<char>>)
    ensures
        (exists|i: int| 0 <= i < entries.len() && fits(entries[i].0@, path, params))
            ==> (chosen_example(entries, path, params) matches Some(j) && fits(entries[j].0@, path, params)),
        (forall|i: int| 0 <= i < entries.len() ==> !fits(#[trigger] entries[i].0@, path, params))
            ==> chosen_example(entries, path, params) == key_index(entries, default_name(), 0),
{
    lemma_fit_index_hit(entries, path, params, 0);
    if exists|i: int| 0 <= i < entries.len() && fits(entries[i].0@, path, params) {
        let i = choose|i: int| 0 <= i < entries.len() && fits(entries[i].0@, path, params);
        lemma_fit_index_found(entries, path, params, 0, i);
    }
}

/// The chosen example is named exactly as the request path, states query
/// parameters that the request holds, or is named `default`: a name such as
/// a path template is never read as a pattern.
pub proof fn lemma_chosen_name(entries: Seq<(String, RefOr<Example>)>, path: Seq<char>, params: Map<Seq<char>, Seq<char>>)
    ensures
        chosen_example(entries, path, params) matches Some(j) ==> 0 <= j < entries.len() && (
        entries[j].0@ == path || query_example_matches(entries[j].0@, params) || entries[j].0@
            == default_name()),
{
    lemma_fit_index_hit(entries, path, params, 0);
    lemma_key_index_bounds(entries, default_name(), 0);
}

/// Parameters that a request holds beyond those an example states never
/// keep the example from matching.
pub proof fn lemma_extra_params_keep_match(name: Seq<char>, params: Map<Seq<char>, Seq<char>>, more: Map<Seq<char>, Seq<char>>)
    requires
        query_example_matches(name, params),
        params.submap_of(more),
    ensures
        query_example_matches(name, more),
{
    let pairs = query_pairs(name.skip(query_marker().len() as int));
    assert forall|i: int| 0 <= i < pairs.len() implies more.dom().contains(#[trigger] pairs[i].0)
        && more[pairs[i].0] == pairs[i].1 by {
        assert(params.dom().contains(pairs[i].0));
    }
}

} // verus!
