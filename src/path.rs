//! Matching a request path against the path templates of a document.
use vstd::prelude::*;
use crate::model::{Document, PathItem};
use crate::text::{chars_of, path_segments, same_chars, segments, views_of};

verus! {

/// A template segment that stands for any value, such as `{petId}`.
pub open spec fn is_param(seg: Seq<char>) -> bool {
    seg.len() > 0 && seg[0] == '{' && seg.last() == '}'
}

/// Segment lists of equal length that agree wherever the template has no
/// parameter.
pub open spec fn segments_match(t: Seq<Seq<char>>, p: Seq<Seq<char>>) -> bool {
    t.len() == p.len() && forall|i: int| 0 <= i < t.len() ==> is_param(t[i]) || t[i] == p[i]
}

/// The path template `template` matches the concrete path `path`.
pub open spec fn template_matches(template: Seq<char>, path: Seq<char>) -> bool {
    segments_match(segments(template), segments(path))
}

/// Index of the first path entry at or after `start` whose template matches
/// `path`.
pub open spec fn template_index(paths: Seq<(String, PathItem)>, path: Seq<char>, start: int) -> Option<int>
    decreases paths.len() - start,
{
    if start < 0 || start >= paths.len() {
        None
    } else if template_matches(paths[start].0@, path) {
        Some(start)
    } else {
        template_index(paths, path, start + 1)
    }
}

pub proof fn lemma_template_index_bounds(paths: Seq<(String, PathItem)>, path: Seq<char>, start: int)
    ensures
        template_index(paths, path, start) matches Some(i) ==> start <= i < paths.len()
            && template_matches(paths[i].0@, path),
    decreases paths.len() - start,
{
    if 0 <= start < paths.len() && !template_matches(paths[start].0@, path) {
        lemma_template_index_bounds(paths, path, start + 1);
    }
}

fn is_param_segment(seg: &[char]) -> (r: bool)
    ensures
        r == is_param(seg@),
{
    seg.len() > 0 && seg[0] == '{' && seg[seg.len() - 1] == '}'
}

fn match_segments(t: &Vec<Vec<char>>, p: &Vec<Vec<char>>) -> (r: bool)
    ensures
        r == segments_match(views_of(t@), views_of(p@)),
{
    if t.len() != p.len() {
        return false;
    }
    let mut i: usize = 0;
    while i < t.len()
        invariant
            t@.len() == p@.len(),
            i <= t@.len(),
            forall|j: int| 0 <= j < i ==> is_param(t@[j]@) || t@[j]@ == p@[j]@,
        decreases t.len() - i,
    {
        if !is_param_segment(t[i].as_slice()) && !same_chars(t[i].as_slice(), p[i].as_slice()) {
            assert(views_of(t@)[i as int] == t@[i as int]@);
            assert(views_of(p@)[i as int] == p@[i as int]@);
            return false;
        }
        i = i + 1;
    }
    assert forall|j: int| 0 <= j < views_of(t@).len() implies is_param(views_of(t@)[j]) || views_of(t@)[j]
        == views_of(p@)[j] by {
        assert(views_of(t@)[j] == t@[j]@);
        assert(views_of(p@)[j] == p@[j]@);
    }
    true
}

/// Whether `url` matches at least one of the templates `routes`.
pub fn match_url(url: &str, routes: &[&str]) -> (r: bool)
    ensures
        r == exists|i: int| 0 <= i < routes@.len() && template_matches(routes@[i]@, url@),
{
    let url_chars = chars_of(url);
    let url_parts = path_segments(url_chars.as_slice());
    let mut k: usize = 0;
    while k < routes.len()
        invariant
            k <= routes@.len(),
            views_of(url_parts@) == segments(url@),
            forall|j: int| 0 <= j < k ==> !template_matches(routes@[j]@, url@),
        decreases routes.len() - k,
    {
        let route_chars = chars_of(routes[k]);
        let route_parts = path_segments(route_chars.as_slice());
        if match_segments(&route_parts, &url_parts) {
            return true;
        }
        k = k + 1;
    }
    false
}

/// The entry of the first template of `document` that matches `path`.
pub fn load_path<'a>(document: &'a Document, path: &str) -> (r: Option<&'a PathItem>)
    ensures
        match template_index(document.paths@, path@, 0) {
            Some(i) => r == Some(&document.paths@[i].1),
            None => r is None,
        },
{
    proof {
        lemma_template_index_bounds(document.paths@, path@, 0);
    }
    let path_chars = chars_of(path);
    let path_parts = path_segments(path_chars.as_slice());
    let mut k: usize = 0;
    while k < document.paths.len()
        invariant
            k <= document.paths@.len(),
            views_of(path_parts@) == segments(path@),
            template_index(document.paths@, path@, 0) == template_index(document.paths@, path@, k as int),
        decreases document.paths.len() - k,
    {
        let template = chars_of(document.paths[k].0.as_str());
        let template_parts = path_segments(template.as_slice());
        if match_segments(&template_parts, &path_parts) {
            return Some(&document.paths[k].1);
        }
        k = k + 1;
    }
    None
}

/// Without parameters in the template, a path matches exactly when its
/// non-empty segments are those of the template.
pub proof fn lemma_literal_template(template: Seq<char>, path: Seq<char>)
    requires
        forall|i: int| 0 <= i < segments(template).len() ==> !is_param(#[trigger] segments(template)[i]),
    ensures
        template_matches(template, path) == (segments(template) == segments(path)),
{
    if template_matches(template, path) {
        assert(segments(template) =~= segments(path));
    }
}

/// A path matches a template exactly when it has as many segments as the
/// template and agrees with it on every segment that is not a parameter:
/// what a parameter segment of the path holds makes no difference.
pub proof fn lemma_param_template(template: Seq<char>, path: Seq<char>, other: Seq<char>)
    requires
        segments(path).len() == segments(other).len(),
        forall|i: int|
            0 <= i < segments(path).len() && !is_param(#[trigger] segments(template)[i])
                ==> segments(path)[i] == segments(other)[i],
    ensures
        template_matches(template, path) == template_matches(template, other),
        segments(path).len() != segments(template).len() ==> !template_matches(template, path),
{
}

} // verus!
