//! Query strings, and example names that state the query parameters they
//! stand for (`query:page=1&limit=5`).
use vstd::prelude::*;
use crate::text::{chars_of, has_prefix, same_chars, split_chars, split_on, starts_with, views_of};

verus! {

/// Key and value of one `key=value` piece; a piece without `=` has an empty
/// value, and text after a second `=` is ignored.
pub open spec fn query_pair(piece: Seq<char>) -> (Seq<char>, Seq<char>) {
    let parts = split_on(piece, '=');
    (parts[0], if parts.len() > 1 { parts[1] } else { Seq::empty() })
}

/// The pairs of a query string, in order, one for each `&`-separated piece.
pub open spec fn query_pairs(q: Seq<char>) -> Seq<(Seq<char>, Seq<char>)> {
    split_on(q, '&').map_values(|p: Seq<char>| query_pair(p))
}

/// Pairs gathered into a map; a later pair overrides an earlier one with the
/// same key.
pub open spec fn pairs_map(pairs: Seq<(Seq<char>, Seq<char>)>) -> Map<Seq<char>, Seq<char>>
    decreases pairs.len(),
{
    if pairs.len() == 0 {
        Map::empty()
    } else {
        pairs_map(pairs.drop_last()).insert(pairs.last().0, pairs.last().1)
    }
}

/// The parameters of a query string.
pub open spec fn query_params(q: Seq<char>) -> Map<Seq<char>, Seq<char>> {
    pairs_map(query_pairs(q))
}

/// The marker that opens an example name stating query parameters.
pub open spec fn query_marker() -> Seq<char> {
    seq!['q', 'u', 'e', 'r', 'y', ':']
}

/// Every pair of `pairs` is in `params` with the same value.
pub open spec fn pairs_within(pairs: Seq<(Seq<char>, Seq<char>)>, params: Map<Seq<char>, Seq<char>>) -> bool {
    forall|i: int|
        0 <= i < pairs.len() ==> params.dom().contains(#[trigger] pairs[i].0) && params[pairs[i].0]
            == pairs[i].1
}

/// Whether the example `name` states query parameters, every pair of which
/// `params` holds with the same value; `params` may hold more.
pub open spec fn query_example_matches(name: Seq<char>, params: Map<Seq<char>, Seq<char>>) -> bool {
    starts_with(name, query_marker()) && pairs_within(
        query_pairs(name.skip(query_marker().len() as int)),
        params,
    )
}

pub open spec fn pair_views(pairs: Seq<(Vec<char>, Vec<char>)>) -> Seq<(Seq<char>, Seq<char>)> {
    pairs.map_values(|p: (Vec<char>, Vec<char>)| (p.0@, p.1@))
}

/// The parameters of a request's query string.
pub struct QueryString {
    /// The `key=value` pairs in the order of the query string.
    pub pairs: Vec<(Vec<char>, Vec<char>)>,
}

impl QueryString {
    pub open spec fn params(&self) -> Map<Seq<char>, Seq<char>> {
        pairs_map(pair_views(self.pairs@))
    }

    /// Parses `query`, the part of a request target after `?` (without it).
    pub fn from_query(query: &str) -> (r: QueryString)
        ensures
            pair_views(r.pairs@) == query_pairs(query@),
            r.params() == query_params(query@),
    {
        let chars = chars_of(query);
        QueryString { pairs: parse_pairs(chars.as_slice()) }
    }

    /// Whether `example_name` states query parameters, each pair of which
    /// this query string holds with an equal value.
    pub fn match_example(&self, example_name: &str) -> (r: bool)
        ensures
            r == query_example_matches(example_name@, self.params()),
    {
        let name = chars_of(example_name);
        let marker = vec!['q', 'u', 'e', 'r', 'y', ':'];
        assert(marker@ =~= query_marker());
        if !has_prefix(name.as_slice(), marker.as_slice()) {
            return false;
        }
        let mut rest: Vec<char> = Vec::new();
        let mut i: usize = marker.len();
        while i < name.len()
            invariant
                marker@.len() <= i <= name@.len(),
                rest@ == name@.subrange(marker@.len() as int, i as int),
            decreases name.len() - i,
        {
            rest.push(name[i]);
            i = i + 1;
        }
        assert(rest@ =~= name@.skip(query_marker().len() as int));
        let wanted = parse_pairs(rest.as_slice());
        subset_of(&wanted, &self.pairs)
    }
}

fn parse_pair(piece: &[char]) -> (r: (Vec<char>, Vec<char>))
    ensures
        (r.0@, r.1@) == query_pair(piece@),
{
    let parts = split_chars(piece, '=');
    assert(views_of(parts@).len() == parts@.len());
    assert(views_of(parts@)[0] == parts@[0]@);
    let key = parts[0].clone();
    assert(key@ =~= parts@[0]@);
    if parts.len() > 1 {
        assert(views_of(parts@)[1] == parts@[1]@);
        let value = parts[1].clone();
        assert(value@ =~= parts@[1]@);
        (key, value)
    } else {
        (key, Vec::new())
    }
}

fn parse_pairs(q: &[char]) -> (r: Vec<(Vec<char>, Vec<char>)>)
    ensures
        pair_views(r@) == query_pairs(q@),
{
    let pieces = split_chars(q, '&');
    let mut r: Vec<(Vec<char>, Vec<char>)> = Vec::new();
    let mut i: usize = 0;
    while i < pieces.len()
        invariant
            i <= pieces@.len(),
            views_of(pieces@) == split_on(q@, '&'),
            pieces@.len() == split_on(q@, '&').len(),
            query_pairs(q@).len() == split_on(q@, '&').len(),
            r@.len() == i,
            pair_views(r@) == query_pairs(q@).subrange(0, i as int),
        decreases pieces.len() - i,
    {
        assert(views_of(pieces@)[i as int] == pieces@[i as int]@);
        let pair = parse_pair(pieces[i].as_slice());
        assert(query_pairs(q@)[i as int] == query_pair(split_on(q@, '&')[i as int]));
        let ghost old_r = r@;
        let ghost pv = (pair.0@, pair.1@);
        r.push(pair);
        assert(r@ == old_r.push(r@.last()));
        assert(pair_views(r@)[i as int] == pv);
        assert(pair_views(r@).drop_last() =~= pair_views(old_r));
        assert(pair_views(r@) =~= query_pairs(q@).subrange(0, i as int + 1));
        i = i + 1;
    }
    assert(query_pairs(q@).subrange(0, i as int) =~= query_pairs(q@));
    r
}

/// The value under `key` is that of its last pair.
proof fn lemma_pairs_map_last(pairs: Seq<(Seq<char>, Seq<char>)>, key: Seq<char>, j: int)
    requires
        0 <= j < pairs.len(),
        pairs[j].0 == key,
        forall|i: int| j < i < pairs.len() ==> pairs[i].0 != key,
    ensures
        pairs_map(pairs).dom().contains(key),
        pairs_map(pairs)[key] == pairs[j].1,
    decreases pairs.len(),
{
    if j < pairs.len() - 1 {
        lemma_pairs_map_last(pairs.drop_last(), key, j);
    }
}

/// Exactly the keys of the pairs are in the map.
proof fn lemma_pairs_map_dom(pairs: Seq<(Seq<char>, Seq<char>)>, key: Seq<char>)
    ensures
        pairs_map(pairs).dom().contains(key) <==> exists|i: int| 0 <= i < pairs.len() && pairs[i].0 == key,
    decreases pairs.len(),
{
    if pairs.len() > 0 {
        lemma_pairs_map_dom(pairs.drop_last(), key);
        if pairs_map(pairs).dom().contains(key) && pairs.last().0 != key {
            let i = choose|i: int| 0 <= i < pairs.len() - 1 && pairs.drop_last()[i].0 == key;
            assert(pairs[i].0 == key);
        }
        if exists|i: int| 0 <= i < pairs.len() && pairs[i].0 == key {
            let i = choose|i: int| 0 <= i < pairs.len() && pairs[i].0 == key;
            if i < pairs.len() - 1 {
                assert(pairs.drop_last()[i].0 == key);
            }
        }
    }
}

/// Index of the last pair with key `key`: the one whose value the map keeps.
fn last_with_key(pairs: &Vec<(Vec<char>, Vec<char>)>, key: &[char]) -> (r: Option<usize>)
    ensures
        r matches Some(j) ==> j < pairs@.len() && pairs_map(pair_views(pairs@)).dom().contains(key@)
            && pairs_map(pair_views(pairs@))[key@] == pairs@[j as int].1@,
        r is None ==> !pairs_map(pair_views(pairs@)).dom().contains(key@),
{
    let ghost pv = pair_views(pairs@);
    let mut k: usize = pairs.len();
    while k > 0
        invariant
            k <= pairs@.len(),
            pv == pair_views(pairs@),
            forall|i: int| k <= i < pv.len() ==> pv[i].0 != key@,
        decreases k,
    {
        let j = k - 1;
        if same_chars(pairs[j].0.as_slice(), key) {
            proof {
                lemma_pairs_map_last(pv, key@, j as int);
            }
            return Some(j);
        }
        k = j;
    }
    proof {
        lemma_pairs_map_dom(pv, key@);
    }
    None
}

/// Whether every pair of `wanted` is in `given`, read as a map, with the
/// same value.
fn subset_of(wanted: &Vec<(Vec<char>, Vec<char>)>, given: &Vec<(Vec<char>, Vec<char>)>) -> (r: bool)
    ensures
        r == pairs_within(pair_views(wanted@), pairs_map(pair_views(given@))),
{
    let ghost wv = pair_views(wanted@);
    let ghost g = pairs_map(pair_views(given@));
    let mut i: usize = 0;
    while i < wanted.len()
        invariant
            i <= wanted@.len(),
            wv == pair_views(wanted@),
            wv.len() == wanted@.len(),
            g == pairs_map(pair_views(given@)),
            forall|j: int| 0 <= j < i ==> g.dom().contains(#[trigger] wv[j].0) && g[wv[j].0] == wv[j].1,
        decreases wanted.len() - i,
    {
        assert(wv[i as int] == (wanted@[i as int].0@, wanted@[i as int].1@));
        match last_with_key(given, wanted[i].0.as_slice()) {
            Some(b) => {
                if !same_chars(wanted[i].1.as_slice(), given[b].1.as_slice()) {
                    assert(!(g.dom().contains(wv[i as int].0) && g[wv[i as int].0] == wv[i as int].1));
                    return false;
                }
            },
            None => {
                assert(!g.dom().contains(wv[i as int].0));
                return false;
            },
        }
        i = i + 1;
    }
    true
}

} // verus!
