//! Following references through the component registry, with a bound on
//! the length of a chain so that cyclic documents still terminate.
use vstd::prelude::*;
use crate::model::{find_key, lemma_key_index_bounds, lookup, RefOr};
use crate::text::chars_of;

verus! {

/// The most references followed while resolving one definition.
pub const MAX_REF_DEPTH: usize = 8;

/// What `item` resolves to when at most `depth` references may be followed.
pub open spec fn resolved<T>(registry: Seq<(String, RefOr<T>)>, item: RefOr<T>, depth: nat) -> Option<T>
    decreases depth,
{
    match item {
        RefOr::Item(x) => Some(x),
        RefOr::Ref(name) => if depth == 0 {
            None
        } else {
            match lookup(registry, name@) {
                Some(next) => resolved(registry, next, (depth - 1) as nat),
                None => None,
            }
        },
    }
}

/// `r` is a reference to the value that `v` holds, or both are absent.
pub open spec fn refers_to<T>(r: Option<&T>, v: Option<T>) -> bool {
    match r {
        Some(x) => v == Some(*x),
        None => v is None,
    }
}

/// Every name of `names` but the last is registered as a reference to the
/// name after it.
pub open spec fn ref_chain<T>(registry: Seq<(String, RefOr<T>)>, names: Seq<Seq<char>>) -> bool {
    forall|i: int|
        0 <= i < names.len() - 1 ==> (#[trigger] lookup(registry, names[i]) matches Some(
            RefOr::Ref(next),
        ) && next@ == names[i + 1])
}

/// The definition `item` stands for, following at most `MAX_REF_DEPTH`
/// references; `None` where a name is missing or the chain is too long.
pub fn resolve<'a, T>(registry: &'a Vec<(String, RefOr<T>)>, item: &'a RefOr<T>) -> (r: Option<&'a T>)
    ensures
        refers_to(r, resolved(registry@, *item, MAX_REF_DEPTH as nat)),
{
    let mut cur: &'a RefOr<T> = item;
    let mut depth: usize = 0;
    loop
        invariant
            depth <= MAX_REF_DEPTH,
            resolved(registry@, *item, MAX_REF_DEPTH as nat) == resolved(
                registry@,
                *cur,
                (MAX_REF_DEPTH - depth) as nat,
            ),
        decreases MAX_REF_DEPTH - depth,
    {
        match cur {
            RefOr::Item(x) => {
                return Some(x);
            },
            RefOr::Ref(name) => {
                if depth == MAX_REF_DEPTH {
                    return None;
                }
                let key = chars_of(name.as_str());
                match find_key(registry, key.as_slice()) {
                    None => {
                        return None;
                    },
                    Some(i) => {
                        proof {
                            lemma_key_index_bounds(registry@, key@, 0);
                        }
                        cur = &registry[i].1;
                        depth = depth + 1;
                    },
                }
            },
        }
    }
}

/// A reference to a registered reference to an inline definition resolves
/// to that definition.
pub proof fn lemma_two_step_ref<T>(registry: Seq<(String, RefOr<T>)>, first: String, second: String, target: T)
    requires
        lookup(registry, first@) == Some(RefOr::<T>::Ref(second)),
        lookup(registry, second@) == Some(RefOr::Item(target)),
    ensures
        resolved(registry, RefOr::Ref(first), MAX_REF_DEPTH as nat) == Some(target),
{
    reveal_with_fuel(resolved, 3);
}

/// A chain of references longer than the depth allowed resolves to nothing.
pub proof fn lemma_long_chain_unresolved<T>(registry: Seq<(String, RefOr<T>)>, names: Seq<Seq<char>>, start: String, depth: nat)
    requires
        ref_chain(registry, names),
        names.len() > depth,
        start@ == names[0],
    ensures
        resolved(registry, RefOr::Ref(start), depth) is None,
    decreases depth,
{
    if depth > 0 {
        let next = lookup(registry, names[0]);
        assert(next matches Some(RefOr::Ref(n)) && n@ == names[1]);
        if let Some(RefOr::Ref(n)) = next {
            let rest = names.subrange(1, names.len() as int);
            assert forall|i: int| 0 <= i < rest.len() - 1 implies (#[trigger] lookup(registry, rest[i]) matches Some(
                RefOr::Ref(m),
            ) && m@ == rest[i + 1]) by {
                assert(lookup(registry, names[i + 1]) matches Some(RefOr::Ref(m)) && m@ == names[i + 2]);
            }
            lemma_long_chain_unresolved(registry, rest, n, (depth - 1) as nat);
        }
    }
}

/// A definition registered as a reference to itself resolves to nothing.
pub proof fn lemma_self_ref_unresolved<T>(registry: Seq<(String, RefOr<T>)>, name: String, depth: nat)
    requires
        lookup(registry, name@) == Some(RefOr::<T>::Ref(name)),
    ensures
        resolved(registry, RefOr::Ref(name), depth) is None,
    decreases depth,
{
    if depth > 0 {
        lemma_self_ref_unresolved(registry, name, (depth - 1) as nat);
    }
}

} // verus!
