//! Searching a cache, held as a list of (id, object) entries, for the first
//! entry that answers a query.

use vstd::prelude::*;

use crate::types::{Object, ObjectId, SequenceNumber};

verus! {

/// The index of the first element of `s` that satisfies `p`, if any.
pub open spec fn first_match<T>(s: Seq<T>, p: spec_fn(T) -> bool) -> Option<int>
    decreases s.len(),
{
    if s.len() == 0 {
        None
    } else {
        match first_match(s.drop_last(), p) {
            Some(i) => Some(i),
            None => if p(s.last()) {
                Some(s.len() - 1)
            } else {
                None
            },
        }
    }
}

/// `first_match` finds the least index whose element satisfies `p`, and
/// finds none exactly when no element does.
pub proof fn lemma_first_match<T>(s: Seq<T>, p: spec_fn(T) -> bool)
    ensures
        match first_match(s, p) {
            Some(i) => {
                &&& 0 <= i < s.len()
                &&& p(s[i])
                &&& forall|j: int| 0 <= j < i ==> !p(#[trigger] s[j])
            },
            None => forall|j: int| 0 <= j < s.len() ==> !p(#[trigger] s[j]),
        },
    decreases s.len(),
{
    if s.len() > 0 {
        lemma_first_match(s.drop_last(), p);
        assert forall|j: int| 0 <= j < s.len() - 1 implies s.drop_last()[j] == s[j] by {}
    }
}

/// The least index `i` with `p(s[i])`, where no earlier element satisfies `p`,
/// is what `first_match` returns.
pub proof fn lemma_first_match_at<T>(s: Seq<T>, p: spec_fn(T) -> bool, i: int)
    requires
        0 <= i < s.len(),
        p(s[i]),
        forall|j: int| 0 <= j < i ==> !p(#[trigger] s[j]),
    ensures
        first_match(s, p) == Some(i),
{
    lemma_first_match(s, p);
    match first_match(s, p) {
        Some(k) => {
            if k < i {
                assert(!p(s[k]));
            } else if k > i {
                assert(!p(s[i]));
            }
        },
        None => {
            assert(!p(s[i]));
        },
    }
}

/// When no element satisfies `p`, `first_match` finds nothing.
pub proof fn lemma_first_match_none<T>(s: Seq<T>, p: spec_fn(T) -> bool)
    requires
        forall|j: int| 0 <= j < s.len() ==> !p(#[trigger] s[j]),
    ensures
        first_match(s, p) is None,
{
    lemma_first_match(s, p);
    if let Some(k) = first_match(s, p) {
        assert(!p(s[k]));
    }
}

/// A cache entry for the object `id`.
pub open spec fn has_id(id: ObjectId) -> spec_fn((ObjectId, Object)) -> bool {
    |e: (ObjectId, Object)| e.0 == id
}

/// A cache entry for the package `id`.
pub open spec fn has_package_id(id: ObjectId) -> spec_fn((ObjectId, Object)) -> bool {
    |e: (ObjectId, Object)| e.1.is_package && e.0 == id
}

/// A cache entry for version `version` of the object `id`.
pub open spec fn has_key(id: ObjectId, version: SequenceNumber) -> spec_fn(
    (ObjectId, Object),
) -> bool {
    |e: (ObjectId, Object)| e.0 == id && e.1.version == version
}

/// The position of the first entry of `cache` for the object `id`.
pub fn find_by_id(cache: &Vec<(ObjectId, Object)>, id: &ObjectId) -> (r: Option<usize>)
    ensures
        match r {
            Some(i) => i < cache@.len() && first_match(cache@, has_id(*id)) == Some(i as int),
            None => first_match(cache@, has_id(*id)) is None,
        },
{
    let n = cache.len();
    let mut i: usize = 0;
    while i < n
        invariant
            n == cache@.len(),
            i <= n,
            forall|j: int| 0 <= j < i ==> !has_id(*id)(#[trigger] cache@[j]),
        decreases n - i,
    {
        if cache[i].0 == *id {
            proof {
                lemma_first_match_at(cache@, has_id(*id), i as int);
            }
            return Some(i);
        }
        i = i + 1;
    }
    proof {
        lemma_first_match_none(cache@, has_id(*id));
    }
    None
}

/// The position of the first entry of `cache` for the package `id`.
pub fn find_package_by_id(cache: &Vec<(ObjectId, Object)>, id: &ObjectId) -> (r: Option<usize>)
    ensures
        match r {
            Some(i) => i < cache@.len() && first_match(cache@, has_package_id(*id)) == Some(i as int),
            None => first_match(cache@, has_package_id(*id)) is None,
        },
{
    let n = cache.len();
    let mut i: usize = 0;
    while i < n
        invariant
            n == cache@.len(),
            i <= n,
            forall|j: int| 0 <= j < i ==> !has_package_id(*id)(#[trigger] cache@[j]),
        decreases n - i,
    {
        if cache[i].1.is_package() && cache[i].0 == *id {
            proof {
                lemma_first_match_at(cache@, has_package_id(*id), i as int);
            }
            return Some(i);
        }
        i = i + 1;
    }
    proof {
        lemma_first_match_none(cache@, has_package_id(*id));
    }
    None
}

/// The position of the first entry of `cache` for version `version` of the
/// object `id`.
pub fn find_by_key(cache: &Vec<(ObjectId, Object)>, id: &ObjectId, version: SequenceNumber) -> (r:
    Option<usize>)
    ensures
        match r {
            Some(i) => i < cache@.len() && first_match(cache@, has_key(*id, version)) == Some(i as int),
            None => first_match(cache@, has_key(*id, version)) is None,
        },
{
    let n = cache.len();
    let mut i: usize = 0;
    while i < n
        invariant
            n == cache@.len(),
            i <= n,
            forall|j: int| 0 <= j < i ==> !has_key(*id, version)(#[trigger] cache@[j]),
        decreases n - i,
    {
        if cache[i].0 == *id && cache[i].1.version() == version {
            proof {
                lemma_first_match_at(cache@, has_key(*id, version), i as int);
            }
            return Some(i);
        }
        i = i + 1;
    }
    proof {
        lemma_first_match_none(cache@, has_key(*id, version));
    }
    None
}

} // verus!
