//! Picking the crates of a registry dump that the analyses run on: the most
//! downloaded ones, most downloaded first, each with its latest version.

use vstd::prelude::*;
use rayon::slice::ParallelSliceMut;
use std::collections::HashMap;

verus! {

/// Pairs compare by their first field, then by their second.
pub open spec fn pair_le(a: (u64, usize), b: (u64, usize)) -> bool {
    a.0 < b.0 || (a.0 == b.0 && a.1 <= b.1)
}

/// Relies on rayon's `ParallelSliceMut::par_sort_unstable`: the same pairs,
/// in ascending order.
#[verifier::external_body]
fn par_sort_pairs(v: &mut Vec<(u64, usize)>)
    ensures
        final(v)@.to_multiset() == old(v)@.to_multiset(),
        forall|i: int, j: int| 0 <= i < j < final(v)@.len() ==> pair_le(final(v)@[i], final(v)@[j]),
{
    v.as_mut_slice().par_sort_unstable();
}

/// The sort key of entry `i`: most downloaded first, then by position.
pub open spec fn key_of(downloads: Seq<u64>, i: int) -> (u64, usize) {
    ((u64::MAX - downloads[i]) as u64, i as usize)
}

/// The positions of the `max` most downloaded entries, most downloaded
/// first; all of them when there are fewer.
pub fn rank_by_downloads(downloads: &Vec<u64>, max: usize) -> (r: Vec<usize>)
    ensures
        r@.len() == if max < downloads@.len() {
            max as int
        } else {
            downloads@.len() as int
        },
        r@.no_duplicates(),
        forall|j: int| 0 <= j < r@.len() ==> #[trigger] r@[j] < downloads@.len(),
        forall|j: int, k: int|
            0 <= j < k < r@.len() ==> downloads@[r@[j] as int] >= downloads@[r@[k] as int],
        forall|i: int|
            0 <= i < downloads@.len() && !r@.contains(i as usize) && r@.len() > 0 ==> #[trigger] downloads@[i]
                <= downloads@[r@.last() as int],
{
    let n = downloads.len();
    let mut keys: Vec<(u64, usize)> = Vec::new();
    let mut i: usize = 0;
    while i < n
        invariant
            n == downloads@.len(),
            i <= n,
            keys@ == Seq::new(i as nat, |k: int| key_of(downloads@, k)),
        decreases n - i,
    {
        keys.push((u64::MAX - downloads[i], i));
        i = i + 1;
        assert(keys@ =~= Seq::new(i as nat, |k: int| key_of(downloads@, k)));
    }
    let ghost orig = keys@;
    proof {
        assert(orig.no_duplicates());
        orig.lemma_multiset_has_no_duplicates();
    }
    par_sort_pairs(&mut keys);
    let ghost sorted = keys@;
    proof {
        broadcast use vstd::seq_lib::group_to_multiset_ensures;
        assert forall|x: (u64, usize)| sorted.to_multiset().contains(x) implies sorted.to_multiset().count(x) == 1 by {
            assert(orig.to_multiset().contains(x));
        }
        sorted.lemma_multiset_has_no_duplicates_conv();
        assert(sorted.len() == sorted.to_multiset().len());
        assert(orig.len() == orig.to_multiset().len());
        assert(sorted.len() == n);
        assert forall|p: int| 0 <= p < sorted.len() implies #[trigger] sorted[p] == key_of(downloads@, sorted[p].1 as int)
            && sorted[p].1 < n by {
            assert(sorted.contains(sorted[p]));
            assert(sorted.to_multiset().count(sorted[p]) > 0);
            assert(orig.to_multiset().count(sorted[p]) > 0);
            assert(orig.contains(sorted[p]));
            let k = choose|k: int| 0 <= k < orig.len() && orig[k] == sorted[p];
        }
        assert forall|k: int| 0 <= k < n implies sorted.contains(#[trigger] key_of(downloads@, k)) by {
            assert(orig[k] == key_of(downloads@, k));
            assert(orig.contains(orig[k]));
            assert(orig.to_multiset().count(orig[k]) > 0);
            assert(sorted.to_multiset().count(orig[k]) > 0);
        }
    }
    let m = if max < n {
        max
    } else {
        n
    };
    let mut r: Vec<usize> = Vec::new();
    let mut j: usize = 0;
    while j < m
        invariant
            n == downloads@.len(),
            m <= n,
            sorted == keys@,
            sorted.len() == n,
            j <= m,
            r@ == Seq::new(j as nat, |k: int| sorted[k].1),
        decreases m - j,
    {
        r.push(keys[j].1);
        j = j + 1;
        assert(r@ =~= Seq::new(j as nat, |k: int| sorted[k].1));
    }
    proof {
        assert forall|a: int, b: int| 0 <= a < b < r@.len() implies r@[a] != r@[b] by {
            assert(sorted[a] == key_of(downloads@, sorted[a].1 as int));
            assert(sorted[b] == key_of(downloads@, sorted[b].1 as int));
        }
        assert forall|a: int, b: int| 0 <= a < b < r@.len() implies downloads@[r@[a] as int] >= downloads@[
            r@[b] as int] by {
            assert(sorted[a] == key_of(downloads@, sorted[a].1 as int));
            assert(sorted[b] == key_of(downloads@, sorted[b].1 as int));
            assert(pair_le(sorted[a], sorted[b]));
        }
        assert forall|i: int|
            0 <= i < downloads@.len() && !r@.contains(i as usize) && r@.len() > 0 implies #[trigger] downloads@[i]
                <= downloads@[r@.last() as int] by {
            assert(sorted.contains(key_of(downloads@, i)));
            let p = choose|p: int| 0 <= p < sorted.len() && sorted[p] == key_of(downloads@, i);
            if p < m {
                assert(r@[p] == i as usize);
            }
            let l = m - 1;
            assert(sorted[l] == key_of(downloads@, sorted[l].1 as int));
            assert(r@.last() == sorted[l].1);
            assert(pair_le(sorted[l], sorted[p]));
        }
    }
    r
}

/// A version number as semver holds it: three numbers, the pre-release and
/// the build metadata.
#[derive(Debug)]
pub struct VersionKey {
    pub major: u64,
    pub minor: u64,
    pub patch: u64,
    pub pre: String,
    pub build: String,
}

pub open spec fn version_view(v: VersionKey) -> (u64, u64, u64, Seq<char>, Seq<char>) {
    (v.major, v.minor, v.patch, v.pre@, v.build@)
}

/// Whether semver orders the first version before the second.
pub uninterp spec fn version_less(a: (u64, u64, u64, Seq<char>, Seq<char>), b: (u64, u64, u64, Seq<char>, Seq<char>)) -> bool;

/// Relies on semver's `Ord for Version`, each side rebuilt with
/// `Prerelease::new` and `BuildMetadata::new`: whether `a` comes before `b`.
/// A part that semver does not parse reads as empty.
#[verifier::external_body]
fn version_lt(a: &VersionKey, b: &VersionKey) -> (r: bool)
    ensures
        r == version_less(version_view(*a), version_view(*b)),
{
    let pre_a = semver::Prerelease::new(&a.pre).unwrap_or(semver::Prerelease::EMPTY);
    let build_a = semver::BuildMetadata::new(&a.build).unwrap_or(semver::BuildMetadata::EMPTY);
    let pre_b = semver::Prerelease::new(&b.pre).unwrap_or(semver::Prerelease::EMPTY);
    let build_b = semver::BuildMetadata::new(&b.build).unwrap_or(semver::BuildMetadata::EMPTY);
    let x = semver::Version { major: a.major, minor: a.minor, patch: a.patch, pre: pre_a, build: build_a };
    let y = semver::Version { major: b.major, minor: b.minor, patch: b.patch, pre: pre_b, build: build_b };
    x < y
}

/// The version kept for crate `id` after the first `upto` entries: its
/// first version, replaced by each later one that it comes before.
pub open spec fn kept(versions: Seq<(u64, VersionKey)>, id: u64, upto: int) -> Option<int>
    decreases upto,
{
    if upto <= 0 {
        None
    } else {
        let prev = kept(versions, id, upto - 1);
        if versions[upto - 1].0 != id {
            prev
        } else {
            match prev {
                None => Some(upto - 1),
                Some(j) => if version_less(version_view(versions[j].1), version_view(versions[upto - 1].1)) {
                    Some(upto - 1)
                } else {
                    prev
                },
            }
        }
    }
}

proof fn lemma_kept_below(versions: Seq<(u64, VersionKey)>, id: u64, upto: int)
    ensures
        kept(versions, id, upto) matches Some(j) ==> 0 <= j < upto && versions[j].0 == id,
    decreases upto,
{
    if upto > 0 {
        lemma_kept_below(versions, id, upto - 1);
    }
}

/// Crate `c` repeats an earlier one of the list.
pub open spec fn listed_before(ids: Seq<u64>, c: int) -> bool {
    exists|e: int| 0 <= e < c && ids[e] == ids[c]
}

/// For each listed crate, the position of its latest version among
/// `versions`; `None` for a crate without versions, and for a crate listed
/// a second time.
pub fn latest_versions(crate_ids: &Vec<u64>, versions: &Vec<(u64, VersionKey)>) -> (r: Vec<Option<usize>>)
    ensures
        r@.len() == crate_ids@.len(),
        forall|c: int| 0 <= c < r@.len() ==> #[trigger] r@[c] == if listed_before(crate_ids@, c) {
            None
        } else {
            match kept(versions@, crate_ids@[c], versions@.len() as int) {
                Some(j) => Some(j as usize),
                None => None,
            }
        },
{
    broadcast use vstd::std_specs::hash::group_hash_axioms;
    let mut best: HashMap<u64, usize> = HashMap::new();
    let mut i: usize = 0;
    while i < versions.len()
        invariant
            i <= versions@.len(),
            forall|id: u64| #[trigger] best@.contains_key(id) <==> kept(versions@, id, i as int) is Some,
            forall|id: u64| best@.contains_key(id) ==> kept(versions@, id, i as int) == Some(#[trigger] best@[id] as int),
        decreases versions@.len() - i,
    {
        let id = versions[i].0;
        proof {
            lemma_kept_below(versions@, id, i as int);
        }
        match best.get(&id) {
            Some(j) => {
                let j = *j;
                if version_lt(&versions[j].1, &versions[i].1) {
                    best.insert(id, i);
                }
            },
            None => {
                best.insert(id, i);
            },
        }
        i = i + 1;
    }
    let mut r: Vec<Option<usize>> = Vec::new();
    let mut c: usize = 0;
    while c < crate_ids.len()
        invariant
            c <= crate_ids@.len(),
            r@.len() == c,
            forall|id: u64| #[trigger] best@.contains_key(id) ==> kept(versions@, id, versions@.len() as int) == Some(
                best@[id] as int,
            ),
            forall|id: u64|
                #[trigger] best@.contains_key(id) <==> (kept(versions@, id, versions@.len() as int) is Some && !exists|e: int|
                    0 <= e < c && crate_ids@[e] == id),
            forall|k: int| 0 <= k < c ==> #[trigger] r@[k] == if listed_before(crate_ids@, k) {
                None
            } else {
                match kept(versions@, crate_ids@[k], versions@.len() as int) {
                    Some(j) => Some(j as usize),
                    None => None,
                }
            },
        decreases crate_ids@.len() - c,
    {
        let id = crate_ids[c];
        let found = best.remove(&id);
        r.push(found);
        c = c + 1;
    }
    r
}

} // verus!
