//! The spatial index maintainer: an auxiliary list of (body handle,
//! axis coordinate) pairs, rebuilt from the current positions and
//! sorted by the coordinate every frame. It is derived data, never
//! authoritative, and runs whether or not the simulation is paused.
//! Fixed-point keys give the comparison a total order, so no frame can
//! fail on an unordered value.

use vstd::prelude::*;

use crate::body::Body;

verus! {

/// One slot of the spatial index: the handle of a body (its registry
/// position) and that body's coordinate on the indexed axis.
#[derive(Clone, Copy, Debug, PartialEq, Eq, Structural)]
pub struct IndexEntry {
    pub id: usize,
    pub key: i64,
}

/// The index as built from the registry before sorting: body `k` under
/// its x coordinate, in registry order.
pub open spec fn raw_index_x(bodies: Seq<Body>) -> Seq<IndexEntry> {
    Seq::new(bodies.len(), |k: int| IndexEntry { id: k as usize, key: bodies[k].x })
}

/// The index as built from the registry keyed on the y axis.
pub open spec fn raw_index_y(bodies: Seq<Body>) -> Seq<IndexEntry> {
    Seq::new(bodies.len(), |k: int| IndexEntry { id: k as usize, key: bodies[k].y })
}

/// Keys ascend along the whole index.
pub open spec fn sorted_by_key(s: Seq<IndexEntry>) -> bool {
    forall|a: int, b: int| 0 <= a < b < s.len() ==> (#[trigger] s[a]).key <= (#[trigger] s[b]).key
}

/// No two slots carry the same handle.
pub open spec fn distinct_ids(s: Seq<IndexEntry>) -> bool {
    forall|a: int, b: int|
        0 <= a < b < s.len() ==> (#[trigger] s[a]).id != (#[trigger] s[b]).id
}

/// Fills `index` with one entry per body, keyed on x, in registry order.
pub fn build_index_x(bodies: &Vec<Body>) -> (index: Vec<IndexEntry>)
    ensures
        index@ == raw_index_x(bodies@),
{
    let n = bodies.len();
    let mut index: Vec<IndexEntry> = Vec::new();
    let mut k: usize = 0;
    while k < n
        invariant
            bodies@.len() == n,
            k <= n,
            index@.len() == k,
            forall|m: int| 0 <= m < k ==> #[trigger] index@[m] == raw_index_x(bodies@)[m],
        decreases n - k,
    {
        index.push(IndexEntry { id: k, key: bodies[k].x });
        k += 1;
    }
    proof {
        assert(index@ =~= raw_index_x(bodies@));
    }
    index
}

/// Fills `index` with one entry per body, keyed on y, in registry order.
pub fn build_index_y(bodies: &Vec<Body>) -> (index: Vec<IndexEntry>)
    ensures
        index@ == raw_index_y(bodies@),
{
    let n = bodies.len();
    let mut index: Vec<IndexEntry> = Vec::new();
    let mut k: usize = 0;
    while k < n
        invariant
            bodies@.len() == n,
            k <= n,
            index@.len() == k,
            forall|m: int| 0 <= m < k ==> #[trigger] index@[m] == raw_index_y(bodies@)[m],
        decreases n - k,
    {
        index.push(IndexEntry { id: k, key: bodies[k].y });
        k += 1;
    }
    proof {
        assert(index@ =~= raw_index_y(bodies@));
    }
    index
}

/// Stable insertion sort on the keys: only strictly out-of-order
/// neighbours swap, so entries with equal keys keep their input order.
fn sort_by_key(v: &mut Vec<IndexEntry>)
    ensures
        final(v)@.len() == old(v)@.len(),
        sorted_by_key(final(v)@),
        final(v)@.to_multiset() == old(v)@.to_multiset(),
{
    let n = v.len();
    let mut i: usize = 1;
    if n < 2 {
        return ;
    }
    while i < n
        invariant
            v@.len() == n,
            1 <= i <= n,
            v@.to_multiset() == old(v)@.to_multiset(),
            forall|a: int, b: int|
                0 <= a < b < i ==> (#[trigger] v@[a]).key <= (#[trigger] v@[b]).key,
        decreases n - i,
    {
        let mut j: usize = i;
        while j > 0 && v[j - 1].key > v[j].key
            invariant
                v@.len() == n,
                1 <= i < n,
                0 <= j <= i,
                v@.to_multiset() == old(v)@.to_multiset(),
                forall|a: int, b: int|
                    0 <= a < b <= i && b != j ==> (#[trigger] v@[a]).key <= (#[trigger] v@[b]).key,
            decreases j,
        {
            let ea = v[j - 1];
            let eb = v[j];
            let ghost pre = v@;
            v[j - 1] = eb;
            v[j] = ea;
            proof {
                broadcast use vstd::seq_lib::to_multiset_update;
                broadcast use vstd::seq_lib::group_to_multiset_ensures;
                broadcast use vstd::multiset::group_multiset_axioms;

                let mid = pre.update(j - 1, eb);
                assert(pre[j - 1] == ea && pre.contains(ea));
                assert(pre.to_multiset().count(ea) > 0);
                assert(v@ == mid.update(j as int, ea));
                assert(mid[j as int] == eb);
                vstd::seq_lib::to_multiset_update(pre, j - 1, eb);
                vstd::seq_lib::to_multiset_update(mid, j as int, ea);
                assert(mid.to_multiset() == pre.to_multiset().insert(eb).remove(ea));
                assert(v@.to_multiset() == mid.to_multiset().insert(ea).remove(eb));
                assert(v@.to_multiset() =~= pre.to_multiset());
            }
            j -= 1;
        }
        i += 1;
    }
}

/// Rebuilds the x index from the current positions and sorts it by
/// coordinate. The result holds every body handle exactly once, under
/// that body's current x coordinate, in ascending key order.
pub fn maintain_sorted_entities_x(bodies: &Vec<Body>, index: &mut Vec<IndexEntry>)
    ensures
        final(index)@.len() == bodies@.len(),
        sorted_by_key(final(index)@),
        final(index)@.to_multiset() == raw_index_x(bodies@).to_multiset(),
        distinct_ids(final(index)@),
        forall|k: int|
            0 <= k < bodies@.len() ==> raw_index_x(bodies@)[k].id == k
                && #[trigger] final(index)@.contains(raw_index_x(bodies@)[k]),
{
    let nb = bodies.len();
    let mut fresh = build_index_x(bodies);
    sort_by_key(&mut fresh);
    proof {
        assert forall|k: int| 0 <= k < raw_index_x(bodies@).len() implies (#[trigger] raw_index_x(
            bodies@,
        )[k]).id == k by {
            assert(bodies@.len() == nb);
        }
        lemma_permutation_of_raw(fresh@, raw_index_x(bodies@));
        broadcast use vstd::seq_lib::group_to_multiset_ensures;

        assert(fresh@.to_multiset().len() == raw_index_x(bodies@).to_multiset().len());
    }
    *index = fresh;
}

/// A sequence with the same multiset as the raw index keeps its length,
/// holds every raw entry, and repeats no handle.
proof fn lemma_permutation_of_raw(out: Seq<IndexEntry>, raw: Seq<IndexEntry>)
    requires
        out.to_multiset() == raw.to_multiset(),
        forall|k: int| 0 <= k < raw.len() ==> (#[trigger] raw[k]).id == k,
    ensures
        out.len() == raw.len(),
        distinct_ids(out),
        forall|k: int| 0 <= k < raw.len() ==> #[trigger] out.contains(raw[k]),
{
    broadcast use vstd::seq_lib::group_to_multiset_ensures;

    assert(out.to_multiset().len() == out.len());
    assert(raw.to_multiset().len() == raw.len());
    assert(out.len() == raw.len());
    assert(raw.no_duplicates()) by {
        assert forall|a: int, b: int| 0 <= a < raw.len() && 0 <= b < raw.len() && a != b implies
            raw[a] != raw[b] by {
            assert(raw[a].id == a && raw[b].id == b);
        }
    }
    raw.lemma_multiset_has_no_duplicates();
    out.lemma_multiset_has_no_duplicates_conv();
    assert forall|k: int| 0 <= k < raw.len() implies #[trigger] out.contains(raw[k]) by {
        assert(raw.contains(raw[k]));
        assert(raw.to_multiset().count(raw[k]) > 0);
    }
    assert forall|a: int, b: int|
        0 <= a < b < out.len() implies (#[trigger] out[a]).id != (#[trigger] out[b]).id by {
        if out[a].id == out[b].id {
            assert(out.contains(out[a]));
            assert(out.to_multiset().count(out[a]) > 0);
            assert(raw.contains(out[a]));
            let ma = choose|m: int| 0 <= m < raw.len() && raw[m] == out[a];
            assert(ma == out[a].id);
            assert(out.contains(out[b]));
            assert(out.to_multiset().count(out[b]) > 0);
            assert(raw.contains(out[b]));
            let mb = choose|m: int| 0 <= m < raw.len() && raw[m] == out[b];
            assert(mb == out[b].id);
            assert(out[a] == out[b]);
            assert(out.no_duplicates());
        }
    }
}

} // verus!
