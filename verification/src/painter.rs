//! The order in which sprites are painted: farthest first, so that nearer
//! sprites end up on top.

use vstd::prelude::*;

verus! {

/// The first position at or after `from` in `order` whose entry has a key
/// below `key`; the length of `order` if there is none. Entries of `order`
/// are indices into `keys`.
pub open spec fn rank_from(order: Seq<usize>, keys: Seq<u32>, key: u32, from: int) -> int
    decreases order.len() - from,
{
    if from < 0 || from >= order.len() || keys[order[from] as int] < key {
        from
    } else {
        rank_from(order, keys, key, from + 1)
    }
}

/// The paint order of the first `n` keys: their indices, sorted by falling
/// key; among equal keys the lower index comes first. It is built by
/// putting each index in turn behind every entry whose key is at least as
/// large.
pub open spec fn painter_order(keys: Seq<u32>, n: nat) -> Seq<usize>
    decreases n,
{
    if n == 0 {
        Seq::empty()
    } else {
        let before = painter_order(keys, (n - 1) as nat);
        before.insert(rank_from(before, keys, keys[n - 1], 0), (n - 1) as usize)
    }
}

/// Whether `order` lists indices below `n`, with keys that never rise and
/// with equal keys in rising index order.
pub open spec fn far_to_near(order: Seq<usize>, keys: Seq<u32>, n: nat) -> bool {
    &&& forall|p: int| 0 <= p < order.len() ==> (#[trigger] order[p]) < n
    &&& forall|p: int, q: int|
        0 <= p < q < order.len() ==> keys[#[trigger] order[p] as int] > keys[#[trigger] order[q] as int]
            || (keys[order[p] as int] == keys[order[q] as int] && order[p] < order[q])
}

proof fn lemma_rank_from(order: Seq<usize>, keys: Seq<u32>, key: u32, from: int)
    requires
        0 <= from <= order.len(),
    ensures
        from <= rank_from(order, keys, key, from) <= order.len(),
        forall|p: int|
            from <= p < rank_from(order, keys, key, from) ==> keys[#[trigger] order[p] as int]
                >= key,
        rank_from(order, keys, key, from) < order.len() ==> keys[order[rank_from(
            order,
            keys,
            key,
            from,
        )] as int] < key,
    decreases order.len() - from,
{
    if from < order.len() && keys[order[from] as int] >= key {
        lemma_rank_from(order, keys, key, from + 1);
    }
}

/// The paint order of `n` keys holds every index below `n` exactly once,
/// farthest first, and keeps the given order among equal keys.
pub proof fn lemma_painter_order(keys: Seq<u32>, n: nat)
    requires
        n <= keys.len(),
        n <= usize::MAX,
    ensures
        painter_order(keys, n).len() == n,
        far_to_near(painter_order(keys, n), keys, n),
        painter_order(keys, n).no_duplicates(),
        forall|i: usize| i < n ==> #[trigger] painter_order(keys, n).contains(i),
    decreases n,
{
    if n > 0 {
        let i = (n - 1) as usize;
        let before = painter_order(keys, (n - 1) as nat);
        let pos = rank_from(before, keys, keys[n - 1], 0);
        let after = painter_order(keys, n);
        lemma_painter_order(keys, (n - 1) as nat);
        lemma_rank_from(before, keys, keys[n - 1], 0);
        assert(after == before.insert(pos, i));
        assert forall|p: int| 0 <= p < after.len() implies (#[trigger] after[p]) < n by {
            if p < pos {
                assert(after[p] == before[p]);
            } else if p > pos {
                assert(after[p] == before[p - 1]);
            }
        }
        assert forall|p: int, q: int| 0 <= p < q < after.len() implies keys[#[trigger] after[p] as int]
            > keys[#[trigger] after[q] as int] || (keys[after[p] as int] == keys[after[q] as int]
            && after[p] < after[q]) by {
            if q < pos {
                assert(after[p] == before[p] && after[q] == before[q]);
            } else if q == pos {
                assert(after[p] == before[p]);
                assert(before[p] < n - 1);
            } else if p < pos {
                assert(after[p] == before[p] && after[q] == before[q - 1]);
            } else if p == pos {
                assert(after[q] == before[q - 1]);
                if q - 1 > pos {
                    assert(keys[before[pos] as int] > keys[before[q - 1] as int] || keys[before[pos] as int]
                        == keys[before[q - 1] as int]);
                }
            } else {
                assert(after[p] == before[p - 1] && after[q] == before[q - 1]);
            }
        }
        assert forall|p: int, q: int| 0 <= p < q < after.len() implies after[p] != after[q] by {
            let a = if p < pos {
                before[p]
            } else if p == pos {
                i
            } else {
                before[p - 1]
            };
            let b = if q < pos {
                before[q]
            } else if q == pos {
                i
            } else {
                before[q - 1]
            };
            assert(after[p] == a && after[q] == b);
            if p != pos && q != pos {
                let pp = if p < pos {
                    p
                } else {
                    p - 1
                };
                let qq = if q < pos {
                    q
                } else {
                    q - 1
                };
                assert(before[pp] != before[qq]);
            } else if p == pos {
                assert(before[q - 1] < n - 1);
            } else {
                assert(before[p] < n - 1);
            }
        }
        assert forall|j: usize| j < n implies #[trigger] after.contains(j) by {
            if j == n - 1 {
                assert(after[pos] == i);
            } else {
                assert(before.contains(j));
                let p = choose|p: int| 0 <= p < before.len() && before[p] == j;
                if p < pos {
                    assert(after[p] == before[p]);
                } else {
                    assert(after[p + 1] == before[p]);
                }
            }
        }
    }
}

/// Computes the order in which to paint: the indices of `keys` by falling
/// key, the lower index first among equal keys.
pub fn paint_order(keys: &Vec<u32>) -> (order: Vec<usize>)
    ensures
        order@ == painter_order(keys@, keys@.len()),
{
    let mut order: Vec<usize> = Vec::new();
    let mut i: usize = 0;
    while i < keys.len()
        invariant
            i <= keys.len(),
            order@ == painter_order(keys@, i as nat),
        decreases keys.len() - i,
    {
        proof {
            lemma_painter_order(keys@, i as nat);
        }
        let key = keys[i];
        let mut pos: usize = 0;
        while pos < order.len() && keys[order[pos]] >= key
            invariant
                pos <= order.len(),
                i < keys.len(),
                key == keys@[i as int],
                forall|p: int| 0 <= p < order@.len() ==> (#[trigger] order@[p]) < i,
                rank_from(order@, keys@, key, 0) == rank_from(order@, keys@, key, pos as int),
            decreases order.len() - pos,
        {
            pos += 1;
        }
        order.insert(pos, i);
        i += 1;
    }
    order
}

} // verus!
