//! Order in which the strokes of a brush sub-mask are rasterized.
use vstd::prelude::*;

verus! {

/// Stroke `a` (with ordering key `ka`) is rasterized before stroke `b`: smaller
/// key first, and definition order among equal keys.
pub open spec fn stroke_before(ka: u64, a: int, kb: u64, b: int) -> bool {
    ka < kb || (ka == kb && a < b)
}

/// Stroke index `k` occurs in `order`.
pub open spec fn appears(order: Seq<usize>, k: int) -> bool {
    exists|p: int| 0 <= p < order.len() && order[p] == k
}

/// `order` lists stroke indices sorted by key, stably.
pub open spec fn sorted_by_key(keys: Seq<u64>, order: Seq<usize>) -> bool {
    forall|p: int, q: int|
        0 <= p < q < order.len() ==> stroke_before(
            keys[order[p] as int],
            order[p] as int,
            keys[order[q] as int],
            order[q] as int,
        )
}

/// Rasterization order of brush strokes whose ordering keys are `keys`: every
/// stroke index exactly once, sorted by key, equal keys in definition order.
pub fn stroke_order(keys: &[u64]) -> (order: Vec<usize>)
    ensures
        order.len() == keys.len(),
        forall|p: int| 0 <= p < order.len() ==> #[trigger] order@[p] < keys.len(),
        forall|k: int| 0 <= k < keys.len() ==> #[trigger] appears(order@, k),
        sorted_by_key(keys@, order@),
{
    let mut order: Vec<usize> = Vec::new();
    let mut i: usize = 0;
    while i < keys.len()
        invariant
            i <= keys.len(),
            order.len() == i,
            forall|p: int| 0 <= p < order.len() ==> #[trigger] order@[p] < i,
            forall|k: int| 0 <= k < i ==> #[trigger] appears(order@, k),
            sorted_by_key(keys@, order@),
        decreases keys.len() - i,
    {
        let key = keys[i];
        let mut pos: usize = 0;
        while pos < order.len() && keys[order[pos]] <= key
            invariant
                pos <= order.len(),
                order.len() == i,
                i < keys.len(),
                key == keys@[i as int],
                forall|p: int| 0 <= p < order.len() ==> #[trigger] order@[p] < i,
                forall|p: int| 0 <= p < pos ==> keys@[#[trigger] order@[p] as int] <= key,
            decreases order.len() - pos,
        {
            pos = pos + 1;
        }
        let ghost before = order@;
        order.insert(pos, i);
        proof {
            assert forall|p: int| 0 <= p < order.len() implies #[trigger] order@[p] < i + 1 by {
                if p < pos {
                    assert(order@[p] == before[p]);
                } else if p > pos {
                    assert(order@[p] == before[p - 1]);
                }
            }
            assert forall|k: int| 0 <= k < i + 1 implies #[trigger] appears(order@, k) by {
                if k == i {
                    assert(order@[pos as int] == k);
                } else {
                    assert(appears(before, k));
                    let p0 = choose|p: int| 0 <= p < before.len() && before[p] == k;
                    if p0 < pos {
                        assert(order@[p0] == k);
                    } else {
                        assert(order@[p0 + 1] == k);
                    }
                }
            }
            assert forall|p: int, q: int| 0 <= p < q < order.len() implies stroke_before(
                keys@[order@[p] as int],
                order@[p] as int,
                keys@[order@[q] as int],
                order@[q] as int,
            ) by {
                if q < pos {
                    assert(order@[p] == before[p] && order@[q] == before[q]);
                } else if q == pos {
                    assert(order@[p] == before[p]);
                    assert(keys@[before[p] as int] <= key);
                } else if p > pos {
                    assert(order@[p] == before[p - 1] && order@[q] == before[q - 1]);
                } else if p == pos {
                    assert(order@[q] == before[q - 1]);
                    assert(!(keys@[before[pos as int] as int] <= key));
                    if q - 1 > pos {
                        assert(stroke_before(
                            keys@[before[pos as int] as int],
                            before[pos as int] as int,
                            keys@[before[q - 1] as int],
                            before[q - 1] as int,
                        ));
                    }
                } else {
                    assert(order@[p] == before[p] && order@[q] == before[q - 1]);
                }
            }
        }
        i = i + 1;
    }
    order
}

} // verus!
