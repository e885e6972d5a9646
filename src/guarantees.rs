//! What holds of every log built from a match.

use vstd::prelude::*;
use crate::item::{classify, Port, RawItem, StateSnapshot};
use crate::log::{owned_by, record, record_all, scan, Frame, HistoryModel};

verus! {

/// Snapshots in strictly increasing frame order, with no two adjacent ones
/// in the same state.
pub open spec fn compact(h: Seq<StateSnapshot>) -> bool {
    forall|i: int|
        0 <= i < h.len() - 1 ==> h[i].frame < #[trigger] h[i + 1].frame && h[i].state != h[i + 1].state
}

/// Frame indices never decrease along `frames`.
pub open spec fn nondecreasing(frames: Seq<Frame>) -> bool {
    forall|i: int| 0 <= i < frames.len() - 1 ==> frames[i].index <= #[trigger] frames[i + 1].index
}

/// The observations of a frame, none if it has no item list.
pub open spec fn observations(frame: Frame) -> Seq<RawItem> {
    match frame.items {
        Some(items) => items@,
        None => Seq::empty(),
    }
}

/// No two observations in `items` share an identifier.
pub open spec fn distinct_ids(items: Seq<RawItem>) -> bool {
    forall|i: int, j: int| 0 <= i < j < items.len() ==> #[trigger] items[i].id != #[trigger] items[j].id
}

/// No item is observed twice at one frame index, on one frame or on two
/// frames with the same index.
pub open spec fn one_observation_per_index(frames: Seq<Frame>) -> bool {
    &&& forall|i: int| 0 <= i < frames.len() ==> distinct_ids(observations(#[trigger] frames[i]))
    &&& forall|i: int, j: int, a: int, b: int|
        0 <= i < j < frames.len() && frames[i].index == frames[j].index && 0 <= a < observations(frames[i]).len()
            && 0 <= b < observations(frames[j]).len() ==> #[trigger] observations(frames[i])[a].id
            != #[trigger] observations(frames[j])[b].id
}

/// One observation never changes what was fixed for an item already in the
/// log, and an item that it adds has what its own classification fixed.
pub proof fn lemma_record_keeps_data(m: Map<u32, HistoryModel>, frame: i32, item: RawItem, id: u32)
    ensures
        m.contains_key(id) ==> record(m, frame, item).contains_key(id)
            && record(m, frame, item)[id].data == m[id].data,
        !m.contains_key(id) && record(m, frame, item).contains_key(id) ==> (classify(frame, item) matches Ok(
            (cid, data, _),
        ) && cid == id && data == record(m, frame, item)[id].data),
{
}

/// Observations on one frame never change what was fixed for an item
/// already in the log.
pub proof fn lemma_record_all_keeps_data(m: Map<u32, HistoryModel>, frame: i32, items: Seq<RawItem>, id: u32)
    requires
        m.contains_key(id),
    ensures
        record_all(m, frame, items).contains_key(id),
        record_all(m, frame, items)[id].data == m[id].data,
    decreases items.len(),
{
    if items.len() > 0 {
        lemma_record_all_keeps_data(m, frame, items.drop_last(), id);
        lemma_record_keeps_data(record_all(m, frame, items.drop_last()), frame, items.last(), id);
    }
}

/// An item's kind, first frame and first owner are fixed by its first
/// observation: once an item is in the log built from the first `n` frames,
/// it stays in the log of every longer run, with the same data.
pub proof fn lemma_data_fixed(frames: Seq<Frame>, n: int, id: u32)
    requires
        0 <= n <= frames.len(),
        scan(frames.take(n)).contains_key(id),
    ensures
        scan(frames).contains_key(id),
        scan(frames)[id].data == scan(frames.take(n))[id].data,
    decreases frames.len(),
{
    if n == frames.len() {
        assert(frames.take(n) =~= frames);
    } else {
        let prefix = frames.drop_last();
        assert(prefix.take(n) =~= frames.take(n));
        lemma_data_fixed(prefix, n, id);
        match frames.last().items {
            Some(items) => lemma_record_all_keeps_data(scan(prefix), frames.last().index, items@, id),
            None => {},
        }
    }
}

/// Every history in `m` is compact, non-empty and ends no later than `frame`.
pub open spec fn settled_by(m: Map<u32, HistoryModel>, frame: i32) -> bool {
    forall|id: u32|
        #[trigger] m.contains_key(id) ==> {
            &&& compact(m[id].history)
            &&& m[id].history.len() > 0
            &&& m[id].history.last().frame <= frame
        }
}

/// Whether an observation in `items` has identifier `id`.
pub open spec fn seen(items: Seq<RawItem>, id: u32) -> bool {
    exists|j: int| 0 <= j < items.len() && #[trigger] items[j].id == id
}

/// Whether item `id` is observed on a frame of `frames` with index `index`.
pub open spec fn seen_at(frames: Seq<Frame>, index: i32, id: u32) -> bool {
    exists|i: int| 0 <= i < frames.len() && frames[i].index == index && seen(observations(#[trigger] frames[i]), id)
}

/// The observations of one frame keep every history compact, provided that
/// each item they name has a history that ends before the frame; an item
/// that none of them names keeps its history as it is.
proof fn lemma_record_all_compact(m: Map<u32, HistoryModel>, frame: i32, items: Seq<RawItem>)
    requires
        settled_by(m, frame),
        distinct_ids(items),
        forall|id: u32| #[trigger] m.contains_key(id) && seen(items, id) ==> m[id].history.last().frame < frame,
    ensures
        settled_by(record_all(m, frame, items), frame),
        forall|id: u32|
            !seen(items, id) ==> (#[trigger] record_all(m, frame, items).contains_key(id) <==> m.contains_key(id)),
        forall|id: u32| !seen(items, id) && m.contains_key(id) ==> #[trigger] record_all(m, frame, items)[id] == m[id],
    decreases items.len(),
{
    if items.len() > 0 {
        let rest = items.drop_last();
        let item = items.last();
        assert(distinct_ids(rest)) by {
            assert forall|i: int, j: int| 0 <= i < j < rest.len() implies #[trigger] rest[i].id != #[trigger] rest[j].id by {
                assert(rest[i] == items[i] && rest[j] == items[j]);
            }
        }
        assert forall|id: u32| seen(rest, id) implies seen(items, id) by {
            let j = choose|j: int| 0 <= j < rest.len() && #[trigger] rest[j].id == id;
            assert(items[j].id == id);
        }
        lemma_record_all_compact(m, frame, rest);
        let prev = record_all(m, frame, rest);
        let next = record_all(m, frame, items);
        assert(seen(items, item.id)) by {
            assert(items[items.len() - 1].id == item.id);
        }
        assert(!seen(rest, item.id)) by {
            if seen(rest, item.id) {
                let j = choose|j: int| 0 <= j < rest.len() && #[trigger] rest[j].id == item.id;
                assert(items[j].id != items[items.len() - 1].id);
            }
        }
        assert forall|id: u32| !seen(items, id) implies !seen(rest, id) && id != item.id by {}
        assert forall|id: u32| #[trigger] next.contains_key(id) implies {
            &&& compact(next[id].history)
            &&& next[id].history.len() > 0
            &&& next[id].history.last().frame <= frame
        } by {
            if id == item.id {
                match classify(frame, item) {
                    Ok((cid, data, snap)) => {
                        if prev.contains_key(id) {
                            assert(prev[id] == m[id]);
                            let h = prev[id].history;
                            if h.len() > 0 && h.last().state != snap.state {
                                let h2 = h.push(snap);
                                assert forall|i: int| 0 <= i < h2.len() - 1 implies h2[i].frame
                                    < #[trigger] h2[i + 1].frame && h2[i].state != h2[i + 1].state by {
                                    if i < h.len() - 1 {
                                        assert(h2[i] == h[i] && h2[i + 1] == h[i + 1]);
                                    } else {
                                        assert(h2[i] == h.last());
                                    }
                                }
                            }
                        } else {
                            assert(compact(seq![snap]));
                        }
                    },
                    Err(_) => {},
                }
            } else {
                lemma_record_keeps_data(prev, frame, item, id);
            }
        }
    }
}

/// Each history in a log built from frames in non-decreasing index order,
/// where no item is observed twice at one index, is compact: its snapshots
/// are in strictly increasing frame order and no two adjacent ones are in
/// the same state.
pub proof fn lemma_histories_compact(frames: Seq<Frame>)
    requires
        nondecreasing(frames),
        one_observation_per_index(frames),
    ensures
        forall|id: u32| #[trigger] scan(frames).contains_key(id) ==> compact(scan(frames)[id].history),
        forall|id: u32| #[trigger] scan(frames).contains_key(id) ==> scan(frames)[id].history.len() > 0,
{
    lemma_settled(frames);
}

/// The log built from frames in non-decreasing index order is settled by
/// the last frame, and a history that ends on the last index belongs to an
/// item observed at that index.
proof fn lemma_settled(frames: Seq<Frame>)
    requires
        nondecreasing(frames),
        one_observation_per_index(frames),
    ensures
        frames.len() > 0 ==> settled_by(scan(frames), frames.last().index),
        frames.len() > 0 ==> forall|id: u32|
            #[trigger] scan(frames).contains_key(id) && scan(frames)[id].history.last().frame == frames.last().index
                ==> seen_at(frames, frames.last().index, id),
        frames.len() == 0 ==> scan(frames) == Map::<u32, HistoryModel>::empty(),
    decreases frames.len(),
{
    if frames.len() > 0 {
        let prefix = frames.drop_last();
        let last = frames.last();
        let g = last.index;
        let n = frames.len() - 1;
        assert(frames[n] == last);
        assert forall|i: int| 0 <= i < prefix.len() implies #[trigger] prefix[i] == frames[i] by {}
        assert(nondecreasing(prefix)) by {
            assert forall|i: int| 0 <= i < prefix.len() - 1 implies prefix[i].index <= #[trigger] prefix[i + 1].index by {
                assert(frames[i].index <= frames[i + 1].index);
            }
        }
        assert(one_observation_per_index(prefix)) by {
            assert forall|i: int| 0 <= i < prefix.len() implies distinct_ids(observations(#[trigger] prefix[i])) by {
                assert(distinct_ids(observations(frames[i])));
            }
            assert forall|i: int, j: int, a: int, b: int|
                0 <= i < j < prefix.len() && prefix[i].index == prefix[j].index && 0 <= a < observations(
                    prefix[i],
                ).len() && 0 <= b < observations(prefix[j]).len() implies #[trigger] observations(prefix[i])[a].id
                != #[trigger] observations(prefix[j])[b].id by {
                assert(observations(frames[i])[a].id != observations(frames[j])[b].id);
            }
        }
        lemma_settled(prefix);
        let m = scan(prefix);
        let items = observations(last);
        assert(distinct_ids(items)) by {
            assert(distinct_ids(observations(frames[n])));
        }
        if prefix.len() > 0 {
            let f = prefix.last().index;
            assert(frames[n - 1].index <= frames[n - 1 + 1].index);
            assert(f <= g);
        }
        // an item already seen at this index is not observed again here
        assert forall|id: u32| #[trigger] m.contains_key(id) && seen(items, id) implies m[id].history.last().frame
            < g by {
            if m[id].history.last().frame >= g {
                let f = prefix.last().index;
                assert(seen_at(prefix, f, id));
                let i = choose|i: int|
                    0 <= i < prefix.len() && prefix[i].index == f && seen(observations(#[trigger] prefix[i]), id);
                let a = choose|a: int| 0 <= a < observations(prefix[i]).len() && #[trigger] observations(prefix[i])[a].id == id;
                let b = choose|b: int| 0 <= b < items.len() && #[trigger] items[b].id == id;
                assert(observations(frames[i])[a].id != observations(frames[n])[b].id);
            }
        }
        let r = scan(frames);
        match last.items {
            Some(v) => {
                assert(r == record_all(m, g, items));
                lemma_record_all_compact(m, g, items);
            },
            None => {
                assert(r == m);
                assert(!seen(items, 0));
                assert forall|id: u32| !seen(items, id) by {}
            },
        }
        assert forall|id: u32| #[trigger] r.contains_key(id) && r[id].history.last().frame == g implies seen_at(
            frames,
            g,
            id,
        ) by {
            if seen(items, id) {
                assert(seen(observations(frames[n]), id));
            } else {
                assert(m.contains_key(id) && r[id] == m[id]);
                let f = prefix.last().index;
                assert(f == g);
                assert(seen_at(prefix, f, id));
                let i = choose|i: int|
                    0 <= i < prefix.len() && prefix[i].index == f && seen(observations(#[trigger] prefix[i]), id);
                assert(seen(observations(frames[i]), id));
            }
        }
    }
}

/// The log depends on the frames alone: the same frames give the same log.
pub proof fn lemma_deterministic(a: Seq<Frame>, b: Seq<Frame>)
    requires
        a == b,
    ensures
        scan(a) == scan(b),
{
}

/// An observation that is not tracked leaves the log as it is.
pub proof fn lemma_rejected_ignored(m: Map<u32, HistoryModel>, frame: i32, item: RawItem)
    requires
        classify(frame, item) is Err,
    ensures
        record(m, frame, item) == m,
{
}

/// Dropping an observation that is not tracked from a frame changes nothing:
/// the others, before and after it, are merged as they would be without it.
pub proof fn lemma_rejected_dropped(m: Map<u32, HistoryModel>, frame: i32, items: Seq<RawItem>, k: int)
    requires
        0 <= k < items.len(),
        classify(frame, items[k]) is Err,
    ensures
        record_all(m, frame, items) == record_all(m, frame, items.remove(k)),
    decreases items.len(),
{
    if k == items.len() - 1 {
        assert(items.remove(k) =~= items.drop_last());
    } else {
        lemma_rejected_dropped(m, frame, items.drop_last(), k);
        assert(items.remove(k).drop_last() =~= items.drop_last().remove(k));
        assert(items.remove(k).last() == items.last());
    }
}

/// Narrowing a log to a player that owns none of its items gives an empty
/// log.
pub proof fn lemma_filter_other_owner(m: Map<u32, HistoryModel>, a: Port, b: Port)
    requires
        a != b,
        forall|id: u32| #[trigger] m.contains_key(id) ==> m[id].data.owner == a,
    ensures
        owned_by(m, b) == Map::<u32, HistoryModel>::empty(),
{
    assert(owned_by(m, b) =~= Map::<u32, HistoryModel>::empty());
}

} // verus!
