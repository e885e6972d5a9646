//! Per-identifier item histories, built frame by frame.

use std::collections::HashMap;
use vstd::prelude::*;
use crate::item::{classify, parse_item, ItemData, Port, RawItem, StateSnapshot, TurnipError};

verus! {

broadcast use vstd::std_specs::hash::group_hash_axioms;

/// One frame of a match: its index and the items on it, if the recording has
/// any.
#[derive(Debug, Clone)]
pub struct Frame {
    pub index: i32,
    pub items: Option<Vec<RawItem>>,
}

/// The frames of a match, by number of players.
#[derive(Debug, Clone)]
pub enum Frames {
    P1(Vec<Frame>),
    P2(Vec<Frame>),
    P3(Vec<Frame>),
    P4(Vec<Frame>),
}

/// What is known of one item: what was fixed on its first frame, and each
/// change of its state.
#[derive(Debug, Clone)]
pub struct ItemHistory {
    pub data: ItemData,
    pub history: Vec<StateSnapshot>,
}

/// An item history as a mathematical value.
pub struct HistoryModel {
    pub data: ItemData,
    pub history: Seq<StateSnapshot>,
}

impl View for ItemHistory {
    type V = HistoryModel;

    open spec fn view(&self) -> HistoryModel {
        HistoryModel { data: self.data, history: self.history@ }
    }
}

/// Item histories indexed by item identifier.
#[derive(Debug)]
pub struct ItemLog {
    map: HashMap<u32, ItemHistory>,
    /// The identifiers, in the order they were first seen.
    ids: Vec<u32>,
}

impl View for ItemLog {
    type V = Map<u32, HistoryModel>;

    closed spec fn view(&self) -> Map<u32, HistoryModel> {
        self.map@.map_values(|h: ItemHistory| h@)
    }
}

/// The log after one observation made on `frame`.
///
/// An observation that is not tracked leaves the log as it is. The first one
/// of an identifier starts its history. A later one adds a snapshot exactly
/// when its state differs from the last one recorded, and never changes what
/// was fixed on the first.
pub open spec fn record(m: Map<u32, HistoryModel>, frame: i32, item: RawItem) -> Map<u32, HistoryModel> {
    match classify(frame, item) {
        Err(_) => m,
        Ok((id, data, snap)) => if !m.contains_key(id) {
            m.insert(id, HistoryModel { data, history: seq![snap] })
        } else if m[id].history.len() > 0 && m[id].history.last().state != snap.state {
            m.insert(id, HistoryModel { data: m[id].data, history: m[id].history.push(snap) })
        } else {
            m
        },
    }
}

/// The log after the observations `items`, in order, all made on `frame`.
pub open spec fn record_all(m: Map<u32, HistoryModel>, frame: i32, items: Seq<RawItem>) -> Map<u32, HistoryModel>
    decreases items.len(),
{
    if items.len() == 0 {
        m
    } else {
        record(record_all(m, frame, items.drop_last()), frame, items.last())
    }
}

/// The log after one frame.
pub open spec fn scan_frame(m: Map<u32, HistoryModel>, frame: Frame) -> Map<u32, HistoryModel> {
    match frame.items {
        Some(items) => record_all(m, frame.index, items@),
        None => m,
    }
}

/// The log built from `frames`, in order, starting empty.
pub open spec fn scan(frames: Seq<Frame>) -> Map<u32, HistoryModel>
    decreases frames.len(),
{
    if frames.len() == 0 {
        Map::empty()
    } else {
        scan_frame(scan(frames.drop_last()), frames.last())
    }
}

/// The histories in `m` of the items first owned by `owner`.
pub open spec fn owned_by(m: Map<u32, HistoryModel>, owner: Port) -> Map<u32, HistoryModel> {
    m.restrict(m.dom().filter(|k: u32| m[k].data.owner == owner))
}

impl ItemLog {
    /// The log holds one history per identifier, and lists each identifier
    /// once.
    pub closed spec fn wf(&self) -> bool {
        &&& self.ids@.no_duplicates()
        &&& forall|i: int| 0 <= i < self.ids@.len() ==> self.map@.contains_key(#[trigger] self.ids@[i])
        &&& forall|k: u32| self.map@.contains_key(k) ==> self.ids@.contains(k)
    }

    /// The identifiers in the log, in the order they were first seen.
    pub closed spec fn order(&self) -> Seq<u32> {
        self.ids@
    }

    /// Every identifier in the log, each once.
    pub proof fn lemma_order(&self)
        requires
            self.wf(),
        ensures
            self.order().no_duplicates(),
            forall|k: u32| self@.contains_key(k) <==> self.order().contains(k),
    {
        assert forall|k: u32| self@.contains_key(k) <==> self.order().contains(k) by {
            if self.order().contains(k) {
                let i = choose|i: int| 0 <= i < self.ids@.len() && self.ids@[i] == k;
                assert(self.map@.contains_key(self.ids@[i]));
            }
        }
    }

    /// An empty log.
    pub fn new() -> (r: ItemLog)
        ensures
            r.wf(),
            r@ == Map::<u32, HistoryModel>::empty(),
    {
        let r = ItemLog { map: HashMap::new(), ids: Vec::new() };
        assert(r@ =~= Map::<u32, HistoryModel>::empty());
        r
    }

    /// Number of items in the log.
    pub fn len(&self) -> (r: usize)
        requires
            self.wf(),
        ensures
            r == self@.len(),
    {
        assert(self@.dom() =~= self.map@.dom());
        self.map.len()
    }

    /// The history of item `id`, if it was seen.
    pub fn get(&self, id: u32) -> (r: Option<&ItemHistory>)
        ensures
            match r {
                Some(h) => self@.contains_key(id) && h@ == self@[id],
                None => !self@.contains_key(id),
            },
    {
        self.map.get(&id)
    }

    /// The identifiers in the log, in the order they were first seen.
    pub fn ids(&self) -> (r: &Vec<u32>)
        ensures
            r@ == self.order(),
    {
        &self.ids
    }

    /// Add the history of an item that is not in the log yet.
    fn insert_new(&mut self, id: u32, h: ItemHistory)
        requires
            old(self).wf(),
            !old(self)@.contains_key(id),
        ensures
            final(self).wf(),
            final(self)@ == old(self)@.insert(id, h@),
    {
        self.map.insert(id, h);
        self.ids.push(id);
        proof {
            assert(!old(self).ids@.contains(id));
            assert forall|k: u32| self.map@.contains_key(k) implies self.ids@.contains(k) by {
                if k != id {
                    assert(old(self).ids@.contains(k));
                    let i = choose|i: int| 0 <= i < old(self).ids@.len() && old(self).ids@[i] == k;
                    assert(self.ids@[i] == k);
                } else {
                    assert(self.ids@[self.ids@.len() - 1] == k);
                }
            }
            assert(self@ =~= old(self)@.insert(id, h@));
        }
    }

    /// The histories of the items first owned by `owner`.
    pub fn filter_owner(&self, owner: Port) -> (r: ItemLog)
        requires
            self.wf(),
        ensures
            r.wf(),
            r@ == owned_by(self@, owner),
    {
        let mut r = ItemLog::new();
        let n = self.ids.len();
        let mut i: usize = 0;
        while i < n
            invariant
                self.wf(),
                n == self.ids@.len(),
                i <= n,
                r.wf(),
                forall|k: u32| #[trigger] r@.contains_key(k) <==> (self.ids@.take(i as int).contains(k)
                    && self@[k].data.owner == owner),
                forall|k: u32| #[trigger] r@.contains_key(k) ==> r@[k] == self@[k],
            decreases n - i,
        {
            let id = self.ids[i];
            proof {
                assert(self.map@.contains_key(self.ids@[i as int]));
                assert(self.ids@.take(i + 1) =~= self.ids@.take(i as int).push(id));
                assert(!self.ids@.take(i as int).contains(id)) by {
                    if self.ids@.take(i as int).contains(id) {
                        let j = choose|j: int| 0 <= j < i && self.ids@.take(i as int)[j] == id;
                        assert(self.ids@[j] == self.ids@[i as int]);
                    }
                }
            }
            match self.map.get(&id) {
                Some(h) => {
                    if h.data.owner == owner {
                        let copy = ItemHistory { data: h.data, history: h.history.clone() };
                        proof {
                            assert(copy.history@ =~= h.history@);
                        }
                        r.insert_new(id, copy);
                    }
                },
                None => {},
            }
            proof {
                assert(self@[id] == self.map@[id]@);
                assert forall|k: u32| #[trigger] r@.contains_key(k) <==> (self.ids@.take(i + 1).contains(k)
                    && self@[k].data.owner == owner) by {
                    if k != id {
                        if self.ids@.take(i + 1).contains(k) {
                            let j = choose|j: int| 0 <= j < i + 1 && #[trigger] self.ids@.take(i + 1)[j] == k;
                            assert(self.ids@.take(i as int)[j] == k);
                        }
                    } else {
                        assert(self.ids@.take(i + 1)[i as int] == k);
                    }
                }
            }
            i += 1;
        }
        proof {
            assert(self.ids@.take(n as int) =~= self.ids@);
            assert forall|k: u32| self@.contains_key(k) <==> self.ids@.contains(k) by {
                if self.ids@.contains(k) {
                    let j = choose|j: int| 0 <= j < n && self.ids@[j] == k;
                    assert(self.map@.contains_key(self.ids@[j]));
                }
            }
            assert(r@ =~= owned_by(self@, owner));
        }
        r
    }

    /// Merge one observation made on `frame` into the log.
    pub fn record(&mut self, frame: i32, item: &RawItem)
        requires
            old(self).wf(),
        ensures
            final(self).wf(),
            final(self)@ == record(old(self)@, frame, *item),
    {
        match parse_item(frame, item) {
            Err(_) => {},
            Ok((id, data, state)) => {
                match self.map.remove(&id) {
                    None => {
                        // the first sighting of this item
                        let mut history: Vec<StateSnapshot> = Vec::new();
                        history.push(state);
                        self.map.insert(id, ItemHistory { data, history });
                        self.ids.push(id);
                        proof {
                            assert(self.ids@.last() == id);
                            assert forall|k: u32| self.map@.contains_key(k) implies self.ids@.contains(k) by {
                                if k != id {
                                    assert(old(self).ids@.contains(k));
                                    let i = choose|i: int| 0 <= i < old(self).ids@.len() && old(self).ids@[i] == k;
                                    assert(self.ids@[i] == k);
                                } else {
                                    assert(self.ids@[self.ids@.len() - 1] == k);
                                }
                            }
                            assert(!old(self).ids@.contains(id));
                            assert(history@ =~= seq![state]);
                            assert(self@ =~= record(old(self)@, frame, *item));
                        }
                    },
                    Some(entry) => {
                        let mut entry = entry;
                        // update the history if the state has changed
                        let changed = entry.history.len() > 0 && entry.history[entry.history.len() - 1].state != state.state;
                        if changed {
                            entry.history.push(state);
                        }
                        self.map.insert(id, entry);
                        proof {
                            assert(self.map@ =~= old(self).map@.insert(id, entry));
                            assert(self@ =~= record(old(self)@, frame, *item));
                        }
                    },
                }
            },
        }
    }
}

/// Merge the observations `items`, all made on `frame`, into the log, in
/// order.
pub fn log_peach_items(log: &mut ItemLog, frame: i32, items: &Vec<RawItem>)
    requires
        old(log).wf(),
    ensures
        final(log).wf(),
        final(log)@ == record_all(old(log)@, frame, items@),
{
    let n = items.len();
    let mut i: usize = 0;
    while i < n
        invariant
            n == items@.len(),
            i <= n,
            log.wf(),
            log@ == record_all(old(log)@, frame, items@.take(i as int)),
        decreases n - i,
    {
        log.record(frame, &items[i]);
        proof {
            assert(items@.take(i + 1).drop_last() =~= items@.take(i as int));
        }
        i += 1;
    }
    assert(items@.take(n as int) =~= items@);
}

/// Search the frames of a match, in order, for tracked items.
pub fn find_turnips(frames: Vec<Frame>) -> (r: ItemLog)
    ensures
        r.wf(),
        r@ == scan(frames@),
{
    let mut log = ItemLog::new();
    let n = frames.len();
    let mut i: usize = 0;
    while i < n
        invariant
            n == frames@.len(),
            i <= n,
            log.wf(),
            log@ == scan(frames@.take(i as int)),
        decreases n - i,
    {
        let frame = &frames[i];
        if let Some(items) = &frame.items {
            log_peach_items(&mut log, frame.index, items);
        }
        proof {
            assert(frames@.take(i + 1).drop_last() =~= frames@.take(i as int));
        }
        i += 1;
    }
    assert(frames@.take(n as int) =~= frames@);
    log
}

/// The frames that a match is read from: only two-player matches are
/// supported.
pub open spec fn two_player_frames(frames: Frames) -> Result<Seq<Frame>, TurnipError> {
    match frames {
        Frames::P2(f) => Ok(f@),
        _ => Err(TurnipError::WrongNumberPlayers),
    }
}

/// The item histories of a two-player match.
pub fn log_items(frames: Frames) -> (r: Result<ItemLog, TurnipError>)
    ensures
        match (r, two_player_frames(frames)) {
            (Ok(log), Ok(f)) => log.wf() && log@ == scan(f),
            (Err(e), Err(e2)) => e == e2,
            _ => false,
        },
{
    match frames {
        Frames::P2(f) => Ok(find_turnips(f)),
        _ => Err(TurnipError::WrongNumberPlayers),
    }
}

} // verus!
