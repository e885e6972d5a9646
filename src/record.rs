//! Storage commands for one player's items.

use vstd::prelude::*;
use crate::item::{ItemData, PeachItem, Port};
use crate::log::{owned_by, HistoryModel, ItemLog};

verus! {

/// A command for the storage worker.
#[derive(Debug, Clone, Copy, PartialEq, Eq, Structural)]
pub enum DBCommand {
    /// Store one item of one match.
    Item { game_id: i64, item_id: u32, frame: i32, kind: PeachItem },
}

/// The command that stores item `id` of match `game_id`.
pub open spec fn item_command(game_id: i64, id: u32, data: ItemData) -> DBCommand {
    DBCommand::Item { game_id, item_id: id, frame: data.frame, kind: data.kind }
}

/// Whether `c` stores an item of match `game_id` first owned by `me`, with
/// what `m` holds of it.
pub open spec fn stores_owned(m: Map<u32, HistoryModel>, me: Port, game_id: i64, c: DBCommand) -> bool {
    let id = c->Item_item_id;
    owned_by(m, me).contains_key(id) && c == item_command(game_id, id, m[id].data)
}

/// The commands that store the items of match `game_id` first owned by `me`,
/// one per item, in the order the items were first seen.
pub fn record_items(log: &ItemLog, game_id: i64, me: Port) -> (r: Vec<DBCommand>)
    requires
        log.wf(),
    ensures
        r@.no_duplicates(),
        forall|j: int| 0 <= j < r@.len() ==> stores_owned(log@, me, game_id, #[trigger] r@[j]),
        forall|id: u32|
            #[trigger] owned_by(log@, me).contains_key(id) ==> r@.contains(item_command(game_id, id, log@[id].data)),
{
    proof {
        log.lemma_order();
    }
    let ids = log.ids();
    let n = ids.len();
    let mut r: Vec<DBCommand> = Vec::new();
    let mut i: usize = 0;
    while i < n
        invariant
            ids@ == log.order(),
            ids@.no_duplicates(),
            forall|k: u32| log@.contains_key(k) <==> ids@.contains(k),
            n == ids@.len(),
            i <= n,
            r@.no_duplicates(),
            forall|j: int|
                0 <= j < r@.len() ==> stores_owned(log@, me, game_id, #[trigger] r@[j])
                    && ids@.take(i as int).contains(r@[j]->Item_item_id),
            forall|id: u32|
                #[trigger] owned_by(log@, me).contains_key(id) && ids@.take(i as int).contains(id)
                    ==> r@.contains(item_command(game_id, id, log@[id].data)),
        decreases n - i,
    {
        let id = ids[i];
        proof {
            assert(ids@.contains(id));
            assert(ids@.take(i + 1) =~= ids@.take(i as int).push(id));
            assert(!ids@.take(i as int).contains(id)) by {
                if ids@.take(i as int).contains(id) {
                    let j = choose|j: int| 0 <= j < i && #[trigger] ids@.take(i as int)[j] == id;
                    assert(ids@[j] == ids@[i as int]);
                }
            }
        }
        let ghost old_r = r@;
        match log.get(id) {
            Some(h) => {
                if h.data.owner == me {
                    let cmd = DBCommand::Item { game_id, item_id: id, frame: h.data.frame, kind: h.data.kind };
                    r.push(cmd);
                    proof {
                        assert(owned_by(log@, me).contains_key(id));
                        assert(r@[r@.len() - 1] == cmd);
                        assert forall|j: int, k: int| 0 <= j < k < r@.len() implies r@[j] != r@[k] by {
                            assert(r@[j] == old_r[j]);
                            if k < old_r.len() {
                                assert(r@[k] == old_r[k]);
                            }
                        }
                    }
                }
            },
            None => {},
        }
        proof {
            assert forall|j: int| 0 <= j < r@.len() implies stores_owned(log@, me, game_id, #[trigger] r@[j])
                && ids@.take(i + 1).contains(r@[j]->Item_item_id) by {
                if j < old_r.len() {
                    assert(r@[j] == old_r[j]);
                    let x = r@[j]->Item_item_id;
                    assert(ids@.take(i + 1)[ids@.take(i as int).index_of(x)] == x);
                } else {
                    assert(ids@.take(i + 1)[i as int] == id);
                }
            }
            assert forall|x: u32|
                #[trigger] owned_by(log@, me).contains_key(x) && ids@.take(i + 1).contains(x) implies r@.contains(
                item_command(game_id, x, log@[x].data),
            ) by {
                if x == id {
                    assert(r@[r@.len() - 1] == item_command(game_id, x, log@[x].data));
                } else {
                    let k = ids@.take(i + 1).index_of(x);
                    assert(ids@.take(i as int)[k] == x);
                    let j = old_r.index_of(item_command(game_id, x, log@[x].data));
                    assert(r@[j] == old_r[j]);
                }
            }
        }
        i += 1;
    }
    proof {
        assert(ids@.take(n as int) =~= ids@);
    }
    r
}

} // verus!
