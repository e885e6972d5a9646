//! Raw item observations and their classification.

use vstd::prelude::*;

verus! {

/// Type code of a Bob-omb.
pub const BOB_OMB: u16 = 6;

/// Type code of Mr. Saturn.
pub const MR_SATURN: u16 = 7;

/// Type code of a beam sword.
pub const BEAM_SWORD: u16 = 12;

/// Type code of a turnip; its face is the second byte of the item's
/// auxiliary data.
pub const PEACH_TURNIP: u16 = 99;

/// A controller port.
#[derive(Debug, Clone, Copy, PartialEq, Eq, Structural)]
pub enum Port {
    P1,
    P2,
    P3,
    P4,
}

/// The items being tracked.
#[derive(Debug, Clone, Copy, PartialEq, Eq, Structural)]
pub enum PeachItem {
    /// A turnip whose face byte is 0 to 4.
    NormalTurnip,
    /// A turnip whose face byte is 5.
    WinkyTurnip,
    /// A turnip whose face byte is 6.
    DotEyesTurnip,
    /// A turnip whose face byte is 7.
    StitchTurnip,
    /// Electric.
    Beamsword,
    /// Explosive!
    Bobomb,
    /// Friendly :)
    MrSaturn,
}

/// Why an observation, a match or its metadata could not be used.
#[derive(Debug, Clone, Copy, PartialEq, Eq, Structural)]
pub enum TurnipError {
    /// A turnip without at least two bytes of auxiliary data.
    MissingMisc,
    /// A turnip whose face byte is above 7.
    UnknownFace,
    /// A match that does not have exactly two players.
    WrongNumberPlayers,
    /// An item of a type that is not tracked.
    NotPeachItem,
    /// An item without any owner.
    MissingOwner,
    /// An item whose owner is not a player.
    OwnerNotPlayer,
    /// A match without a player list.
    MissingPlayers,
    /// A match without a start time.
    MissingStartTime,
    /// A match without a player on the given port.
    MissingPlayer(Port),
    /// A player without netplay data.
    MissingNetplay(Port),
    /// A match where neither player has the connect code looked for.
    UnknownPlayerCode,
}

/// The state of an item. State codes are compared, never interpreted.
#[derive(Debug, Clone, Copy, PartialEq, Eq, Structural)]
pub enum ItemState {
    Unknown(u8),
}

/// What is fixed about an item when it is first seen.
#[derive(Debug, Clone, Copy, PartialEq, Eq, Structural)]
pub struct ItemData {
    /// What kind of item.
    pub kind: PeachItem,
    /// The first frame the item was seen.
    pub frame: i32,
    /// The initial owner of the item.
    pub owner: Port,
}

/// The state of an item on one frame.
#[derive(Debug, Clone, Copy, PartialEq, Eq, Structural)]
pub struct StateSnapshot {
    pub frame: i32,
    pub state: ItemState,
    pub owner: Port,
}

/// One item as observed on one frame.
#[derive(Debug, Clone)]
pub struct RawItem {
    /// Persistent identifier, the same on every frame for one item.
    pub id: u32,
    /// Type code.
    pub type_code: u16,
    /// Raw state code.
    pub state: u8,
    /// Auxiliary data, if the recording has it.
    pub misc: Option<Vec<u8>>,
    /// `None` when the recording holds no owner, `Some(None)` when the
    /// owner is not a player.
    pub owner: Option<Option<Port>>,
}

/// Kind of a turnip with the given face byte.
pub open spec fn turnip_face(face: u8) -> Result<PeachItem, TurnipError> {
    if face <= 4 {
        Ok(PeachItem::NormalTurnip)
    } else if face == 5 {
        Ok(PeachItem::WinkyTurnip)
    } else if face == 6 {
        Ok(PeachItem::DotEyesTurnip)
    } else if face == 7 {
        Ok(PeachItem::StitchTurnip)
    } else {
        Err(TurnipError::UnknownFace)
    }
}

/// Kind of an item with the given type code and auxiliary data.
pub open spec fn item_kind(type_code: u16, misc: Option<Seq<u8>>) -> Result<PeachItem, TurnipError> {
    if type_code == BOB_OMB {
        Ok(PeachItem::Bobomb)
    } else if type_code == BEAM_SWORD {
        Ok(PeachItem::Beamsword)
    } else if type_code == MR_SATURN {
        Ok(PeachItem::MrSaturn)
    } else if type_code == PEACH_TURNIP {
        match misc {
            Some(m) => if m.len() >= 2 {
                turnip_face(m[1])
            } else {
                Err(TurnipError::MissingMisc)
            },
            None => Err(TurnipError::MissingMisc),
        }
    } else {
        Err(TurnipError::NotPeachItem)
    }
}

/// The auxiliary data of an observation, as a sequence.
pub open spec fn misc_of(item: RawItem) -> Option<Seq<u8>> {
    match item.misc {
        Some(m) => Some(m@),
        None => None,
    }
}

/// Owner of an observation, if it is a player.
pub open spec fn owner_of(owner: Option<Option<Port>>) -> Result<Port, TurnipError> {
    match owner {
        None => Err(TurnipError::MissingOwner),
        Some(None) => Err(TurnipError::OwnerNotPlayer),
        Some(Some(p)) => Ok(p),
    }
}

/// Classification of an observation made on `frame`: its identifier, what is
/// fixed about it, and its state, or why it is not tracked.
pub open spec fn classify(frame: i32, item: RawItem) -> Result<(u32, ItemData, StateSnapshot), TurnipError> {
    match item_kind(item.type_code, misc_of(item)) {
        Err(e) => Err(e),
        Ok(kind) => match owner_of(item.owner) {
            Err(e) => Err(e),
            Ok(owner) => Ok(
                (
                    item.id,
                    ItemData { kind, frame, owner },
                    StateSnapshot { frame, state: ItemState::Unknown(item.state), owner },
                ),
            ),
        },
    }
}

impl PeachItem {
    /// The item's name.
    pub open spec fn spec_name(self) -> Seq<char> {
        match self {
            PeachItem::NormalTurnip => "NormalTurnip"@,
            PeachItem::WinkyTurnip => "WinkyTurnip"@,
            PeachItem::DotEyesTurnip => "DotEyesTurnip"@,
            PeachItem::StitchTurnip => "StitchTurnip"@,
            PeachItem::Beamsword => "Beamsword"@,
            PeachItem::Bobomb => "Bobomb"@,
            PeachItem::MrSaturn => "MrSaturn"@,
        }
    }

    /// The item's name, as it is stored.
    pub fn name(&self) -> (r: &'static str)
        ensures
            r@ == self.spec_name(),
    {
        match self {
            PeachItem::NormalTurnip => "NormalTurnip",
            PeachItem::WinkyTurnip => "WinkyTurnip",
            PeachItem::DotEyesTurnip => "DotEyesTurnip",
            PeachItem::StitchTurnip => "StitchTurnip",
            PeachItem::Beamsword => "Beamsword",
            PeachItem::Bobomb => "Bobomb",
            PeachItem::MrSaturn => "MrSaturn",
        }
    }
}

/// Kind of a turnip with the given face byte.
pub fn turnip_kind(face: u8) -> (r: Result<PeachItem, TurnipError>)
    ensures
        r == turnip_face(face),
{
    match face {
        0..=4 => Ok(PeachItem::NormalTurnip),
        5 => Ok(PeachItem::WinkyTurnip),
        6 => Ok(PeachItem::DotEyesTurnip),
        7 => Ok(PeachItem::StitchTurnip),
        _ => Err(TurnipError::UnknownFace),
    }
}

/// Check whether an observation made on `frame` is a tracked item with a
/// player owner, and if so return its identifier, what is fixed about it and
/// its current state.
pub fn parse_item(frame: i32, item: &RawItem) -> (r: Result<(u32, ItemData, StateSnapshot), TurnipError>)
    ensures
        r == classify(frame, *item),
{
    let kind: PeachItem = if item.type_code == BOB_OMB {
        PeachItem::Bobomb
    } else if item.type_code == BEAM_SWORD {
        PeachItem::Beamsword
    } else if item.type_code == MR_SATURN {
        PeachItem::MrSaturn
    } else if item.type_code == PEACH_TURNIP {
        match &item.misc {
            Some(m) => {
                if m.len() < 2 {
                    return Err(TurnipError::MissingMisc);
                }
                match turnip_kind(m[1]) {
                    Ok(k) => k,
                    Err(e) => return Err(e),
                }
            },
            None => return Err(TurnipError::MissingMisc),
        }
    } else {
        return Err(TurnipError::NotPeachItem);
    };

    let owner: Port = match item.owner {
        None => return Err(TurnipError::MissingOwner),
        Some(None) => return Err(TurnipError::OwnerNotPlayer),
        Some(Some(p)) => p,
    };

    let state = ItemState::Unknown(item.state);

    Ok((item.id, ItemData { kind, frame, owner }, StateSnapshot { frame, state, owner }))
}

} // verus!
