use turnip_counter::item::{
    parse_item, turnip_kind, ItemData, ItemState, PeachItem, Port, RawItem, StateSnapshot, TurnipError,
    BEAM_SWORD, BOB_OMB, MR_SATURN, PEACH_TURNIP,
};

fn turnip(id: u32, face: u8, state: u8) -> RawItem {
    RawItem { id, type_code: PEACH_TURNIP, state, misc: Some(vec![0, face, 0, 0]), owner: Some(Some(Port::P1)) }
}

fn kind_of(item: &RawItem) -> Result<PeachItem, TurnipError> {
    parse_item(0, item).map(|(_, data, _)| data.kind)
}

#[test]
fn default_faces_are_normal_turnips() {
    for face in 0..=4u8 {
        assert_eq!(kind_of(&turnip(1, face, 0)), Ok(PeachItem::NormalTurnip));
    }
}

#[test]
fn special_faces_are_distinct() {
    let winky = kind_of(&turnip(1, 5, 0)).unwrap();
    let dot = kind_of(&turnip(1, 6, 0)).unwrap();
    let stitch = kind_of(&turnip(1, 7, 0)).unwrap();
    assert_eq!(winky, PeachItem::WinkyTurnip);
    assert_eq!(dot, PeachItem::DotEyesTurnip);
    assert_eq!(stitch, PeachItem::StitchTurnip);
    let all = [PeachItem::NormalTurnip, winky, dot, stitch];
    for i in 0..all.len() {
        for j in 0..all.len() {
            if i != j {
                assert_ne!(all[i], all[j]);
            }
        }
    }
}

#[test]
fn unknown_face_is_rejected() {
    assert_eq!(kind_of(&turnip(1, 8, 0)), Err(TurnipError::UnknownFace));
    assert_eq!(kind_of(&turnip(1, 255, 0)), Err(TurnipError::UnknownFace));
    assert_eq!(turnip_kind(8), Err(TurnipError::UnknownFace));
}

#[test]
fn single_variant_items() {
    let mut item = turnip(1, 0, 0);
    item.misc = None;
    item.type_code = BOB_OMB;
    assert_eq!(kind_of(&item), Ok(PeachItem::Bobomb));
    item.type_code = BEAM_SWORD;
    assert_eq!(kind_of(&item), Ok(PeachItem::Beamsword));
    item.type_code = MR_SATURN;
    assert_eq!(kind_of(&item), Ok(PeachItem::MrSaturn));
}

#[test]
fn untracked_type_is_rejected() {
    let mut item = turnip(1, 0, 0);
    item.type_code = 0;
    assert_eq!(kind_of(&item), Err(TurnipError::NotPeachItem));
    item.type_code = 98;
    assert_eq!(kind_of(&item), Err(TurnipError::NotPeachItem));
}

#[test]
fn turnip_without_misc_is_rejected() {
    let mut item = turnip(1, 0, 0);
    item.misc = None;
    assert_eq!(kind_of(&item), Err(TurnipError::MissingMisc));
    item.misc = Some(vec![3]);
    assert_eq!(kind_of(&item), Err(TurnipError::MissingMisc));
    item.misc = Some(vec![]);
    assert_eq!(kind_of(&item), Err(TurnipError::MissingMisc));
    item.misc = Some(vec![9, 6]);
    assert_eq!(kind_of(&item), Ok(PeachItem::DotEyesTurnip));
}

#[test]
fn owner_must_be_a_player() {
    let mut item = turnip(1, 0, 0);
    item.owner = None;
    assert_eq!(parse_item(0, &item).map(|r| r.0), Err(TurnipError::MissingOwner));
    item.owner = Some(None);
    assert_eq!(parse_item(0, &item).map(|r| r.0), Err(TurnipError::OwnerNotPlayer));
}

#[test]
fn untracked_type_wins_over_missing_owner() {
    let item = RawItem { id: 3, type_code: 1, state: 0, misc: None, owner: None };
    assert_eq!(parse_item(0, &item).map(|r| r.0), Err(TurnipError::NotPeachItem));
}

#[test]
fn parse_item_returns_identity_data_and_state() {
    let mut item = turnip(42, 6, 11);
    item.owner = Some(Some(Port::P2));
    let (id, data, snap) = parse_item(17, &item).unwrap();
    assert_eq!(id, 42);
    assert_eq!(data, ItemData { kind: PeachItem::DotEyesTurnip, frame: 17, owner: Port::P2 });
    assert_eq!(snap, StateSnapshot { frame: 17, state: ItemState::Unknown(11), owner: Port::P2 });
}

#[test]
fn item_names() {
    assert_eq!(PeachItem::NormalTurnip.name(), "NormalTurnip");
    assert_eq!(PeachItem::StitchTurnip.name(), "StitchTurnip");
    assert_eq!(PeachItem::MrSaturn.name(), "MrSaturn");
}
