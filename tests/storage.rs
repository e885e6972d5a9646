use turnip_counter::item::{PeachItem, Port, RawItem, TurnipError, PEACH_TURNIP};
use turnip_counter::log::{find_turnips, Frame};
use turnip_counter::metadata::{find_player, game_metadata, Netplay, Player};
use turnip_counter::record::{record_items, DBCommand};

fn turnip(id: u32, face: u8, owner: Port) -> RawItem {
    RawItem { id, type_code: PEACH_TURNIP, state: 0, misc: Some(vec![0, face, 0, 0]), owner: Some(Some(owner)) }
}

fn player(port: Port, code: &str, name: &str) -> Player {
    Player { port, netplay: Some(Netplay { code: code.to_string(), name: name.to_string() }) }
}

#[test]
fn record_items_only_mine() {
    let frames = vec![
        Frame { index: 3, items: Some(vec![turnip(1, 5, Port::P2), turnip(2, 0, Port::P1)]) },
        Frame { index: 4, items: Some(vec![turnip(3, 7, Port::P2)]) },
    ];
    let log = find_turnips(frames);
    let cmds = record_items(&log, 12, Port::P2);
    assert_eq!(
        cmds,
        vec![
            DBCommand::Item { game_id: 12, item_id: 1, frame: 3, kind: PeachItem::WinkyTurnip },
            DBCommand::Item { game_id: 12, item_id: 3, frame: 4, kind: PeachItem::StitchTurnip },
        ]
    );
    assert_eq!(record_items(&log, 12, Port::P3), vec![]);
}

#[test]
fn metadata_of_a_match() {
    let players = Some(vec![player(Port::P1, "ABC#1", "Abc"), player(Port::P2, "ACAB#420", "Me")]);
    let md = game_metadata("a.slp".to_string(), Some(1600000000), &players, &"ACAB#420".to_string()).unwrap();
    assert_eq!(md.filename, "a.slp");
    assert_eq!(md.start_time, 1600000000);
    assert_eq!(md.p1_name, "Abc");
    assert_eq!(md.p1_code, "ABC#1");
    assert_eq!(md.p2_code, "ACAB#420");
    assert_eq!(md.p2_name, "ACAB#420");
    assert_eq!(md.my_port, Port::P2);
    let md = game_metadata("a.slp".to_string(), Some(0), &players, &"ABC#1".to_string()).unwrap();
    assert_eq!(md.my_port, Port::P1);
}

#[test]
fn metadata_errors() {
    let code = "X#1".to_string();
    let both = Some(vec![player(Port::P1, "X#1", "x"), player(Port::P2, "Y#2", "y")]);
    assert_eq!(game_metadata(String::new(), Some(0), &None, &code).err(), Some(TurnipError::MissingPlayers));
    assert_eq!(game_metadata(String::new(), None, &both, &code).err(), Some(TurnipError::MissingStartTime));
    let only_p2 = Some(vec![player(Port::P2, "X#1", "x")]);
    assert_eq!(game_metadata(String::new(), Some(0), &only_p2, &code).err(), Some(TurnipError::MissingPlayer(Port::P1)));
    let only_p1 = Some(vec![player(Port::P1, "X#1", "x"), player(Port::P3, "Y#2", "y")]);
    assert_eq!(game_metadata(String::new(), Some(0), &only_p1, &code).err(), Some(TurnipError::MissingPlayer(Port::P2)));
    let offline = Some(vec![player(Port::P1, "X#1", "x"), Player { port: Port::P2, netplay: None }]);
    assert_eq!(game_metadata(String::new(), Some(0), &offline, &code).err(), Some(TurnipError::MissingNetplay(Port::P2)));
    assert_eq!(
        game_metadata(String::new(), Some(0), &both, &"Z#3".to_string()).err(),
        Some(TurnipError::UnknownPlayerCode)
    );
}

#[test]
fn last_player_on_a_port_wins() {
    let players = vec![player(Port::P1, "A#1", "a"), player(Port::P2, "B#2", "b"), player(Port::P1, "C#3", "c")];
    assert_eq!(find_player(&players, Port::P1), Some(2));
    assert_eq!(find_player(&players, Port::P2), Some(1));
    assert_eq!(find_player(&players, Port::P4), None);
    let md = game_metadata(String::new(), Some(5), &Some(players), &"C#3".to_string()).unwrap();
    assert_eq!(md.p1_name, "c");
    assert_eq!(md.my_port, Port::P1);
}
