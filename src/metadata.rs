//! The players of a match and the port of the player being tracked.

use vstd::prelude::*;
use crate::item::{Port, TurnipError};

verus! {

/// Netplay identity of a player.
#[derive(Debug, Clone)]
pub struct Netplay {
    pub code: String,
    pub name: String,
}

/// A player as listed in a match's metadata.
#[derive(Debug, Clone)]
pub struct Player {
    pub port: Port,
    pub netplay: Option<Netplay>,
}

/// What is stored about a match.
#[derive(Debug, Clone)]
pub struct GameMetadata {
    pub filename: String,
    /// Start of the match, in seconds since the Unix epoch.
    pub start_time: i64,
    pub p1_name: String,
    pub p1_code: String,
    /// Stored from P2's connect code.
    pub p2_name: String,
    pub p2_code: String,
    /// Port of the player whose connect code was looked for.
    pub my_port: Port,
}

/// Index of the last player in `ps` on `port`.
pub open spec fn last_on_port(ps: Seq<Player>, port: Port) -> Option<int>
    decreases ps.len(),
{
    if ps.len() == 0 {
        None
    } else if ps.last().port == port {
        Some(ps.len() - 1)
    } else {
        last_on_port(ps.drop_last(), port)
    }
}

/// Netplay identity of the last player in `ps` on `port`, or why there is
/// none.
pub open spec fn netplay_on(ps: Seq<Player>, port: Port) -> Result<Netplay, TurnipError> {
    match last_on_port(ps, port) {
        None => Err(TurnipError::MissingPlayer(port)),
        Some(i) => match ps[i].netplay {
            None => Err(TurnipError::MissingNetplay(port)),
            Some(n) => Ok(n),
        },
    }
}

/// Why metadata cannot be taken from a match, if it cannot.
pub open spec fn metadata_error(date: Option<i64>, players: Option<Seq<Player>>, my_code: Seq<char>) -> Option<
    TurnipError,
> {
    match players {
        None => Some(TurnipError::MissingPlayers),
        Some(ps) => if date is None {
            Some(TurnipError::MissingStartTime)
        } else if last_on_port(ps, Port::P1) is None {
            Some(TurnipError::MissingPlayer(Port::P1))
        } else if last_on_port(ps, Port::P2) is None {
            Some(TurnipError::MissingPlayer(Port::P2))
        } else if netplay_on(ps, Port::P1) is Err {
            Some(TurnipError::MissingNetplay(Port::P1))
        } else if netplay_on(ps, Port::P2) is Err {
            Some(TurnipError::MissingNetplay(Port::P2))
        } else if netplay_on(ps, Port::P1)->Ok_0.code@ != my_code && netplay_on(ps, Port::P2)->Ok_0.code@
            != my_code {
            Some(TurnipError::UnknownPlayerCode)
        } else {
            None
        },
    }
}

/// The players' list, as a sequence.
pub open spec fn players_seq(players: Option<Vec<Player>>) -> Option<Seq<Player>> {
    match players {
        Some(ps) => Some(ps@),
        None => None,
    }
}

/// Index of the last player in `players` on `port`.
pub fn find_player(players: &Vec<Player>, port: Port) -> (r: Option<usize>)
    ensures
        match (r, last_on_port(players@, port)) {
            (Some(i), Some(j)) => i == j,
            (None, None) => true,
            _ => false,
        },
        r matches Some(i) ==> i < players@.len(),
{
    let mut i: usize = players.len();
    assert(players@.take(i as int) =~= players@);
    while i > 0
        invariant
            i <= players@.len(),
            last_on_port(players@, port) == last_on_port(players@.take(i as int), port),
        decreases i,
    {
        assert(players@.take(i as int).drop_last() =~= players@.take(i - 1));
        i -= 1;
        if players[i].port == port {
            return Some(i);
        }
    }
    None
}

/// Netplay identity of the last player in `players` on `port`.
fn netplay_of(players: &Vec<Player>, port: Port) -> (r: Result<&Netplay, TurnipError>)
    ensures
        match (r, netplay_on(players@, port)) {
            (Ok(n), Ok(m)) => *n == m,
            (Err(e), Err(f)) => e == f,
            _ => false,
        },
{
    match find_player(players, port) {
        None => Err(TurnipError::MissingPlayer(port)),
        Some(i) => match &players[i].netplay {
            None => Err(TurnipError::MissingNetplay(port)),
            Some(n) => Ok(n),
        },
    }
}

/// Metadata to record for a match read from `filename`, which started at
/// `date` and lists `players`; `my_port` is the port of the player whose
/// connect code is `my_code`, P2's if both have it.
pub fn game_metadata(filename: String, date: Option<i64>, players: &Option<Vec<Player>>, my_code: &String) -> (r: Result<
    GameMetadata,
    TurnipError,
>)
    ensures
        match r {
            Err(e) => metadata_error(date, players_seq(*players), my_code@) == Some(e),
            Ok(md) => {
                let ps = players_seq(*players)->Some_0;
                let p1 = netplay_on(ps, Port::P1)->Ok_0;
                let p2 = netplay_on(ps, Port::P2)->Ok_0;
                &&& metadata_error(date, players_seq(*players), my_code@) is None
                &&& md.filename@ == filename@
                &&& md.start_time == date->Some_0
                &&& md.p1_name@ == p1.name@
                &&& md.p1_code@ == p1.code@
                &&& md.p2_name@ == p2.code@
                &&& md.p2_code@ == p2.code@
                &&& md.my_port == if p2.code@ == my_code@ {
                    Port::P2
                } else {
                    Port::P1
                }
            },
        },
{
    let players = match players {
        None => return Err(TurnipError::MissingPlayers),
        Some(ps) => ps,
    };
    let start_time = match date {
        None => return Err(TurnipError::MissingStartTime),
        Some(t) => t,
    };
    if find_player(players, Port::P1).is_none() {
        return Err(TurnipError::MissingPlayer(Port::P1));
    }
    if find_player(players, Port::P2).is_none() {
        return Err(TurnipError::MissingPlayer(Port::P2));
    }
    let p1 = match netplay_of(players, Port::P1) {
        Err(e) => return Err(e),
        Ok(n) => n,
    };
    let p2 = match netplay_of(players, Port::P2) {
        Err(e) => return Err(e),
        Ok(n) => n,
    };
    let my_port = if p2.code.eq(my_code) {
        Port::P2
    } else if p1.code.eq(my_code) {
        Port::P1
    } else {
        return Err(TurnipError::UnknownPlayerCode);
    };
    Ok(GameMetadata {
        filename,
        start_time,
        p1_name: p1.name.clone(),
        p1_code: p1.code.clone(),
        p2_name: p2.code.clone(),
        p2_code: p2.code.clone(),
        my_port,
    })
}

} // verus!
