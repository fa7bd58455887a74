//! The domain model: the typed representation handed to callers, with
//! dates, counts and descriptions decoded.

use crate::date::CalendarDate;
use vstd::prelude::*;

verus! {

/// A parsed server-info response: success or failure, exactly one.
pub enum Response {
    /// The request succeeded.
    Success(SuccessResponse),
    /// The request failed; the server sent an error message.
    Error(ErrorResponse),
}

impl Response {
    /// Every record a successful response carries is well formed.
    pub open spec fn wf(self) -> bool {
        match self {
            Response::Success(s) => s.wf(),
            Response::Error(_) => true,
        }
    }
}

/// The successful outcome: a cooldown and the reported servers.
#[derive(Clone)]
pub struct SuccessResponse {
    /// Seconds to wait before the next server-info request.
    pub cooldown: u64,
    /// The reported servers, in transmitted order.
    pub servers: Vec<ServerInfo>,
}

/// The unsuccessful outcome: the server's error message.
#[derive(Clone)]
pub struct ErrorResponse {
    /// The transmitted error message.
    pub error: String,
}

/// One server's reported state, decoded.
#[derive(Clone)]
pub struct ServerInfo {
    /// The server's identifier.
    pub id: u64,
    /// The server's port.
    pub port: u16,
    /// The last day the server was seen; `None` when not reported.
    pub last_online: Option<CalendarDate>,
    /// Current and maximum player count; `None` when not reported.
    pub players_count: Option<PlayersCount>,
    /// The players on the server; `None` when not reported.
    pub players: Option<Vec<Player>>,
    /// The decoded server description; `None` when not reported.
    pub info: Option<String>,
    /// Whether friendly fire is on; `None` when not reported.
    pub friendly_fire: Option<bool>,
    /// Whether a whitelist is on; `None` when not reported.
    pub whitelist: Option<bool>,
    /// Whether the server is modded; `None` when not reported.
    pub modded: Option<bool>,
    /// The number of mods; `None` when not reported.
    pub mods: Option<u64>,
    /// Whether suppression is on; `None` when not reported.
    pub suppress: Option<bool>,
    /// Whether automatic suppression is on; `None` when not reported.
    pub auto_suppress: Option<bool>,
}

/// A server's player count: how many are on, out of how many places.
#[derive(Clone, Copy, Debug, PartialEq, Eq, Structural)]
pub struct PlayersCount {
    /// The maximum number of players.
    pub max_players: u32,
    /// The number of players currently on.
    pub current_players: u32,
}

/// One player, normalized: an identifier and an optional nickname.
#[derive(Clone, Debug)]
pub struct Player {
    /// The player's identifier.
    pub id: String,
    /// The player's nickname; `None` when the wire form carried none.
    pub nickname: Option<String>,
}

impl ServerInfo {
    /// Every date the record carries names a real calendar day in the
    /// four-digit year range of the wire format.
    pub open spec fn wf(self) -> bool {
        match self.last_online {
            Some(d) => d.wf(),
            None => true,
        }
    }

    /// Get the server info's id.
    pub fn id(&self) -> (r: u64)
        ensures
            r == self.id,
    {
        self.id
    }

    /// Get the server info's port.
    pub fn port(&self) -> (r: u16)
        ensures
            r == self.port,
    {
        self.port
    }

    /// Get the server info's last online date.
    pub fn last_online(&self) -> (r: Option<CalendarDate>)
        ensures
            r == self.last_online,
    {
        self.last_online
    }

    /// Get a reference to the server info's players count.
    pub fn players_count(&self) -> (r: Option<&PlayersCount>)
        ensures
            match r {
                Some(pc) => self.players_count == Some(*pc),
                None => self.players_count is None,
            },
    {
        match &self.players_count {
            Some(pc) => Some(pc),
            None => None,
        }
    }

    /// Get a reference to the server info's players.
    pub fn players(&self) -> (r: Option<&Vec<Player>>)
        ensures
            match r {
                Some(ps) => self.players == Some(*ps),
                None => self.players is None,
            },
    {
        match &self.players {
            Some(ps) => Some(ps),
            None => None,
        }
    }

    /// Get a reference to the server info's description.
    pub fn info(&self) -> (r: Option<&String>)
        ensures
            match r {
                Some(t) => self.info == Some(*t),
                None => self.info is None,
            },
    {
        match &self.info {
            Some(t) => Some(t),
            None => None,
        }
    }

    /// Get the server info's friendly fire flag.
    pub fn friendly_fire(&self) -> (r: Option<bool>)
        ensures
            r == self.friendly_fire,
    {
        self.friendly_fire
    }

    /// Get the server info's whitelist flag.
    pub fn whitelist(&self) -> (r: Option<bool>)
        ensures
            r == self.whitelist,
    {
        self.whitelist
    }

    /// Get the server info's modded flag.
    pub fn modded(&self) -> (r: Option<bool>)
        ensures
            r == self.modded,
    {
        self.modded
    }

    /// Get the server info's mod count.
    pub fn mods(&self) -> (r: Option<u64>)
        ensures
            r == self.mods,
    {
        self.mods
    }

    /// Get the server info's suppress flag.
    pub fn suppress(&self) -> (r: Option<bool>)
        ensures
            r == self.suppress,
    {
        self.suppress
    }

    /// Get the server info's auto suppress flag.
    pub fn auto_suppress(&self) -> (r: Option<bool>)
        ensures
            r == self.auto_suppress,
    {
        self.auto_suppress
    }

    /// Get a mutable reference to the server info's id.
    pub fn id_mut(&mut self) -> (r: &mut u64)
        ensures
            *r == old(self).id,
            *final(self) == (ServerInfo { id: *final(r), ..*old(self) }),
    {
        &mut self.id
    }

    /// Get a mutable reference to the server info's port.
    pub fn port_mut(&mut self) -> (r: &mut u16)
        ensures
            *r == old(self).port,
            *final(self) == (ServerInfo { port: *final(r), ..*old(self) }),
    {
        &mut self.port
    }

    /// Get a mutable reference to the server info's last online date.
    pub fn last_online_mut(&mut self) -> (r: &mut Option<CalendarDate>)
        ensures
            *r == old(self).last_online,
            *final(self) == (ServerInfo { last_online: *final(r), ..*old(self) }),
    {
        &mut self.last_online
    }

    /// Get a mutable reference to the server info's players count.
    pub fn players_count_mut(&mut self) -> (r: &mut Option<PlayersCount>)
        ensures
            *r == old(self).players_count,
            *final(self) == (ServerInfo { players_count: *final(r), ..*old(self) }),
    {
        &mut self.players_count
    }

    /// Get a mutable reference to the server info's players.
    pub fn players_mut(&mut self) -> (r: &mut Option<Vec<Player>>)
        ensures
            *r == old(self).players,
            *final(self) == (ServerInfo { players: *final(r), ..*old(self) }),
    {
        &mut self.players
    }

    /// Get a mutable reference to the server info's description.
    pub fn info_mut(&mut self) -> (r: &mut Option<String>)
        ensures
            *r == old(self).info,
            *final(self) == (ServerInfo { info: *final(r), ..*old(self) }),
    {
        &mut self.info
    }

    /// Get a mutable reference to the server info's friendly fire flag.
    pub fn friendly_fire_mut(&mut self) -> (r: &mut Option<bool>)
        ensures
            *r == old(self).friendly_fire,
            *final(self) == (ServerInfo { friendly_fire: *final(r), ..*old(self) }),
    {
        &mut self.friendly_fire
    }

    /// Get a mutable reference to the server info's whitelist flag.
    pub fn whitelist_mut(&mut self) -> (r: &mut Option<bool>)
        ensures
            *r == old(self).whitelist,
            *final(self) == (ServerInfo { whitelist: *final(r), ..*old(self) }),
    {
        &mut self.whitelist
    }

    /// Get a mutable reference to the server info's modded flag.
    pub fn modded_mut(&mut self) -> (r: &mut Option<bool>)
        ensures
            *r == old(self).modded,
            *final(self) == (ServerInfo { modded: *final(r), ..*old(self) }),
    {
        &mut self.modded
    }

    /// Get a mutable reference to the server info's mod count.
    pub fn mods_mut(&mut self) -> (r: &mut Option<u64>)
        ensures
            *r == old(self).mods,
            *final(self) == (ServerInfo { mods: *final(r), ..*old(self) }),
    {
        &mut self.mods
    }

    /// Get a mutable reference to the server info's suppress flag.
    pub fn suppress_mut(&mut self) -> (r: &mut Option<bool>)
        ensures
            *r == old(self).suppress,
            *final(self) == (ServerInfo { suppress: *final(r), ..*old(self) }),
    {
        &mut self.suppress
    }

    /// Get a mutable reference to the server info's auto suppress flag.
    pub fn auto_suppress_mut(&mut self) -> (r: &mut Option<bool>)
        ensures
            *r == old(self).auto_suppress,
            *final(self) == (ServerInfo { auto_suppress: *final(r), ..*old(self) }),
    {
        &mut self.auto_suppress
    }
}

impl Default for ServerInfo {
    /// The empty record: zero identity, nothing reported.
    fn default() -> (r: Self)
        ensures
            r.id == 0 && r.port == 0,
            r.last_online is None && r.players_count is None && r.players is None,
            r.info is None && r.friendly_fire is None && r.whitelist is None,
            r.modded is None && r.mods is None && r.suppress is None,
            r.auto_suppress is None,
    {
        ServerInfo {
            id: 0,
            port: 0,
            last_online: None,
            players_count: None,
            players: None,
            info: None,
            friendly_fire: None,
            whitelist: None,
            modded: None,
            mods: None,
            suppress: None,
            auto_suppress: None,
        }
    }
}

impl SuccessResponse {
    /// Every reported record is well formed.
    pub open spec fn wf(self) -> bool {
        forall|i: int| 0 <= i < self.servers@.len() ==> (#[trigger] self.servers@[i]).wf()
    }

    /// Get the success response's cooldown.
    pub fn cooldown(&self) -> (r: u64)
        ensures
            r == self.cooldown,
    {
        self.cooldown
    }

    /// Get a reference to the success response's servers.
    pub fn servers(&self) -> (r: &[ServerInfo])
        ensures
            r@ == self.servers@,
    {
        self.servers.as_slice()
    }

    /// Get a mutable reference to the success response's cooldown.
    pub fn cooldown_mut(&mut self) -> (r: &mut u64)
        ensures
            *r == old(self).cooldown,
            *final(self) == (SuccessResponse { cooldown: *final(r), ..*old(self) }),
    {
        &mut self.cooldown
    }

    /// Get a mutable reference to the success response's servers.
    pub fn servers_mut(&mut self) -> (r: &mut Vec<ServerInfo>)
        ensures
            *r == old(self).servers,
            *final(self) == (SuccessResponse { servers: *final(r), ..*old(self) }),
    {
        &mut self.servers
    }
}

impl Default for SuccessResponse {
    /// The empty success: no cooldown, no servers.
    fn default() -> (r: Self)
        ensures
            r.cooldown == 0,
            r.servers@.len() == 0,
    {
        SuccessResponse { cooldown: 0, servers: Vec::new() }
    }
}

impl ErrorResponse {
    /// Builds a failure outcome from its message.
    pub fn new(error: String) -> (r: Self)
        ensures
            r.error@ == error@,
    {
        ErrorResponse { error }
    }

    /// Get the error response's message.
    pub fn error(&self) -> (r: &str)
        ensures
            r@ == self.error@,
    {
        self.error.as_str()
    }

    /// Get a mutable reference to the error response's message.
    pub fn error_mut(&mut self) -> (r: &mut String)
        ensures
            *r == old(self).error,
            final(self).error == *final(r),
    {
        &mut self.error
    }
}

impl Default for ErrorResponse {
    /// The empty failure: an empty message.
    fn default() -> (r: Self)
        ensures
            r.error@.len() == 0,
    {
        ErrorResponse { error: String::new() }
    }
}

impl PlayersCount {
    /// Get the count's maximum number of players.
    pub fn max_players(&self) -> (r: u32)
        ensures
            r == self.max_players,
    {
        self.max_players
    }

    /// Get the count's current number of players.
    pub fn current_players(&self) -> (r: u32)
        ensures
            r == self.current_players,
    {
        self.current_players
    }

    /// Get a mutable reference to the count's maximum number of players.
    pub fn max_players_mut(&mut self) -> (r: &mut u32)
        ensures
            *r == old(self).max_players,
            *final(self) == (PlayersCount { max_players: *final(r), ..*old(self) }),
    {
        &mut self.max_players
    }

    /// Get a mutable reference to the count's current number of players.
    pub fn current_players_mut(&mut self) -> (r: &mut u32)
        ensures
            *r == old(self).current_players,
            *final(self) == (PlayersCount { current_players: *final(r), ..*old(self) }),
    {
        &mut self.current_players
    }
}

impl Default for PlayersCount {
    /// The empty count.
    fn default() -> (r: Self)
        ensures
            r.max_players == 0,
            r.current_players == 0,
    {
        PlayersCount { max_players: 0, current_players: 0 }
    }
}

impl Player {
    /// Get the player's identifier.
    pub fn id(&self) -> (r: &str)
        ensures
            r@ == self.id@,
    {
        self.id.as_str()
    }

    /// Get a reference to the player's nickname.
    pub fn nickname(&self) -> (r: Option<&String>)
        ensures
            match r {
                Some(n) => self.nickname == Some(*n),
                None => self.nickname is None,
            },
    {
        match &self.nickname {
            Some(n) => Some(n),
            None => None,
        }
    }
}

impl Default for Player {
    /// The empty player: an empty identifier, no nickname.
    fn default() -> (r: Self)
        ensures
            r.id@.len() == 0,
            r.nickname is None,
    {
        Player { id: String::new(), nickname: None }
    }
}

} // verus!
