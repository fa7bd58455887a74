//! The wire model: a structural mirror of the server-info JSON payload.
//! String-encoded sub-values (dates, player counts, base64 text) are kept
//! exactly as transmitted; every optional key is an `Option`.

use vstd::prelude::*;

verus! {

/// The raw server-info response as transmitted.
///
/// The `error` key decides the outcome: when it is present the response
/// is a failure, whatever `success` says; otherwise `cooldown` and
/// `servers` are required.
#[derive(Clone, Debug)]
pub struct RawResponse {
    /// The transmitted success flag (`"Success"`).
    pub success: bool,
    /// The error message, when the request failed (`"Error"`).
    pub error: Option<String>,
    /// The reported servers, on success (`"Servers"`).
    pub servers: Option<Vec<RawServerInfo>>,
    /// The cooldown in seconds, on success (transmitted under the reused
    /// key `"Success"`).
    pub cooldown: Option<u64>,
}

/// One server's state as transmitted.
#[derive(Clone, Debug)]
pub struct RawServerInfo {
    /// The server's identifier (`"ID"`).
    pub id: u64,
    /// The server's port (`"Port"`).
    pub port: u16,
    /// The last day the server was seen, as `YYYY-MM-DD`
    /// (`"LastOnline"`).
    pub last_online: Option<String>,
    /// The player count as `"<current>/<max>"` (`"Players"`).
    pub players_count: Option<String>,
    /// The players on the server (`"PlayersList"`).
    pub players: Option<Vec<RawPlayer>>,
    /// The server description, base64 encoded (`"Info"`).
    pub info: Option<String>,
    /// Whether friendly fire is on (`"FF"`).
    pub friendly_fire: Option<bool>,
    /// Whether a whitelist is on (`"WL"`).
    pub whitelist: Option<bool>,
    /// Whether the server is modded (`"Modded"`).
    pub modded: Option<bool>,
    /// The number of mods (`"Mods"`).
    pub mods: Option<u64>,
    /// Whether suppression is on (`"Suppress"`).
    pub suppress: Option<bool>,
    /// Whether automatic suppression is on (`"AutoSuppress"`).
    pub auto_suppress: Option<bool>,
}

/// One player as transmitted: either a bare identifier string, or an
/// object carrying an identifier and an optional nickname.
#[derive(Clone, Debug)]
pub enum RawPlayer {
    /// The player was transmitted as a bare identifier string.
    UserId(String),
    /// The player was transmitted as an object (`"ID"`, `"Nickname"`).
    UserIdWithNickname {
        /// The player's identifier.
        id: String,
        /// The player's nickname.
        nickname: Option<String>,
    },
}

} // verus!
