//! The converter: pure, verified mappings between the wire model and
//! the domain model, with every decoding rule stated at the spec level.

use crate::b64::b64_decode;
use crate::b64::b64_decode_of;
use crate::b64::b64_encode;
use crate::b64::b64_encode_of;
use crate::b64::string_from_utf8;
use crate::date::date_of_str;
use crate::date::date_str_of;
use crate::date::format_date;
use crate::date::is_date_str;
use crate::date::lemma_date_round_trip;
use crate::date::parse_date;
use crate::digits::dec_str_of;
use crate::digits::dec_val_of;
use crate::digits::is_dec_digit;
use crate::digits::is_u32_dec;
use crate::digits::lemma_dec_str_of;
use crate::digits::u64_to_dec;
use crate::domain::ErrorResponse;
use crate::domain::Player;
use crate::domain::PlayersCount;
use crate::domain::Response;
use crate::domain::ServerInfo;
use crate::domain::SuccessResponse;
use crate::scan::find_char;
use crate::scan::lemma_find_char;
use crate::scan::lemma_find_char_at;
use crate::scan::scan_char;
use crate::wire::RawPlayer;
use crate::wire::RawResponse;
use crate::wire::RawServerInfo;
use vstd::prelude::*;
use vstd::string::StrSliceExecFns;
use vstd::string::StringExecFns;
use vstd::utf8::decode_utf8;
use vstd::utf8::valid_utf8;

verus! {

/// Why a wire payload could not be converted to the domain model.
#[derive(Clone, Copy, Debug, PartialEq, Eq, Structural)]
pub enum ConvertError {
    /// A required field of the response was missing.
    MalformedPayload,
    /// A transmitted date deviated from `YYYY-MM-DD` or named no real
    /// calendar day.
    DateFormatError,
    /// A transmitted player count was not two integers separated by a
    /// slash.
    CountFormatError,
    /// A transmitted description was not base64-encoded UTF-8 text.
    EncodingError,
}

// ---------------------------------------------------------------------
// Player counts: "<current>/<max>".
// ---------------------------------------------------------------------
/// A valid wire player count: a first slash with a `u32` decimal
/// number on each side of it.
pub open spec fn is_count_str(s: Seq<char>) -> bool {
    let i = find_char(s, '/');
    &&& i >= 0
    &&& is_u32_dec(s.subrange(0, i))
    &&& is_u32_dec(s.subrange(i + 1, s.len() as int))
}

/// The count a valid wire player count denotes.
pub open spec fn count_of_str(s: Seq<char>) -> PlayersCount {
    let i = find_char(s, '/');
    PlayersCount {
        current_players: dec_val_of(s.subrange(0, i)) as u32,
        max_players: dec_val_of(s.subrange(i + 1, s.len() as int)) as u32,
    }
}

/// The wire form of a count: both numbers in canonical decimal, a
/// slash between them.
pub open spec fn count_str_of(pc: PlayersCount) -> Seq<char> {
    dec_str_of(pc.current_players as int) + seq!['/'] + dec_str_of(pc.max_players as int)
}

/// The wire form of a count is valid and denotes the count it was
/// formed from: parsing inverts formatting.
pub proof fn lemma_count_round_trip(pc: PlayersCount)
    ensures
        is_count_str(count_str_of(pc)),
        count_of_str(count_str_of(pc)) == pc,
{
    let a = dec_str_of(pc.current_players as int);
    let b = dec_str_of(pc.max_players as int);
    let s = count_str_of(pc);
    lemma_dec_str_of(pc.current_players as int);
    lemma_dec_str_of(pc.max_players as int);
    assert forall|k: int| 0 <= k < a.len() implies a[k] != '/' by {
        assert(is_dec_digit(a[k]));
        assert('/' as u32 == 47);
    }
    assert(s[a.len() as int] == '/');
    assert(forall|k: int| 0 <= k < a.len() ==> s[k] == a[k]);
    lemma_find_char_at(s, '/', a.len() as int);
    assert(s.subrange(0, a.len() as int) =~= a);
    assert(s.subrange(a.len() as int + 1, s.len() as int) =~= b);
}

/// Parses a wire player count: the part before the first slash and the
/// part after it, both as `u32`. `None` when there is no slash, a part
/// is empty or not a number, or a number does not fit.
pub fn parse_count(s: &str) -> (r: Option<PlayersCount>)
    ensures
        match r {
            Some(pc) => is_count_str(s@) && pc == count_of_str(s@),
            None => !is_count_str(s@),
        },
{
    let i = match scan_char(s, '/') {
        Some(i) => i,
        None => {
            return None;
        },
    };
    proof {
        lemma_find_char(s@, '/');
    }
    let n = s.unicode_len();
    let current = match crate::digits::parse_u32_range(s, 0, i) {
        Some(v) => v,
        None => {
            return None;
        },
    };
    let max = match crate::digits::parse_u32_range(s, i + 1, n) {
        Some(v) => v,
        None => {
            return None;
        },
    };
    Some(PlayersCount { current_players: current, max_players: max })
}

/// Formats a count as its wire form.
pub fn format_count(pc: &PlayersCount) -> (r: String)
    ensures
        r@ == count_str_of(*pc),
        is_count_str(r@),
        count_of_str(r@) == *pc,
{
    proof {
        reveal_strlit("/");
        lemma_count_round_trip(*pc);
    }
    let mut s = u64_to_dec(pc.current_players as u64);
    s.append("/");
    let m = u64_to_dec(pc.max_players as u64);
    s.append(m.as_str());
    assert(s@ =~= count_str_of(*pc));
    s
}

// ---------------------------------------------------------------------
// Descriptions: base64-encoded UTF-8 text.
// ---------------------------------------------------------------------
/// The domain text a wire description denotes: base64, then UTF-8;
/// `None` when either step fails.
pub open spec fn info_of_str(s: Seq<char>) -> Option<Seq<char>> {
    match b64_decode_of(s) {
        Some(bytes) => if valid_utf8(bytes) {
            Some(decode_utf8(bytes))
        } else {
            None
        },
        None => None,
    }
}

/// The wire form of a domain description: its UTF-8 bytes, base64
/// encoded.
pub open spec fn info_str_of(t: Seq<char>) -> Seq<char> {
    b64_encode_of(vstd::utf8::encode_utf8(t))
}

/// Decodes a wire description. `None` when the text is not valid
/// padded standard base64, or its bytes are not valid UTF-8.
pub fn decode_info(s: &str) -> (r: Option<String>)
    ensures
        match r {
            Some(t) => info_of_str(s@) == Some(t@),
            None => info_of_str(s@) is None,
        },
{
    match b64_decode(s) {
        Some(bytes) => string_from_utf8(bytes),
        None => None,
    }
}

/// Encodes a domain description as its wire form; decoding inverts it.
pub fn encode_info(t: &str) -> (r: String)
    ensures
        r@ == info_str_of(t@),
        info_of_str(r@) == Some(t@),
{
    let bytes = t.as_bytes_vec();
    let r = b64_encode(&bytes);
    proof {
        vstd::utf8::encode_utf8_valid_utf8(t@);
        vstd::utf8::encode_utf8_decode_utf8(t@);
    }
    r
}

// ---------------------------------------------------------------------
// Players: bare identifier, or object with an optional nickname.
// ---------------------------------------------------------------------
/// The wire form of a player: the bare-string variant exactly when the
/// nickname is absent.
pub open spec fn player_to_raw(p: Player) -> RawPlayer {
    match p.nickname {
        Some(_) => RawPlayer::UserIdWithNickname { id: p.id, nickname: p.nickname },
        None => RawPlayer::UserId(p.id),
    }
}

/// The domain reading of a wire player: both variants normalize to an
/// identifier and an optional nickname.
pub open spec fn player_of_raw(r: RawPlayer) -> Player {
    match r {
        RawPlayer::UserId(id) => Player { id, nickname: None },
        RawPlayer::UserIdWithNickname { id, nickname } => Player { id, nickname },
    }
}

/// A player with no nickname takes the bare-string wire variant, one
/// with a nickname the object variant, and reading the wire form back
/// recovers the player exactly.
pub proof fn lemma_player_round_trip(p: Player)
    ensures
        player_of_raw(player_to_raw(p)) == p,
        player_to_raw(p) is UserId <==> p.nickname is None,
{
}

impl Player {
    /// Converts this player to its wire form.
    pub fn to_raw(&self) -> (r: RawPlayer)
        ensures
            r == player_to_raw(*self),
    {
        match &self.nickname {
            Some(n) => RawPlayer::UserIdWithNickname {
                id: self.id.clone(),
                nickname: Some(n.clone()),
            },
            None => RawPlayer::UserId(self.id.clone()),
        }
    }

    /// Reads one wire player into the domain shape.
    pub fn from_raw(raw: &RawPlayer) -> (r: Player)
        ensures
            r == player_of_raw(*raw),
    {
        match raw {
            RawPlayer::UserId(id) => Player { id: id.clone(), nickname: None },
            RawPlayer::UserIdWithNickname { id, nickname } => Player {
                id: id.clone(),
                nickname: match nickname {
                    Some(n) => Some(n.clone()),
                    None => None,
                },
            },
        }
    }
}

// ---------------------------------------------------------------------
// Server records.
// ---------------------------------------------------------------------
/// The wire form of one record, field by field. Each encoded field
/// also reads back: the conversion keeps enough to invert itself.
pub open spec fn record_encodes(raw: RawServerInfo, rec: ServerInfo) -> bool {
    &&& raw.id == rec.id
    &&& raw.port == rec.port
    &&& match (rec.last_online, raw.last_online) {
        (Some(d), Some(w)) => w@ == date_str_of(d),
        (None, None) => true,
        _ => false,
    }
    &&& match (rec.players_count, raw.players_count) {
        (Some(pc), Some(w)) => w@ == count_str_of(pc),
        (None, None) => true,
        _ => false,
    }
    &&& match (rec.players, raw.players) {
        (Some(ps), Some(ws)) => ws@.len() == ps@.len() && forall|i: int|
            0 <= i < ps@.len() ==> ws@[i] == player_to_raw(#[trigger] ps@[i]),
        (None, None) => true,
        _ => false,
    }
    &&& match (rec.info, raw.info) {
        (Some(t), Some(w)) => w@ == info_str_of(t@) && info_of_str(w@) == Some(t@),
        (None, None) => true,
        _ => false,
    }
    &&& raw.friendly_fire == rec.friendly_fire
    &&& raw.whitelist == rec.whitelist
    &&& raw.modded == rec.modded
    &&& raw.mods == rec.mods
    &&& raw.suppress == rec.suppress
    &&& raw.auto_suppress == rec.auto_suppress
}

/// The domain reading of one wire record, field by field.
pub open spec fn record_reads(raw: RawServerInfo, rec: ServerInfo) -> bool {
    &&& rec.id == raw.id
    &&& rec.port == raw.port
    &&& match (raw.last_online, rec.last_online) {
        (Some(w), Some(d)) => is_date_str(w@) && d == date_of_str(w@),
        (None, None) => true,
        _ => false,
    }
    &&& match (raw.players_count, rec.players_count) {
        (Some(w), Some(pc)) => is_count_str(w@) && pc == count_of_str(w@),
        (None, None) => true,
        _ => false,
    }
    &&& match (raw.players, rec.players) {
        (Some(ws), Some(ps)) => ps@.len() == ws@.len() && forall|i: int|
            0 <= i < ws@.len() ==> ps@[i] == player_of_raw(#[trigger] ws@[i]),
        (None, None) => true,
        _ => false,
    }
    &&& match (raw.info, rec.info) {
        (Some(w), Some(t)) => info_of_str(w@) == Some(t@),
        (None, None) => true,
        _ => false,
    }
    &&& rec.friendly_fire == raw.friendly_fire
    &&& rec.whitelist == raw.whitelist
    &&& rec.modded == raw.modded
    &&& rec.mods == raw.mods
    &&& rec.suppress == raw.suppress
    &&& rec.auto_suppress == raw.auto_suppress
}

/// The first conversion error one wire record reports, in field
/// order: the date, then the count, then the description.
pub open spec fn record_error_of(raw: RawServerInfo) -> Option<ConvertError> {
    if raw.last_online matches Some(w) && !is_date_str(w@) {
        Some(ConvertError::DateFormatError)
    } else if raw.players_count matches Some(w) && !is_count_str(w@) {
        Some(ConvertError::CountFormatError)
    } else if raw.info matches Some(w) && info_of_str(w@) is None {
        Some(ConvertError::EncodingError)
    } else {
        None
    }
}

/// Two records that agree on every field, text compared by contents.
pub open spec fn record_similar(a: ServerInfo, b: ServerInfo) -> bool {
    &&& a.id == b.id
    &&& a.port == b.port
    &&& a.last_online == b.last_online
    &&& a.players_count == b.players_count
    &&& match (a.players, b.players) {
        (Some(x), Some(y)) => x@ == y@,
        (None, None) => true,
        _ => false,
    }
    &&& match (a.info, b.info) {
        (Some(x), Some(y)) => x@ == y@,
        (None, None) => true,
        _ => false,
    }
    &&& a.friendly_fire == b.friendly_fire
    &&& a.whitelist == b.whitelist
    &&& a.modded == b.modded
    &&& a.mods == b.mods
    &&& a.suppress == b.suppress
    &&& a.auto_suppress == b.auto_suppress
}

/// Wire round trip for one record: a well-formed record's wire form
/// reports no error, and every domain reading of it agrees with the
/// record on every field, text compared by contents.
pub proof fn lemma_record_round_trip(rec: ServerInfo, raw: RawServerInfo, back: ServerInfo)
    requires
        rec.wf(),
        record_encodes(raw, rec),
        record_reads(raw, back),
    ensures
        record_similar(back, rec),
{
    lemma_record_encoding_reads(rec, raw);
    match (back.players, rec.players) {
        (Some(x), Some(y)) => {
            assert(x@ =~= y@);
        },
        _ => {},
    }
}

/// A well-formed record's wire form reports no error and reads back as
/// the record itself.
pub proof fn lemma_record_encoding_reads(rec: ServerInfo, raw: RawServerInfo)
    requires
        rec.wf(),
        record_encodes(raw, rec),
    ensures
        record_error_of(raw) is None,
        record_reads(raw, rec),
{
    match (rec.last_online, raw.last_online) {
        (Some(d), Some(_)) => {
            lemma_date_round_trip(d);
        },
        _ => {},
    }
    match (rec.players_count, raw.players_count) {
        (Some(pc), Some(_)) => {
            lemma_count_round_trip(pc);
        },
        _ => {},
    }
    match (rec.players, raw.players) {
        (Some(ps), Some(ws)) => {
            assert forall|i: int| 0 <= i < ws@.len() implies ps@[i] == player_of_raw(
                #[trigger] ws@[i],
            ) by {
                lemma_player_round_trip(ps@[i]);
            }
        },
        _ => {},
    }
}

impl ServerInfo {
    /// Converts this record to its wire form. The result reports no
    /// error and reads back as this record.
    pub fn to_raw(&self) -> (r: RawServerInfo)
        requires
            self.wf(),
        ensures
            record_encodes(r, *self),
            record_error_of(r) is None,
            record_reads(r, *self),
    {
        let last_online = match &self.last_online {
            Some(d) => Some(format_date(d)),
            None => None,
        };
        let players_count = match &self.players_count {
            Some(pc) => Some(format_count(pc)),
            None => None,
        };
        let players = match &self.players {
            Some(ps) => {
                let mut ws: Vec<RawPlayer> = Vec::new();
                let mut i: usize = 0;
                while i < ps.len()
                    invariant
                        0 <= i <= ps.len(),
                        ws@.len() == i,
                        forall|k: int| 0 <= k < i ==> ws@[k] == player_to_raw(#[trigger] ps@[k]),
                    decreases ps.len() - i,
                {
                    ws.push(ps[i].to_raw());
                    i = i + 1;
                }
                Some(ws)
            },
            None => None,
        };
        let info = match &self.info {
            Some(t) => Some(encode_info(t.as_str())),
            None => None,
        };
        let r = RawServerInfo {
            id: self.id,
            port: self.port,
            last_online,
            players_count,
            players,
            info,
            friendly_fire: self.friendly_fire,
            whitelist: self.whitelist,
            modded: self.modded,
            mods: self.mods,
            suppress: self.suppress,
            auto_suppress: self.auto_suppress,
        };
        proof {
            lemma_record_encoding_reads(*self, r);
        }
        r
    }

    /// Reads one wire record into the domain model, decoding the date,
    /// the count and the description; the first undecodable field
    /// decides the error.
    pub fn from_raw(raw: &RawServerInfo) -> (r: Result<ServerInfo, ConvertError>)
        ensures
            match r {
                Ok(rec) => record_error_of(*raw) is None && record_reads(*raw, rec),
                Err(e) => record_error_of(*raw) == Some(e),
            },
    {
        let last_online = match &raw.last_online {
            Some(w) => match parse_date(w.as_str()) {
                Some(d) => Some(d),
                None => {
                    return Err(ConvertError::DateFormatError);
                },
            },
            None => None,
        };
        let players_count = match &raw.players_count {
            Some(w) => match parse_count(w.as_str()) {
                Some(pc) => Some(pc),
                None => {
                    return Err(ConvertError::CountFormatError);
                },
            },
            None => None,
        };
        let players = match &raw.players {
            Some(ws) => {
                let mut ps: Vec<Player> = Vec::new();
                let mut i: usize = 0;
                while i < ws.len()
                    invariant
                        0 <= i <= ws.len(),
                        ps@.len() == i,
                        forall|k: int| 0 <= k < i ==> ps@[k] == player_of_raw(#[trigger] ws@[k]),
                    decreases ws.len() - i,
                {
                    ps.push(Player::from_raw(&ws[i]));
                    i = i + 1;
                }
                Some(ps)
            },
            None => None,
        };
        let info = match &raw.info {
            Some(w) => match decode_info(w.as_str()) {
                Some(t) => Some(t),
                None => {
                    return Err(ConvertError::EncodingError);
                },
            },
            None => None,
        };
        Ok(
            ServerInfo {
                id: raw.id,
                port: raw.port,
                last_online,
                players_count,
                players,
                info,
                friendly_fire: raw.friendly_fire,
                whitelist: raw.whitelist,
                modded: raw.modded,
                mods: raw.mods,
                suppress: raw.suppress,
                auto_suppress: raw.auto_suppress,
            },
        )
    }
}

// ---------------------------------------------------------------------
// Whole responses.
// ---------------------------------------------------------------------
/// The wire form of a whole response.
pub open spec fn response_encodes(raw: RawResponse, resp: Response) -> bool {
    match resp {
        Response::Success(s) => {
            &&& raw.success == true
            &&& raw.error is None
            &&& raw.cooldown == Some(s.cooldown)
            &&& match raw.servers {
                Some(ws) => ws@.len() == s.servers@.len() && forall|i: int|
                    0 <= i < ws@.len() ==> record_encodes(#[trigger] ws@[i], s.servers@[i]),
                None => false,
            }
        },
        Response::Error(e) => {
            &&& raw.success == false
            &&& raw.error matches Some(m) && m@ == e.error@
            &&& raw.servers is None
            &&& raw.cooldown is None
        },
    }
}

/// The domain reading of a whole wire response: the presence of the
/// error key selects failure; otherwise cooldown and servers carry
/// over, record by record.
pub open spec fn response_reads(raw: RawResponse, resp: Response) -> bool {
    match raw.error {
        Some(m) => resp matches Response::Error(e) && e.error@ == m@,
        None => match (raw.cooldown, raw.servers) {
            (Some(c), Some(ws)) => resp matches Response::Success(s) && s.cooldown == c
                && s.servers@.len() == ws@.len() && forall|i: int|
                0 <= i < ws@.len() ==> record_reads(#[trigger] ws@[i], s.servers@[i]),
            _ => false,
        },
    }
}

/// The first error among a run of wire records, if any.
pub open spec fn servers_error_of(ws: Seq<RawServerInfo>) -> Option<ConvertError>
    decreases ws.len(),
{
    if ws.len() == 0 {
        None
    } else if record_error_of(ws[0]) is Some {
        record_error_of(ws[0])
    } else {
        servers_error_of(ws.drop_first())
    }
}

/// The error a wire response converts to, if any: never an error on
/// the failure path; a missing required field on the success path, or
/// the first failing record.
pub open spec fn response_error_of(raw: RawResponse) -> Option<ConvertError> {
    match raw.error {
        Some(_) => None,
        None => match (raw.cooldown, raw.servers) {
            (Some(_), Some(ws)) => servers_error_of(ws@),
            _ => Some(ConvertError::MalformedPayload),
        },
    }
}

/// A failing record with none before it decides the run's error.
proof fn lemma_servers_error_at(ws: Seq<RawServerInfo>, i: int)
    requires
        0 <= i < ws.len(),
        forall|k: int| 0 <= k < i ==> record_error_of(#[trigger] ws[k]) is None,
        record_error_of(ws[i]) is Some,
    ensures
        servers_error_of(ws) == record_error_of(ws[i]),
    decreases i,
{
    if i > 0 {
        let t = ws.drop_first();
        assert(forall|k: int| 0 <= k < t.len() ==> t[k] == ws[k + 1]);
        lemma_servers_error_at(t, i - 1);
    }
}

/// A run of error-free records reports no error.
proof fn lemma_servers_error_none(ws: Seq<RawServerInfo>)
    requires
        forall|k: int| 0 <= k < ws.len() ==> record_error_of(#[trigger] ws[k]) is None,
    ensures
        servers_error_of(ws) is None,
    decreases ws.len(),
{
    if ws.len() > 0 {
        let t = ws.drop_first();
        assert(forall|k: int| 0 <= k < t.len() ==> t[k] == ws[k + 1]);
        lemma_servers_error_none(t);
    }
}

/// Two responses that agree: same outcome, same cooldown, records
/// agreeing field by field, text compared by contents.
pub open spec fn response_similar(a: Response, b: Response) -> bool {
    match (a, b) {
        (Response::Success(x), Response::Success(y)) => {
            &&& x.cooldown == y.cooldown
            &&& x.servers@.len() == y.servers@.len()
            &&& forall|i: int|
                0 <= i < x.servers@.len() ==> record_similar(
                    #[trigger] x.servers@[i],
                    y.servers@[i],
                )
        },
        (Response::Error(x), Response::Error(y)) => x.error@ == y.error@,
        _ => false,
    }
}

/// Wire round trip for a whole response: a well-formed response's wire
/// form reports no error, and every domain reading of it agrees with
/// the response.
pub proof fn lemma_response_round_trip(resp: Response, raw: RawResponse, back: Response)
    requires
        resp.wf(),
        response_encodes(raw, resp),
        response_reads(raw, back),
    ensures
        response_similar(back, resp),
{
    match resp {
        Response::Success(s) => {
            let ws = raw.servers->Some_0;
            assert forall|i: int| 0 <= i < ws@.len() implies record_error_of(#[trigger] ws@[i])
                is None && record_reads(ws@[i], s.servers@[i]) by {
                lemma_record_encoding_reads(s.servers@[i], ws@[i]);
            }
            let t = back->Success_0;
            assert forall|i: int| 0 <= i < s.servers@.len() implies record_similar(
                #[trigger] t.servers@[i],
                s.servers@[i],
            ) by {
                lemma_record_round_trip(s.servers@[i], ws@[i], t.servers@[i]);
            }
        },
        Response::Error(_) => {},
    }
}

impl Response {
    /// Converts this response to its wire form. The result reports no
    /// error and reads back as this response.
    pub fn to_raw(&self) -> (r: RawResponse)
        requires
            self.wf(),
        ensures
            response_encodes(r, *self),
            response_error_of(r) is None,
            response_reads(r, *self),
    {
        match self {
            Response::Success(s) => {
                let mut ws: Vec<RawServerInfo> = Vec::new();
                let mut i: usize = 0;
                while i < s.servers.len()
                    invariant
                        0 <= i <= s.servers.len(),
                        ws@.len() == i,
                        forall|k: int| 0 <= k < s.servers@.len() ==> (#[trigger] s.servers@[k]).wf(),
                        forall|k: int|
                            0 <= k < i ==> record_encodes(#[trigger] ws@[k], s.servers@[k])
                                && record_error_of(ws@[k]) is None && record_reads(
                                ws@[k],
                                s.servers@[k],
                            ),
                    decreases s.servers.len() - i,
                {
                    ws.push(s.servers[i].to_raw());
                    i = i + 1;
                }
                proof {
                    lemma_servers_error_none(ws@);
                }
                RawResponse {
                    success: true,
                    error: None,
                    servers: Some(ws),
                    cooldown: Some(s.cooldown),
                }
            },
            Response::Error(e) => RawResponse {
                success: false,
                error: Some(e.error.clone()),
                servers: None,
                cooldown: None,
            },
        }
    }

    /// Reads a wire response into the domain model: the presence of
    /// the error key selects failure; on the success path a missing
    /// cooldown or server list is a malformed payload, and the first
    /// failing record decides the error.
    #[verifier::loop_isolation(false)]
    pub fn from_raw(raw: &RawResponse) -> (r: Result<Response, ConvertError>)
        ensures
            match r {
                Ok(resp) => response_error_of(*raw) is None && response_reads(*raw, resp),
                Err(e) => response_error_of(*raw) == Some(e),
            },
    {
        match &raw.error {
            Some(m) => Ok(Response::Error(ErrorResponse { error: m.clone() })),
            None => {
                let cooldown = match raw.cooldown {
                    Some(c) => c,
                    None => {
                        return Err(ConvertError::MalformedPayload);
                    },
                };
                let ws = match &raw.servers {
                    Some(ws) => ws,
                    None => {
                        return Err(ConvertError::MalformedPayload);
                    },
                };
                let mut servers: Vec<ServerInfo> = Vec::new();
                let mut i: usize = 0;
                while i < ws.len()
                    invariant
                        0 <= i <= ws.len(),
                        servers@.len() == i,
                        forall|k: int|
                            0 <= k < i ==> record_error_of(#[trigger] ws@[k]) is None
                                && record_reads(ws@[k], servers@[k]),
                    decreases ws.len() - i,
                {
                    match ServerInfo::from_raw(&ws[i]) {
                        Ok(rec) => {
                            servers.push(rec);
                        },
                        Err(e) => {
                            proof {
                                lemma_servers_error_at(ws@, i as int);
                            }
                            return Err(e);
                        },
                    }
                    i = i + 1;
                }
                proof {
                    lemma_servers_error_none(ws@);
                }
                Ok(Response::Success(SuccessResponse { cooldown, servers }))
            },
        }
    }
}

} // verus!
