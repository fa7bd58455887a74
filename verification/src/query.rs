//! The query builder: the request's parameter set, the exact list of
//! query pairs it produces, and the final URL through the url crate.

use crate::digits::dec_str_of;
use crate::digits::u64_to_dec;
use vstd::prelude::*;
use vstd::string::StringExecFns;

verus! {

/// The parameters of one server-info request.
pub struct RequestParameters {
    /// The base URL of the endpoint.
    pub url: String,
    /// The `id` query parameter, when set.
    pub id: Option<u64>,
    /// The `key` query parameter, when set.
    pub key: Option<String>,
    /// Request the last-online date (`lo`).
    pub last_online: bool,
    /// Request the player count (`players`).
    pub players: bool,
    /// Request the player list (`list`).
    pub list: bool,
    /// Request the description (`info`).
    pub info: bool,
    /// Request the pastebin key (`pastebin`).
    pub pastebin: bool,
    /// Request the version (`version`).
    pub version: bool,
    /// Request the flag fields (`flags`).
    pub flags: bool,
    /// Request nicknames in the player list (`nicknames`).
    pub nicknames: bool,
    /// Request only online servers (`online`).
    pub online: bool,
}

impl RequestParameters {
    /// Returns a new builder with nothing set.
    pub fn builder() -> (r: RequestParametersBuilder)
        ensures
            r == RequestParametersBuilder::empty(),
    {
        RequestParametersBuilder {
            url: None,
            id: None,
            key: None,
            last_online: false,
            players: false,
            list: false,
            info: false,
            pastebin: false,
            version: false,
            flags: false,
            nicknames: false,
            online: false,
        }
    }
}

/// A builder for [`RequestParameters`]: set what the request asks for,
/// then build.
pub struct RequestParametersBuilder {
    /// The base URL; must be set before building.
    pub url: Option<String>,
    /// The `id` query parameter, when set.
    pub id: Option<u64>,
    /// The `key` query parameter, when set.
    pub key: Option<String>,
    /// Request the last-online date.
    pub last_online: bool,
    /// Request the player count.
    pub players: bool,
    /// Request the player list.
    pub list: bool,
    /// Request the description.
    pub info: bool,
    /// Request the pastebin key.
    pub pastebin: bool,
    /// Request the version.
    pub version: bool,
    /// Request the flag fields.
    pub flags: bool,
    /// Request nicknames in the player list.
    pub nicknames: bool,
    /// Request only online servers.
    pub online: bool,
}

impl RequestParametersBuilder {
    /// The builder with nothing set.
    pub open spec fn empty() -> RequestParametersBuilder {
        RequestParametersBuilder {
            url: None,
            id: None,
            key: None,
            last_online: false,
            players: false,
            list: false,
            info: false,
            pastebin: false,
            version: false,
            flags: false,
            nicknames: false,
            online: false,
        }
    }

    /// Returns a new builder with nothing set.
    pub fn new() -> (r: Self)
        ensures
            r == Self::empty(),
    {
        RequestParameters::builder()
    }

    /// Consumes the builder and returns the parameters.
    pub fn build(self) -> (r: RequestParameters)
        requires
            self.url is Some,
        ensures
            r.url == self.url->Some_0,
            r.id == self.id,
            r.key == self.key,
            r.last_online == self.last_online,
            r.players == self.players,
            r.list == self.list,
            r.info == self.info,
            r.pastebin == self.pastebin,
            r.version == self.version,
            r.flags == self.flags,
            r.nicknames == self.nicknames,
            r.online == self.online,
    {
        let url = match self.url {
            Some(u) => u,
            None => unreached(),
        };
        RequestParameters {
            url,
            id: self.id,
            key: self.key,
            last_online: self.last_online,
            players: self.players,
            list: self.list,
            info: self.info,
            pastebin: self.pastebin,
            version: self.version,
            flags: self.flags,
            nicknames: self.nicknames,
            online: self.online,
        }
    }

    /// Sets the base URL to be used.
    pub fn url(self, value: String) -> (r: Self)
        ensures
            r == (Self { url: Some(value), ..self }),
    {
        Self { url: Some(value), ..self }
    }

    /// Sets the `id` query parameter to be used.
    pub fn id(self, value: u64) -> (r: Self)
        ensures
            r == (Self { id: Some(value), ..self }),
    {
        Self { id: Some(value), ..self }
    }

    /// Sets the `key` query parameter to be used.
    pub fn key(self, value: String) -> (r: Self)
        ensures
            r == (Self { key: Some(value), ..self }),
    {
        Self { key: Some(value), ..self }
    }

    /// Sets the `lo` query parameter to be used.
    pub fn last_online(self, value: bool) -> (r: Self)
        ensures
            r == (Self { last_online: value, ..self }),
    {
        Self { last_online: value, ..self }
    }

    /// Sets the `players` query parameter to be used.
    pub fn players(self, value: bool) -> (r: Self)
        ensures
            r == (Self { players: value, ..self }),
    {
        Self { players: value, ..self }
    }

    /// Sets the `list` query parameter to be used.
    pub fn list(self, value: bool) -> (r: Self)
        ensures
            r == (Self { list: value, ..self }),
    {
        Self { list: value, ..self }
    }

    /// Sets the `info` query parameter to be used.
    pub fn info(self, value: bool) -> (r: Self)
        ensures
            r == (Self { info: value, ..self }),
    {
        Self { info: value, ..self }
    }

    /// Sets the `pastebin` query parameter to be used.
    pub fn pastebin(self, value: bool) -> (r: Self)
        ensures
            r == (Self { pastebin: value, ..self }),
    {
        Self { pastebin: value, ..self }
    }

    /// Sets the `version` query parameter to be used.
    pub fn version(self, value: bool) -> (r: Self)
        ensures
            r == (Self { version: value, ..self }),
    {
        Self { version: value, ..self }
    }

    /// Sets the `flags` query parameter to be used.
    pub fn flags(self, value: bool) -> (r: Self)
        ensures
            r == (Self { flags: value, ..self }),
    {
        Self { flags: value, ..self }
    }

    /// Sets the `nicknames` query parameter to be used.
    pub fn nicknames(self, value: bool) -> (r: Self)
        ensures
            r == (Self { nicknames: value, ..self }),
    {
        Self { nicknames: value, ..self }
    }

    /// Sets the `online` query parameter to be used.
    pub fn online(self, value: bool) -> (r: Self)
        ensures
            r == (Self { online: value, ..self }),
    {
        Self { online: value, ..self }
    }
}

impl Default for RequestParametersBuilder {
    /// The builder with nothing set.
    fn default() -> (r: Self)
        ensures
            r == Self::empty(),
    {
        Self::new()
    }
}

/// The views of a list of query pairs.
pub open spec fn pairs_view(v: Seq<(String, String)>) -> Seq<(Seq<char>, Seq<char>)> {
    Seq::new(v.len(), |i: int| (v[i].0@, v[i].1@))
}

/// One flag's contribution to the query: its pair when set, nothing
/// when not.
pub open spec fn flag_pair(name: Seq<char>, on: bool) -> Seq<(Seq<char>, Seq<char>)> {
    if on {
        seq![(name, "true"@)]
    } else {
        Seq::empty()
    }
}

/// The exact query pairs of a parameter set, in order: `id` and `key`
/// when set, then each requested flag as the literal text `true`.
/// Nothing is appended for an unset parameter.
pub open spec fn query_pairs_of(p: RequestParameters) -> Seq<(Seq<char>, Seq<char>)> {
    (match p.id {
        Some(v) => seq![("id"@, dec_str_of(v as int))],
        None => Seq::empty(),
    }) + (match p.key {
        Some(k) => seq![("key"@, k@)],
        None => Seq::empty(),
    }) + flag_pair("lo"@, p.last_online) + flag_pair("players"@, p.players) + flag_pair(
        "list"@,
        p.list,
    ) + flag_pair("info"@, p.info) + flag_pair("pastebin"@, p.pastebin) + flag_pair(
        "version"@,
        p.version,
    ) + flag_pair("flags"@, p.flags) + flag_pair("nicknames"@, p.nicknames) + flag_pair(
        "online"@,
        p.online,
    )
}

/// Appends one pair to the list; its view grows by that pair.
fn push_pair(out: &mut Vec<(String, String)>, name: &str, value: String)
    ensures
        pairs_view(final(out)@) =~= pairs_view(old(out)@) + seq![(name@, value@)],
{
    out.push((String::from_str(name), value));
    assert(pairs_view(final(out)@) =~= pairs_view(old(out)@) + seq![(name@, value@)]);
}

/// Produces the query pairs of a parameter set.
#[verifier::rlimit(30)]
pub fn query_pairs(p: &RequestParameters) -> (r: Vec<(String, String)>)
    ensures
        pairs_view(r@) == query_pairs_of(*p),
{
    let ghost q1 = match p.id {
        Some(v) => seq![("id"@, dec_str_of(v as int))],
        None => Seq::<(Seq<char>, Seq<char>)>::empty(),
    };
    let ghost q2 = q1 + (match &p.key {
        Some(k) => seq![("key"@, k@)],
        None => Seq::<(Seq<char>, Seq<char>)>::empty(),
    });
    let ghost q3 = q2 + flag_pair("lo"@, p.last_online);
    let ghost q4 = q3 + flag_pair("players"@, p.players);
    let ghost q5 = q4 + flag_pair("list"@, p.list);
    let ghost q6 = q5 + flag_pair("info"@, p.info);
    let ghost q7 = q6 + flag_pair("pastebin"@, p.pastebin);
    let ghost q8 = q7 + flag_pair("version"@, p.version);
    let ghost q9 = q8 + flag_pair("flags"@, p.flags);
    let ghost q10 = q9 + flag_pair("nicknames"@, p.nicknames);
    let ghost q11 = q10 + flag_pair("online"@, p.online);
    let mut out: Vec<(String, String)> = Vec::new();
    assert(pairs_view(out@) =~= Seq::<(Seq<char>, Seq<char>)>::empty());
    if let Some(v) = p.id {
        push_pair(&mut out, "id", u64_to_dec(v));
    }
    assert(pairs_view(out@) =~= q1);
    if let Some(k) = &p.key {
        push_pair(&mut out, "key", k.clone());
    }
    assert(pairs_view(out@) =~= q2);
    if p.last_online {
        push_pair(&mut out, "lo", String::from_str("true"));
    }
    assert(pairs_view(out@) =~= q3);
    if p.players {
        push_pair(&mut out, "players", String::from_str("true"));
    }
    assert(pairs_view(out@) =~= q4);
    if p.list {
        push_pair(&mut out, "list", String::from_str("true"));
    }
    assert(pairs_view(out@) =~= q5);
    if p.info {
        push_pair(&mut out, "info", String::from_str("true"));
    }
    assert(pairs_view(out@) =~= q6);
    if p.pastebin {
        push_pair(&mut out, "pastebin", String::from_str("true"));
    }
    assert(pairs_view(out@) =~= q7);
    if p.version {
        push_pair(&mut out, "version", String::from_str("true"));
    }
    assert(pairs_view(out@) =~= q8);
    if p.flags {
        push_pair(&mut out, "flags", String::from_str("true"));
    }
    assert(pairs_view(out@) =~= q9);
    if p.nicknames {
        push_pair(&mut out, "nicknames", String::from_str("true"));
    }
    assert(pairs_view(out@) =~= q10);
    if p.online {
        push_pair(&mut out, "online", String::from_str("true"));
    }
    assert(pairs_view(out@) =~= q11);
    assert(q11 =~= query_pairs_of(*p));
    out
}

/// A pair with the given key occurs in the query.
pub open spec fn has_key(qs: Seq<(Seq<char>, Seq<char>)>, name: Seq<char>) -> bool {
    exists|i: int| 0 <= i < qs.len() && (#[trigger] qs[i]).0 == name
}

/// The pair with the given key and value occurs in the query.
pub open spec fn has_pair(qs: Seq<(Seq<char>, Seq<char>)>, name: Seq<char>, value: Seq<char>) -> bool {
    exists|i: int| 0 <= i < qs.len() && #[trigger] qs[i] == (name, value)
}

/// A key occurs in a concatenation exactly when it occurs in one of
/// the parts.
proof fn lemma_has_key_concat(a: Seq<(Seq<char>, Seq<char>)>, b: Seq<(Seq<char>, Seq<char>)>, name: Seq<char>)
    ensures
        has_key(a + b, name) <==> has_key(a, name) || has_key(b, name),
{
    if has_key(a, name) {
        let i = choose|i: int| 0 <= i < a.len() && (#[trigger] a[i]).0 == name;
        assert((a + b)[i].0 == name);
    }
    if has_key(b, name) {
        let i = choose|i: int| 0 <= i < b.len() && (#[trigger] b[i]).0 == name;
        assert((a + b)[a.len() + i].0 == name);
    }
    if has_key(a + b, name) {
        let i = choose|i: int| 0 <= i < (a + b).len() && (#[trigger] (a + b)[i]).0 == name;
        if i < a.len() {
            assert(a[i].0 == name);
        } else {
            assert(b[i - a.len()].0 == name);
        }
    }
}

/// A flag's contribution holds a given key exactly when the flag is
/// set and the key is the flag's own.
proof fn lemma_flag_pair_key(m: Seq<char>, on: bool, n: Seq<char>)
    ensures
        has_key(flag_pair(m, on), n) <==> (on && m == n),
{
    if on && m == n {
        assert(flag_pair(m, on)[0].0 == n);
    }
    if has_key(flag_pair(m, on), n) {
        let i = choose|i: int| 0 <= i < flag_pair(m, on).len() && (#[trigger] flag_pair(m, on)[i]).0
            == n;
        assert(on && i == 0);
    }
}

/// Which keys the query of a parameter set holds: exactly the keys of
/// the set parameters.
proof fn lemma_query_has_key(p: RequestParameters, n: Seq<char>)
    ensures
        has_key(query_pairs_of(p), n) <==> {
            ||| (p.id is Some && n == "id"@)
            ||| (p.key is Some && n == "key"@)
            ||| (p.last_online && n == "lo"@)
            ||| (p.players && n == "players"@)
            ||| (p.list && n == "list"@)
            ||| (p.info && n == "info"@)
            ||| (p.pastebin && n == "pastebin"@)
            ||| (p.version && n == "version"@)
            ||| (p.flags && n == "flags"@)
            ||| (p.nicknames && n == "nicknames"@)
            ||| (p.online && n == "online"@)
        },
{
    let p1 = match p.id {
        Some(v) => seq![("id"@, dec_str_of(v as int))],
        None => Seq::<(Seq<char>, Seq<char>)>::empty(),
    };
    let p2 = match p.key {
        Some(k) => seq![("key"@, k@)],
        None => Seq::<(Seq<char>, Seq<char>)>::empty(),
    };
    let p3 = flag_pair("lo"@, p.last_online);
    let p4 = flag_pair("players"@, p.players);
    let p5 = flag_pair("list"@, p.list);
    let p6 = flag_pair("info"@, p.info);
    let p7 = flag_pair("pastebin"@, p.pastebin);
    let p8 = flag_pair("version"@, p.version);
    let p9 = flag_pair("flags"@, p.flags);
    let p10 = flag_pair("nicknames"@, p.nicknames);
    let p11 = flag_pair("online"@, p.online);
    lemma_has_key_concat(p1, p2, n);
    lemma_has_key_concat(p1 + p2, p3, n);
    lemma_has_key_concat(p1 + p2 + p3, p4, n);
    lemma_has_key_concat(p1 + p2 + p3 + p4, p5, n);
    lemma_has_key_concat(p1 + p2 + p3 + p4 + p5, p6, n);
    lemma_has_key_concat(p1 + p2 + p3 + p4 + p5 + p6, p7, n);
    lemma_has_key_concat(p1 + p2 + p3 + p4 + p5 + p6 + p7, p8, n);
    lemma_has_key_concat(p1 + p2 + p3 + p4 + p5 + p6 + p7 + p8, p9, n);
    lemma_has_key_concat(p1 + p2 + p3 + p4 + p5 + p6 + p7 + p8 + p9, p10, n);
    lemma_has_key_concat(p1 + p2 + p3 + p4 + p5 + p6 + p7 + p8 + p9 + p10, p11, n);
    lemma_flag_pair_key("lo"@, p.last_online, n);
    lemma_flag_pair_key("players"@, p.players, n);
    lemma_flag_pair_key("list"@, p.list, n);
    lemma_flag_pair_key("info"@, p.info, n);
    lemma_flag_pair_key("pastebin"@, p.pastebin, n);
    lemma_flag_pair_key("version"@, p.version, n);
    lemma_flag_pair_key("flags"@, p.flags, n);
    lemma_flag_pair_key("nicknames"@, p.nicknames, n);
    lemma_flag_pair_key("online"@, p.online, n);
    assert(has_key(p1, n) <==> (p.id is Some && n == "id"@)) by {
        if p.id is Some && n == "id"@ {
            assert(p1[0].0 == n);
        }
        if has_key(p1, n) {
            let i = choose|i: int| 0 <= i < p1.len() && (#[trigger] p1[i]).0 == n;
            assert(i == 0);
        }
    }
    assert(has_key(p2, n) <==> (p.key is Some && n == "key"@)) by {
        if p.key is Some && n == "key"@ {
            assert(p2[0].0 == n);
        }
        if has_key(p2, n) {
            let i = choose|i: int| 0 <= i < p2.len() && (#[trigger] p2[i]).0 == n;
            assert(i == 0);
        }
    }
}

/// Only parameters that are set are appended, each under its own key:
/// a flag's pair is present exactly when the flag is true, and its
/// value is then the literal text `true`; the `id` and `key` pairs are
/// present exactly when set. An unset parameter's key does not occur
/// at all.
#[verifier::rlimit(100)]
pub proof fn lemma_query_pairs_exact(p: RequestParameters)
    ensures
        has_key(query_pairs_of(p), "id"@) <==> p.id is Some,
        has_key(query_pairs_of(p), "key"@) <==> p.key is Some,
        has_key(query_pairs_of(p), "lo"@) <==> p.last_online,
        has_key(query_pairs_of(p), "players"@) <==> p.players,
        has_key(query_pairs_of(p), "list"@) <==> p.list,
        has_key(query_pairs_of(p), "info"@) <==> p.info,
        has_key(query_pairs_of(p), "pastebin"@) <==> p.pastebin,
        has_key(query_pairs_of(p), "version"@) <==> p.version,
        has_key(query_pairs_of(p), "flags"@) <==> p.flags,
        has_key(query_pairs_of(p), "nicknames"@) <==> p.nicknames,
        has_key(query_pairs_of(p), "online"@) <==> p.online,
{
    reveal_strlit("id");
    reveal_strlit("key");
    reveal_strlit("lo");
    reveal_strlit("players");
    reveal_strlit("list");
    reveal_strlit("info");
    reveal_strlit("pastebin");
    reveal_strlit("version");
    reveal_strlit("flags");
    reveal_strlit("nicknames");
    reveal_strlit("online");
    reveal_strlit("true");
    assert("id"@.len() == 2 && "key"@.len() == 3 && "lo"@.len() == 2 && "players"@.len() == 7
        && "list"@.len() == 4 && "info"@.len() == 4 && "pastebin"@.len() == 8 && "version"@.len()
        == 7 && "flags"@.len() == 5 && "nicknames"@.len() == 9 && "online"@.len() == 6
        && "true"@.len() == 4);
    assert("id"@[0] == 'i' && "lo"@[0] == 'l' && "players"@[0] == 'p' && "version"@[0] == 'v'
        && "list"@[0] == 'l' && "info"@[0] == 'i' && "true"@[0] == 't');
    assert(has_key(query_pairs_of(p), "id"@) <==> p.id is Some) by {
        lemma_query_has_key(p, "id"@);
    }
    assert(has_key(query_pairs_of(p), "key"@) <==> p.key is Some) by {
        lemma_query_has_key(p, "key"@);
    }
    assert(has_key(query_pairs_of(p), "lo"@) <==> p.last_online) by {
        lemma_query_has_key(p, "lo"@);
    }
    assert(has_key(query_pairs_of(p), "players"@) <==> p.players) by {
        lemma_query_has_key(p, "players"@);
    }
    assert(has_key(query_pairs_of(p), "list"@) <==> p.list) by {
        lemma_query_has_key(p, "list"@);
    }
    assert(has_key(query_pairs_of(p), "info"@) <==> p.info) by {
        lemma_query_has_key(p, "info"@);
    }
    assert(has_key(query_pairs_of(p), "pastebin"@) <==> p.pastebin) by {
        lemma_query_has_key(p, "pastebin"@);
    }
    assert(has_key(query_pairs_of(p), "version"@) <==> p.version) by {
        lemma_query_has_key(p, "version"@);
    }
    assert(has_key(query_pairs_of(p), "flags"@) <==> p.flags) by {
        lemma_query_has_key(p, "flags"@);
    }
    assert(has_key(query_pairs_of(p), "nicknames"@) <==> p.nicknames) by {
        lemma_query_has_key(p, "nicknames"@);
    }
    assert(has_key(query_pairs_of(p), "online"@) <==> p.online) by {
        lemma_query_has_key(p, "online"@);
    }
}

/// One part's pair is also the concatenation's.
proof fn lemma_has_pair_lift(
    a: Seq<(Seq<char>, Seq<char>)>,
    b: Seq<(Seq<char>, Seq<char>)>,
    n: Seq<char>,
    v: Seq<char>,
)
    ensures
        has_pair(a, n, v) ==> has_pair(a + b, n, v),
        has_pair(b, n, v) ==> has_pair(a + b, n, v),
{
    if has_pair(a, n, v) {
        let i = choose|i: int| 0 <= i < a.len() && #[trigger] a[i] == (n, v);
        assert((a + b)[i] == (n, v));
    }
    if has_pair(b, n, v) {
        let i = choose|i: int| 0 <= i < b.len() && #[trigger] b[i] == (n, v);
        assert((a + b)[a.len() + i] == (n, v));
    }
}

/// Each appended pair carries its exact value: the id in canonical
/// decimal, the key verbatim, and every flag as the literal text
/// `true`.
#[verifier::rlimit(100)]
pub proof fn lemma_query_pairs_values(p: RequestParameters)
    ensures
        p.id matches Some(v) ==> has_pair(query_pairs_of(p), "id"@, dec_str_of(v as int)),
        p.key matches Some(k) ==> has_pair(query_pairs_of(p), "key"@, k@),
        p.last_online ==> has_pair(query_pairs_of(p), "lo"@, "true"@),
        p.players ==> has_pair(query_pairs_of(p), "players"@, "true"@),
        p.list ==> has_pair(query_pairs_of(p), "list"@, "true"@),
        p.info ==> has_pair(query_pairs_of(p), "info"@, "true"@),
        p.pastebin ==> has_pair(query_pairs_of(p), "pastebin"@, "true"@),
        p.version ==> has_pair(query_pairs_of(p), "version"@, "true"@),
        p.flags ==> has_pair(query_pairs_of(p), "flags"@, "true"@),
        p.nicknames ==> has_pair(query_pairs_of(p), "nicknames"@, "true"@),
        p.online ==> has_pair(query_pairs_of(p), "online"@, "true"@),
{
    let p1 = match p.id {
        Some(v) => seq![("id"@, dec_str_of(v as int))],
        None => Seq::<(Seq<char>, Seq<char>)>::empty(),
    };
    let p2 = match p.key {
        Some(k) => seq![("key"@, k@)],
        None => Seq::<(Seq<char>, Seq<char>)>::empty(),
    };
    let p3 = flag_pair("lo"@, p.last_online);
    let p4 = flag_pair("players"@, p.players);
    let p5 = flag_pair("list"@, p.list);
    let p6 = flag_pair("info"@, p.info);
    let p7 = flag_pair("pastebin"@, p.pastebin);
    let p8 = flag_pair("version"@, p.version);
    let p9 = flag_pair("flags"@, p.flags);
    let p10 = flag_pair("nicknames"@, p.nicknames);
    let p11 = flag_pair("online"@, p.online);
    let c2 = p1 + p2;
    let c3 = c2 + p3;
    let c4 = c3 + p4;
    let c5 = c4 + p5;
    let c6 = c5 + p6;
    let c7 = c6 + p7;
    let c8 = c7 + p8;
    let c9 = c8 + p9;
    let c10 = c9 + p10;
    let c11 = c10 + p11;
    assert(query_pairs_of(p) == c11);
    if p.id is Some {
        assert(has_pair(p1, "id"@, dec_str_of(p.id->Some_0 as int))) by {
            assert(p1[0] == ("id"@, dec_str_of(p.id->Some_0 as int)));
        }
        lift_all(p1, p2, p3, p4, p5, p6, p7, p8, p9, p10, p11, 1, "id"@, dec_str_of(p.id->Some_0 as int));
    }
    if p.key is Some {
        assert(has_pair(p2, "key"@, p.key->Some_0@)) by {
            assert(p2[0] == ("key"@, p.key->Some_0@));
        }
        lift_all(p1, p2, p3, p4, p5, p6, p7, p8, p9, p10, p11, 2, "key"@, p.key->Some_0@);
    }
    if p.last_online {
        assert(has_pair(p3, "lo"@, "true"@)) by {
            assert(p3[0] == ("lo"@, "true"@));
        }
        lift_all(p1, p2, p3, p4, p5, p6, p7, p8, p9, p10, p11, 3, "lo"@, "true"@);
    }
    if p.players {
        assert(has_pair(p4, "players"@, "true"@)) by {
            assert(p4[0] == ("players"@, "true"@));
        }
        lift_all(p1, p2, p3, p4, p5, p6, p7, p8, p9, p10, p11, 4, "players"@, "true"@);
    }
    if p.list {
        assert(has_pair(p5, "list"@, "true"@)) by {
            assert(p5[0] == ("list"@, "true"@));
        }
        lift_all(p1, p2, p3, p4, p5, p6, p7, p8, p9, p10, p11, 5, "list"@, "true"@);
    }
    if p.info {
        assert(has_pair(p6, "info"@, "true"@)) by {
            assert(p6[0] == ("info"@, "true"@));
        }
        lift_all(p1, p2, p3, p4, p5, p6, p7, p8, p9, p10, p11, 6, "info"@, "true"@);
    }
    if p.pastebin {
        assert(has_pair(p7, "pastebin"@, "true"@)) by {
            assert(p7[0] == ("pastebin"@, "true"@));
        }
        lift_all(p1, p2, p3, p4, p5, p6, p7, p8, p9, p10, p11, 7, "pastebin"@, "true"@);
    }
    if p.version {
        assert(has_pair(p8, "version"@, "true"@)) by {
            assert(p8[0] == ("version"@, "true"@));
        }
        lift_all(p1, p2, p3, p4, p5, p6, p7, p8, p9, p10, p11, 8, "version"@, "true"@);
    }
    if p.flags {
        assert(has_pair(p9, "flags"@, "true"@)) by {
            assert(p9[0] == ("flags"@, "true"@));
        }
        lift_all(p1, p2, p3, p4, p5, p6, p7, p8, p9, p10, p11, 9, "flags"@, "true"@);
    }
    if p.nicknames {
        assert(has_pair(p10, "nicknames"@, "true"@)) by {
            assert(p10[0] == ("nicknames"@, "true"@));
        }
        lift_all(p1, p2, p3, p4, p5, p6, p7, p8, p9, p10, p11, 10, "nicknames"@, "true"@);
    }
    if p.online {
        assert(has_pair(p11, "online"@, "true"@)) by {
            assert(p11[0] == ("online"@, "true"@));
        }
        lift_all(p1, p2, p3, p4, p5, p6, p7, p8, p9, p10, p11, 11, "online"@, "true"@);
    }
}

/// Lifts a pair known to occur in the numbered part into the whole
/// eleven-part concatenation.
proof fn lift_all(
    p1: Seq<(Seq<char>, Seq<char>)>,
    p2: Seq<(Seq<char>, Seq<char>)>,
    p3: Seq<(Seq<char>, Seq<char>)>,
    p4: Seq<(Seq<char>, Seq<char>)>,
    p5: Seq<(Seq<char>, Seq<char>)>,
    p6: Seq<(Seq<char>, Seq<char>)>,
    p7: Seq<(Seq<char>, Seq<char>)>,
    p8: Seq<(Seq<char>, Seq<char>)>,
    p9: Seq<(Seq<char>, Seq<char>)>,
    p10: Seq<(Seq<char>, Seq<char>)>,
    p11: Seq<(Seq<char>, Seq<char>)>,
    k: int,
    n: Seq<char>,
    v: Seq<char>,
)
    requires
        k == 1 ==> has_pair(p1, n, v),
        k == 2 ==> has_pair(p2, n, v),
        k == 3 ==> has_pair(p3, n, v),
        k == 4 ==> has_pair(p4, n, v),
        k == 5 ==> has_pair(p5, n, v),
        k == 6 ==> has_pair(p6, n, v),
        k == 7 ==> has_pair(p7, n, v),
        k == 8 ==> has_pair(p8, n, v),
        k == 9 ==> has_pair(p9, n, v),
        k == 10 ==> has_pair(p10, n, v),
        k == 11 ==> has_pair(p11, n, v),
        1 <= k <= 11,
    ensures
        has_pair(p1 + p2 + p3 + p4 + p5 + p6 + p7 + p8 + p9 + p10 + p11, n, v),
{
    lemma_has_pair_lift(p1, p2, n, v);
    lemma_has_pair_lift(p1 + p2, p3, n, v);
    lemma_has_pair_lift(p1 + p2 + p3, p4, n, v);
    lemma_has_pair_lift(p1 + p2 + p3 + p4, p5, n, v);
    lemma_has_pair_lift(p1 + p2 + p3 + p4 + p5, p6, n, v);
    lemma_has_pair_lift(p1 + p2 + p3 + p4 + p5 + p6, p7, n, v);
    lemma_has_pair_lift(p1 + p2 + p3 + p4 + p5 + p6 + p7, p8, n, v);
    lemma_has_pair_lift(p1 + p2 + p3 + p4 + p5 + p6 + p7 + p8, p9, n, v);
    lemma_has_pair_lift(p1 + p2 + p3 + p4 + p5 + p6 + p7 + p8 + p9, p10, n, v);
    lemma_has_pair_lift(p1 + p2 + p3 + p4 + p5 + p6 + p7 + p8 + p9 + p10, p11, n, v);
}

/// A failed URL build: the base URL was not a valid absolute URL.
#[derive(Clone, Copy, Debug, PartialEq, Eq, Structural)]
pub struct UrlBuildError;

/// What `url::Url::parse_with_params` returns for the given base and
/// pairs, serialized: the base parsed as an absolute URL with each
/// pair appended percent-escaped, or nothing when the base does not
/// parse.
pub uninterp spec fn url_with_params_of(base: Seq<char>, pairs: Seq<(Seq<char>, Seq<char>)>) -> Option<
    Seq<char>,
>;

/// Relies on `url::Url::parse_with_params`: parses the base as an
/// absolute URL, appends each pair percent-escaped, and fails exactly
/// when the base does not parse; the outcome depends on the inputs
/// alone.
#[verifier::external_body]
pub(crate) fn build_url(base: &str, pairs: &Vec<(String, String)>) -> (r: Result<String, UrlBuildError>)
    ensures
        match r {
            Ok(u) => url_with_params_of(base@, pairs_view(pairs@)) == Some(u@),
            Err(_) => url_with_params_of(base@, pairs_view(pairs@)) is None,
        },
{
    match url::Url::parse_with_params(base, pairs.iter()) {
        Ok(u) => Ok(String::from(u)),
        Err(_) => Err(UrlBuildError),
    }
}

/// Builds the server-info request URL: the base URL of the parameter
/// set with exactly the set parameters appended.
pub fn server_info_url(p: &RequestParameters) -> (r: Result<String, UrlBuildError>)
    ensures
        match r {
            Ok(u) => url_with_params_of(p.url@, query_pairs_of(*p)) == Some(u@),
            Err(_) => url_with_params_of(p.url@, query_pairs_of(*p)) is None,
        },
{
    let pairs = query_pairs(p);
    build_url(p.url.as_str(), &pairs)
}

} // verus!
