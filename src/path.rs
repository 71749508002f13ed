//! IBC paths between two chains, and the resolution of the connection and
//! transfer channels that a hub chain uses to reach a counterpart.
use vstd::prelude::*;

use crate::text::{concat, str_eq, starts_with};

verus! {

/// The chain that every covenant is deployed on.
pub const NEUTRON_CHAIN_NAME: &'static str = "neutron";
/// The chain that provides liquid staking by default.
pub const STRIDE_CHAIN_NAME: &'static str = "stride";
/// The chain that provides liquid staking otherwise.
pub const PERSISTENCE_CHAIN_NAME: &'static str = "persistence";
/// The port that ICS-20 token transfers use.
pub const TRANSFER_PORT_ID: &'static str = "transfer";
/// The prefix of a port that a contract owns.
pub const CONTRACT_PORT_PREFIX: &'static str = "wasm.";

/// One registry entry: the two chains of a path and its channels.
#[derive(Clone, Debug, PartialEq, Eq, Default)]
pub struct IBCPath {
    pub chain_1: ChainInfo,
    pub chain_2: ChainInfo,
    pub channels: Vec<ChannelInfo>,
}

/// One side of a path: the chain and its client and connection.
#[derive(Clone, Debug, PartialEq, Eq, Default)]
pub struct ChainInfo {
    pub chain_name: String,
    pub client_id: String,
    pub connection_id: String,
}

/// One channel of a path, with its end on each chain.
#[derive(Clone, Debug, PartialEq, Eq, Default)]
pub struct ChannelInfo {
    pub chain_1: ChannelPort,
    pub chain_2: ChannelPort,
    pub ordering: String,
    pub version: String,
    pub tags: Tags,
}

/// One end of a channel.
#[derive(Clone, Debug, PartialEq, Eq, Default)]
pub struct ChannelPort {
    pub channel_id: String,
    pub port_id: String,
}

/// The registry's annotations of a channel.
#[derive(Clone, Debug, PartialEq, Eq, Default)]
pub struct Tags {
    pub dex: String,
    pub preferred: bool,
    pub properties: String,
    pub status: String,
}

/// One annotation of a channel.
#[derive(Clone, Debug, PartialEq, Eq)]
pub enum Tag {
    Dex(String),
    Preferred(bool),
    Properties(String),
    Status(String),
}

/// A file listing of the path registry.
#[derive(Clone, Debug, PartialEq, Eq)]
pub struct Content {
    pub name: String,
    pub type_field: String,
}

/// Why no connection and channels could be resolved.
#[derive(Clone, Copy, Debug, PartialEq, Eq, Structural)]
pub enum PathError {
    /// Neither side of the path is the hub chain.
    HubNotInPath,
    /// No channel has the transfer port on the hub side and the expected
    /// port on the counterpart side.
    ChannelNotFound,
    /// More than one channel qualifies, so the choice would be a guess.
    AmbiguousChannels,
}

/// What a resolution yields: the hub side's connection id, the hub side's
/// channel id and the counterpart side's channel id.
pub type Resolved = (Seq<char>, Seq<char>, Seq<char>);

/// A port that a contract owns.
pub open spec fn is_contract_port(p: Seq<char>) -> bool {
    CONTRACT_PORT_PREFIX@.len() <= p.len() && p.subrange(0, CONTRACT_PORT_PREFIX@.len() as int)
        == CONTRACT_PORT_PREFIX@
}

/// The port expected on the counterpart side.
pub open spec fn counterpart_port_ok(p: Seq<char>, uses_contract_port: bool) -> bool {
    if uses_contract_port {
        is_contract_port(p)
    } else {
        p == TRANSFER_PORT_ID@
    }
}

/// Whether a channel qualifies, with the hub on side 1 or on side 2.
pub open spec fn channel_qualifies(c: ChannelInfo, hub_first: bool, uses_contract_port: bool) -> bool {
    if hub_first {
        c.chain_1.port_id@ == TRANSFER_PORT_ID@
            && counterpart_port_ok(c.chain_2.port_id@, uses_contract_port)
    } else {
        c.chain_2.port_id@ == TRANSFER_PORT_ID@
            && counterpart_port_ok(c.chain_1.port_id@, uses_contract_port)
    }
}

/// The qualifying channels, in list order.
pub open spec fn qualifying(s: Seq<ChannelInfo>, hub_first: bool, uses_contract_port: bool) -> Seq<ChannelInfo>
    decreases s.len(),
{
    if s.len() == 0 {
        Seq::empty()
    } else {
        let q = qualifying(s.drop_last(), hub_first, uses_contract_port);
        if channel_qualifies(s.last(), hub_first, uses_contract_port) {
            q.push(s.last())
        } else {
            q
        }
    }
}

/// The triple that one channel gives.
pub open spec fn triple_of(p: IBCPath, c: ChannelInfo, hub_first: bool) -> Resolved {
    if hub_first {
        (p.chain_1.connection_id@, c.chain_1.channel_id@, c.chain_2.channel_id@)
    } else {
        (p.chain_2.connection_id@, c.chain_2.channel_id@, c.chain_1.channel_id@)
    }
}

/// Resolution with the hub side already known.
pub open spec fn resolve_side(p: IBCPath, hub_first: bool, uses_contract_port: bool) -> Result<Resolved, PathError> {
    let q = qualifying(p.channels@, hub_first, uses_contract_port);
    if q.len() == 0 {
        Err(PathError::ChannelNotFound)
    } else if q.len() > 1 {
        Err(PathError::AmbiguousChannels)
    } else {
        Ok(triple_of(p, q[0], hub_first))
    }
}

/// Resolution of the connection and channels from `hub` to the other
/// chain of `p`. The hub is looked for on side 1 first.
pub open spec fn resolve_spec(p: IBCPath, hub: Seq<char>, uses_contract_port: bool) -> Result<Resolved, PathError> {
    if p.chain_1.chain_name@ == hub {
        resolve_side(p, true, uses_contract_port)
    } else if p.chain_2.chain_name@ == hub {
        resolve_side(p, false, uses_contract_port)
    } else {
        Err(PathError::HubNotInPath)
    }
}

/// The view of an executable resolution result.
pub open spec fn resolved_view(r: Result<(String, String, String), PathError>) -> Result<Resolved, PathError> {
    match r {
        Ok(t) => Ok((t.0@, t.1@, t.2@)),
        Err(e) => Err(e),
    }
}

fn channel_qualifies_exec(c: &ChannelInfo, hub_first: bool, uses_contract_port: bool) -> (r: bool)
    ensures
        r == channel_qualifies(*c, hub_first, uses_contract_port),
{
    let (hub_port, other_port) = if hub_first {
        (&c.chain_1.port_id, &c.chain_2.port_id)
    } else {
        (&c.chain_2.port_id, &c.chain_1.port_id)
    };
    if !str_eq(hub_port.as_str(), TRANSFER_PORT_ID) {
        return false;
    }
    if uses_contract_port {
        starts_with(other_port.as_str(), CONTRACT_PORT_PREFIX)
    } else {
        str_eq(other_port.as_str(), TRANSFER_PORT_ID)
    }
}

fn resolve_on_side(p: &IBCPath, hub_first: bool, uses_contract_port: bool) -> (r: Result<(String, String, String), PathError>)
    ensures
        resolved_view(r) == resolve_side(*p, hub_first, uses_contract_port),
{
    let ghost s = p.channels@;
    let n = p.channels.len();
    let mut first: usize = 0;
    let mut count: usize = 0;
    let mut i: usize = 0;
    while i < n
        invariant
            n == s.len(),
            s == p.channels@,
            i <= n,
            count <= 2,
            count == (if qualifying(s.subrange(0, i as int), hub_first, uses_contract_port).len() >= 2 { 2 } else {
                qualifying(s.subrange(0, i as int), hub_first, uses_contract_port).len() }),
            count >= 1 ==> first < n && qualifying(s.subrange(0, i as int), hub_first, uses_contract_port)[0] == s[first as int],
        decreases n - i,
    {
        let ghost q0 = qualifying(s.subrange(0, i as int), hub_first, uses_contract_port);
        assert(s.subrange(0, i as int + 1).drop_last() =~= s.subrange(0, i as int));
        assert(s.subrange(0, i as int + 1).last() == s[i as int]);
        if channel_qualifies_exec(&p.channels[i], hub_first, uses_contract_port) {
            if count == 0 {
                first = i;
            }
            if count < 2 {
                count = count + 1;
            }
            assert(q0.push(s[i as int])[0] == (if q0.len() == 0 { s[i as int] } else { q0[0] }));
        }
        i = i + 1;
    }
    assert(s.subrange(0, n as int) =~= s);
    if count == 0 {
        Err(PathError::ChannelNotFound)
    } else if count > 1 {
        Err(PathError::AmbiguousChannels)
    } else {
        let c = &p.channels[first];
        if hub_first {
            Ok((p.chain_1.connection_id.clone(), c.chain_1.channel_id.clone(), c.chain_2.channel_id.clone()))
        } else {
            Ok((p.chain_2.connection_id.clone(), c.chain_2.channel_id.clone(), c.chain_1.channel_id.clone()))
        }
    }
}

/// Resolves the connection and the two channel ids between `hub` and the
/// other chain of `path`: the hub side's connection, the hub side's channel
/// ("forward") and the counterpart side's channel ("reverse"). A channel
/// qualifies where the hub side's port is the transfer port and the
/// counterpart side's port is the transfer port or, where
/// `uses_contract_port` is set, a contract port.
pub fn resolve_path_channels(path: &IBCPath, hub: &str, uses_contract_port: bool) -> (r: Result<(String, String, String), PathError>)
    ensures
        resolved_view(r) == resolve_spec(*path, hub@, uses_contract_port),
{
    if str_eq(path.chain_1.chain_name.as_str(), hub) {
        resolve_on_side(path, true, uses_contract_port)
    } else if str_eq(path.chain_2.chain_name.as_str(), hub) {
        resolve_on_side(path, false, uses_contract_port)
    } else {
        Err(PathError::HubNotInPath)
    }
}

/// Resolves the connection and channels from the Neutron side of `path_info`.
pub fn get_path_connection_and_channels(path_info: &IBCPath, channel_uses_wasm_port: bool) -> (r: Result<(String, String, String), PathError>)
    ensures
        resolved_view(r) == resolve_spec(*path_info, NEUTRON_CHAIN_NAME@, channel_uses_wasm_port),
{
    resolve_path_channels(path_info, NEUTRON_CHAIN_NAME, channel_uses_wasm_port)
}

/// With the transfer port on both ends, the hub on side 1 and the hub on
/// side 2 pick the same channels.
proof fn lemma_transfer_qualifying_symmetric(s: Seq<ChannelInfo>)
    ensures
        qualifying(s, true, false) == qualifying(s, false, false),
    decreases s.len(),
{
    if s.len() > 0 {
        lemma_transfer_qualifying_symmetric(s.drop_last());
    }
}

/// Resolving a stored path from either of its two chains gives mirrored
/// answers: each side's own connection, with the forward and reverse
/// channels swapped; where one resolution fails, the other fails the same way.
pub proof fn lemma_resolution_is_mirrored(p: IBCPath, x: Seq<char>, y: Seq<char>)
    requires
        p.chain_1.chain_name@ == x,
        p.chain_2.chain_name@ == y,
        x != y,
    ensures
        match (resolve_spec(p, x, false), resolve_spec(p, y, false)) {
            (Ok(a), Ok(b)) => {
                &&& a.0 == p.chain_1.connection_id@
                &&& b.0 == p.chain_2.connection_id@
                &&& a.1 == b.2
                &&& a.2 == b.1
            },
            (Err(e1), Err(e2)) => e1 == e2,
            _ => false,
        },
{
    lemma_transfer_qualifying_symmetric(p.channels@);
}

/// Character order, as `str` compares.
pub open spec fn chars_lt(a: Seq<char>, b: Seq<char>) -> bool
    decreases a.len(),
{
    if a.len() == 0 {
        b.len() > 0
    } else if b.len() == 0 {
        false
    } else if a[0] != b[0] {
        a[0] < b[0]
    } else {
        chars_lt(a.drop_first(), b.drop_first())
    }
}

/// The registry file of the path between two chains, named after the
/// lesser name first.
pub open spec fn registry_file_spec(a: Seq<char>, b: Seq<char>) -> Seq<char> {
    let (lo, hi) = if chars_lt(b, a) { (b, a) } else { (a, b) };
    "_IBC/"@ + lo + "-"@ + hi + ".json"@
}

fn chars_lt_exec(a: &str, b: &str) -> (r: bool)
    ensures
        r == chars_lt(a@, b@),
{
    let n = a.unicode_len();
    let m = b.unicode_len();
    let mut i: usize = 0;
    assert(a@.subrange(0, n as int) =~= a@);
    assert(b@.subrange(0, m as int) =~= b@);
    while i < n && i < m
        invariant
            n == a@.len(),
            m == b@.len(),
            i <= n,
            i <= m,
            chars_lt(a@, b@) == chars_lt(a@.subrange(i as int, n as int), b@.subrange(i as int, m as int)),
        decreases n - i,
    {
        let ca = a.get_char(i);
        let cb = b.get_char(i);
        let ghost sa = a@.subrange(i as int, n as int);
        let ghost sb = b@.subrange(i as int, m as int);
        assert(sa[0] == ca && sb[0] == cb);
        if ca != cb {
            return ca < cb;
        }
        assert(sa.drop_first() =~= a@.subrange(i as int + 1, n as int));
        assert(sb.drop_first() =~= b@.subrange(i as int + 1, m as int));
        i = i + 1;
    }
    i == n && i < m
}

/// Lesser-first order is total: two names neither below the other are equal.
proof fn lemma_chars_lt_total(a: Seq<char>, b: Seq<char>)
    ensures
        !chars_lt(a, b) && !chars_lt(b, a) ==> a == b,
    decreases a.len(),
{
    if a.len() > 0 && b.len() > 0 && a[0] == b[0] {
        lemma_chars_lt_total(a.drop_first(), b.drop_first());
        if a.drop_first() == b.drop_first() {
            assert(a =~= seq![a[0]] + a.drop_first());
            assert(b =~= seq![b[0]] + b.drop_first());
        }
    } else if a.len() > 0 && b.len() > 0 {
    } else if a.len() == 0 && b.len() == 0 {
        assert(a =~= b);
    }
}

/// The registry holds each path once per pair: both orders of the two
/// chain names name the same file.
pub proof fn lemma_registry_file_symmetric(a: Seq<char>, b: Seq<char>)
    ensures
        registry_file_spec(a, b) == registry_file_spec(b, a),
{
    lemma_chars_lt_total(a, b);
    lemma_chars_lt_asymmetric(a, b);
}

proof fn lemma_chars_lt_asymmetric(a: Seq<char>, b: Seq<char>)
    ensures
        !(chars_lt(a, b) && chars_lt(b, a)),
    decreases a.len(),
{
    if a.len() > 0 && b.len() > 0 && a[0] == b[0] {
        lemma_chars_lt_asymmetric(a.drop_first(), b.drop_first());
    }
}

/// The registry file that holds the path between `chain_a` and `chain_b`.
pub fn registry_file(chain_a: &str, chain_b: &str) -> (r: String)
    ensures
        r@ == registry_file_spec(chain_a@, chain_b@),
{
    let (lo, hi) = if chars_lt_exec(chain_b, chain_a) { (chain_b, chain_a) } else { (chain_a, chain_b) };
    let mut s = concat("_IBC/", lo);
    s.append("-");
    s.append(hi);
    s.append(".json");
    s
}

} // verus!
