//! Per-session lifecycle: the opening handshake, the online claim, the
//! shared directory of live sessions, and the ordered teardown.

use vstd::prelude::*;

use crate::cache::CacheError;
use crate::message::ServiceMessage;
use crate::router::WsFrame;
use crate::text::push_char;

verus! {

/// Capacity of every session's outbound queue.
pub const OUTBOUND_QUEUE_CAPACITY: usize = 64;

/// The sending half of one session's bounded outbound queue. The channel
/// type cannot be declared to the verifier, so the handle is held opaquely;
/// the unverified shell constructs it and performs the awaited sends.
#[verifier::external_body]
pub struct OutboundSender {
    pub tx: crossfire::MAsyncTx<crossfire::mpsc::Array<ServiceMessage>>,
}

#[verifier::external_type_specification]
#[verifier::external_body]
#[verifier::reject_recursive_types(K)]
#[verifier::reject_recursive_types(V)]
#[verifier::reject_recursive_types(S)]
pub struct ExDashMap<K, V, S>(dashmap::DashMap<K, V, S>);

/// What the live-session map holds: each online user's outbound sender.
pub uninterp spec fn session_map(d: dashmap::DashMap<String, OutboundSender>) -> Map<
    Seq<char>,
    OutboundSender,
>;

/// Relies on dashmap::DashMap::new: the fresh map holds nothing.
#[verifier::external_body]
fn dir_new() -> (r: dashmap::DashMap<String, OutboundSender>)
    ensures
        session_map(r) === Map::empty(),
{
    dashmap::DashMap::new()
}

/// Relies on dashmap::DashMap::entry: a vacant entry takes the value, an
/// occupied one keeps what it holds, so the first writer wins.
#[verifier::external_body]
fn dir_claim(d: &mut dashmap::DashMap<String, OutboundSender>, user_id: &str, tx: OutboundSender) -> (claimed: bool)
    ensures
        claimed == !session_map(*old(d)).contains_key(user_id@),
        session_map(*final(d)) == if session_map(*old(d)).contains_key(user_id@) {
            session_map(*old(d))
        } else {
            session_map(*old(d)).insert(user_id@, tx)
        },
{
    match d.entry(user_id.to_string()) {
        dashmap::mapref::entry::Entry::Occupied(_) => false,
        dashmap::mapref::entry::Entry::Vacant(e) => {
            e.insert(tx);
            true
        },
    }
}

/// Relies on dashmap::DashMap::get: returns the value held under the key,
/// if one is.
#[verifier::external_body]
fn dir_get(d: &dashmap::DashMap<String, OutboundSender>, user_id: &str) -> (r: Option<
    OutboundSender,
>)
    ensures
        r is Some <==> session_map(*d).contains_key(user_id@),
        r matches Some(t) ==> t == session_map(*d)[user_id@],
{
    match d.get(user_id) {
        Some(entry) => Some(OutboundSender { tx: entry.tx.clone() }),
        None => None,
    }
}

/// Relies on dashmap::DashMap::remove: takes the entry out, if one is held.
#[verifier::external_body]
fn dir_remove(d: &mut dashmap::DashMap<String, OutboundSender>, user_id: &str) -> (existed: bool)
    ensures
        existed == session_map(*old(d)).contains_key(user_id@),
        session_map(*final(d)) == session_map(*old(d)).remove(user_id@),
{
    d.remove(user_id).is_some()
}

/// The shared directory of live sessions: user id to outbound sender.
/// Insertion is first-writer-wins per user; removal happens once, at
/// teardown.
pub struct SessionDirectory {
    map: dashmap::DashMap<String, OutboundSender>,
}

impl SessionDirectory {
    /// The sessions held: each online user's outbound sender.
    pub closed spec fn sessions(&self) -> Map<Seq<char>, OutboundSender> {
        session_map(self.map)
    }

    pub fn new() -> (r: Self)
        ensures
            r.sessions() === Map::empty(),
    {
        Self { map: dir_new() }
    }

    /// Installs the sender under `user_id` unless one is already held; the
    /// first writer wins and a loser changes nothing.
    pub fn claim(&mut self, user_id: &str, tx: OutboundSender) -> (claimed: bool)
        ensures
            claimed == !old(self).sessions().contains_key(user_id@),
            final(self).sessions() == if old(self).sessions().contains_key(user_id@) {
                old(self).sessions()
            } else {
                old(self).sessions().insert(user_id@, tx)
            },
    {
        dir_claim(&mut self.map, user_id, tx)
    }

    /// The sender of `user_id`'s live session, if one is held.
    pub fn lookup(&self, user_id: &str) -> (r: Option<OutboundSender>)
        ensures
            r is Some <==> self.sessions().contains_key(user_id@),
            r matches Some(t) ==> t == self.sessions()[user_id@],
    {
        dir_get(&self.map, user_id)
    }

    /// Takes `user_id`'s entry out of the directory.
    pub fn remove(&mut self, user_id: &str) -> (existed: bool)
        ensures
            existed == old(self).sessions().contains_key(user_id@),
            final(self).sessions() == old(self).sessions().remove(user_id@),
    {
        dir_remove(&mut self.map, user_id)
    }
}

/// The fixed payload of the opening ping.
pub fn handshake_ping_payload() -> (r: Vec<u8>)
    ensures
        r@ == seq![1u8, 2u8, 3u8],
{
    let mut v: Vec<u8> = Vec::new();
    v.push(1);
    v.push(2);
    v.push(3);
    proof {
        assert(v@ =~= seq![1u8, 2u8, 3u8]);
    }
    v
}

/// What the socket hands the session loop.
#[derive(Debug, Clone, PartialEq, Eq)]
pub enum RecvEvent {
    Frame(WsFrame),
    SocketError(String),
    Closed,
}

/// The handshake goes on only when the peer answered the opening ping with
/// some frame; an error or a silent close aborts before any registration.
pub fn handshake_proceeds(ev: &RecvEvent) -> (r: bool)
    ensures
        r == (ev is Frame),
{
    match ev {
        RecvEvent::Frame(_) => true,
        RecvEvent::SocketError(_) => false,
        RecvEvent::Closed => false,
    }
}

/// The value a session writes under its user in the shared cache hash:
/// `"<service_name>:<service_id>"`.
pub fn server_token(service_name: &str, service_id: &str) -> (r: String)
    ensures
        r@ == service_name@ + seq![':'] + service_id@,
{
    let mut s = service_name.to_owned();
    push_char(&mut s, ':');
    s.append(service_id);
    proof {
        assert(s@ =~= service_name@ + seq![':'] + service_id@);
    }
    s
}

/// Brings a session online after its cache claim: the directory gains the
/// user exactly when the cache claim took effect and no session for the
/// user is already held on this node. A second connection attempt changes
/// nothing and is told to abort.
pub fn session_online_step(
    dir: &mut SessionDirectory,
    user_id: &str,
    tx: OutboundSender,
    claim: Result<bool, CacheError>,
) -> (r: bool)
    ensures
        r == (claim == Ok::<bool, CacheError>(true) && !old(dir).sessions().contains_key(
            user_id@,
        )),
        r ==> final(dir).sessions() == old(dir).sessions().insert(user_id@, tx),
        !r ==> final(dir).sessions() == old(dir).sessions(),
{
    match claim {
        Ok(true) => dir.claim(user_id, tx),
        _ => false,
    }
}

/// Tears a session down: the directory entry is gone afterwards, whatever
/// the cache said. The caller then clears the cache claim.
pub fn session_cleanup_step(dir: &mut SessionDirectory, user_id: &str) -> (existed: bool)
    ensures
        existed == old(dir).sessions().contains_key(user_id@),
        final(dir).sessions() == old(dir).sessions().remove(user_id@),
{
    dir.remove(user_id)
}

} // verus!
