//! The gossip rules: the peer table, which peers are due for a sync, what
//! is sent, and how each incoming message is answered.
//!
//! Timers and the network are the caller's part. The caller tells the
//! protocol what time it is and what arrived, and sends what the protocol
//! hands back.

use vstd::prelude::*;
use vstd::string::*;
use crate::clock::current_millis;
use crate::events::{event_views, Event, EventView};
use crate::storage::{
    admission, cursor_of, holds, lists_since, offered, offered_all, sorted_events, views, Admission,
    EventDAG,
    StorageError,
};
use crate::text::{str_eq, texts};
use crate::textmap::TextMap;

verus! {

/// What is known of one peer.
#[derive(Debug)]
pub struct PeerInfo {
    /// The peer's network address, `host:port`.
    pub address: String,
    /// The peer's public key.
    pub public_key: String,
    /// When the last successful sync ended, in milliseconds; `None` before
    /// the first.
    pub last_sync: Option<u64>,
    /// Number of events sent to the peer.
    pub events_sent: u64,
    /// Number of events accepted from the peer.
    pub events_received: u64,
    /// Whether the peer answered the last time.
    pub is_reachable: bool,
}

/// A peer as plain mathematical data.
pub struct PeerView {
    pub address: Seq<char>,
    pub public_key: Seq<char>,
    pub last_sync: Option<u64>,
    pub events_sent: u64,
    pub events_received: u64,
    pub is_reachable: bool,
}

impl View for PeerInfo {
    type V = PeerView;

    open spec fn view(&self) -> PeerView {
        PeerView {
            address: self.address@,
            public_key: self.public_key@,
            last_sync: self.last_sync,
            events_sent: self.events_sent,
            events_received: self.events_received,
            is_reachable: self.is_reachable,
        }
    }
}

/// The messages of the protocol.
#[derive(Debug)]
pub enum GossipMessage {
    /// Asks for events; `since` names the last event that the sender has.
    Sync { since: Option<String>, limit: usize },
    /// Carries events.
    Events { events: Vec<Event>, has_more: bool },
    /// Acknowledges events: how many were accepted, and which were not.
    Ack { count: usize, rejected: Vec<String> },
    /// Asks whether the peer is there.
    Ping { timestamp: u64 },
    /// Answers a ping.
    Pong { ping_timestamp: u64, pong_timestamp: u64 },
}

/// The protocol's settings.
#[derive(Debug, Clone, Copy)]
pub struct GossipConfig {
    /// How long after a sync a peer is due again, in milliseconds.
    pub sync_interval_ms: u64,
    /// The most events sent in one message.
    pub max_events_per_sync: usize,
    /// Timeout for connecting to a peer, in milliseconds.
    pub peer_timeout_ms: u64,
    /// The most peers synced with in one round.
    pub max_concurrent_syncs: usize,
    /// How often peers are pinged, in milliseconds.
    pub ping_interval_ms: u64,
}

impl Default for GossipConfig {
    fn default() -> (r: Self)
        ensures
            r.sync_interval_ms == 5000,
            r.max_events_per_sync == 100,
            r.peer_timeout_ms == 30000,
            r.max_concurrent_syncs == 5,
            r.ping_interval_ms == 10000,
    {
        GossipConfig {
            sync_interval_ms: 5000,
            max_events_per_sync: 100,
            peer_timeout_ms: 30000,
            max_concurrent_syncs: 5,
            ping_interval_ms: 10000,
        }
    }
}

/// Counters of the protocol.
#[derive(Debug, Clone, Copy, PartialEq, Eq, Structural)]
pub struct GossipStats {
    /// Syncs attempted.
    pub sync_attempts: u64,
    /// Syncs that succeeded.
    pub sync_successes: u64,
    /// Syncs that failed.
    pub sync_failures: u64,
    /// Events sent.
    pub events_sent: u64,
    /// Events accepted.
    pub events_received: u64,
    /// Events received that were held already.
    pub duplicate_events: u64,
    /// Mean latency of the successful syncs, in whole milliseconds.
    pub avg_sync_latency_ms: u64,
}

/// The counters of a protocol that has done nothing yet.
pub open spec fn no_stats() -> GossipStats {
    GossipStats {
        sync_attempts: 0,
        sync_successes: 0,
        sync_failures: 0,
        events_sent: 0,
        events_received: 0,
        duplicate_events: 0,
        avg_sync_latency_ms: 0,
    }
}

impl Default for GossipStats {
    fn default() -> (r: Self)
        ensures
            r == no_stats(),
    {
        GossipStats {
            sync_attempts: 0,
            sync_successes: 0,
            sync_failures: 0,
            events_sent: 0,
            events_received: 0,
            duplicate_events: 0,
            avg_sync_latency_ms: 0,
        }
    }
}

/// A counter raised by `by`, stopping at the largest value.
pub open spec fn raised(counter: u64, by: nat) -> u64 {
    if counter + by > u64::MAX {
        u64::MAX
    } else {
        (counter + by) as u64
    }
}

/// The mean latency after one more successful sync, rounded down.
pub open spec fn mean_latency(mean: u64, successes: u64, latency: u64) -> int {
    (mean as int * successes as int + latency as int) / (successes as int + 1)
}

/// Whether a peer is due for a sync at `now_ms`: it is reachable, no sync
/// with it is under way, and it was never synced with or last more than
/// the interval ago.
pub open spec fn due(peer: PeerView, active: Seq<Seq<char>>, now_ms: u64, interval_ms: u64) -> bool {
    &&& peer.is_reachable
    &&& !active.contains(peer.address)
    &&& match peer.last_sync {
        None => true,
        Some(last) => now_ms >= last && now_ms - last > interval_ms,
    }
}

/// The peers to sync with: of the peers under `keys`, in order, the first
/// `most` that are due.
pub open spec fn due_peers(
    keys: Seq<Seq<char>>,
    peers: Map<Seq<char>, PeerInfo>,
    active: Seq<Seq<char>>,
    now_ms: u64,
    interval_ms: u64,
    most: nat,
) -> Seq<Seq<char>>
    decreases keys.len(),
{
    if keys.len() == 0 {
        Seq::<Seq<char>>::empty()
    } else {
        let before = due_peers(keys.drop_last(), peers, active, now_ms, interval_ms, most);
        if before.len() < most && due(peers[keys.last()]@, active, now_ms, interval_ms) {
            before.push(keys.last())
        } else {
            before
        }
    }
}

/// What receiving a batch of events does: the events accepted, the
/// identifiers refused, and the duplicates among those.
pub struct Reception {
    pub accepted: nat,
    pub rejected: Seq<Seq<char>>,
    pub duplicates: nat,
}

/// The reception of `events`, offered in turn to a store with history
/// `log`: an accepted event counts as accepted; every other event's
/// identifier is listed as rejected, and counts as a duplicate where the
/// event was held already.
pub open spec fn reception(log: Seq<EventView>, events: Seq<EventView>) -> Reception
    decreases events.len(),
{
    if events.len() == 0 {
        Reception { accepted: 0, rejected: Seq::<Seq<char>>::empty(), duplicates: 0 }
    } else {
        let before = reception(log, events.drop_last());
        let e = events.last();
        match admission(offered_all(log, events.drop_last()), e) {
            Admission::Accepted => Reception { accepted: before.accepted + 1, ..before },
            Admission::Duplicate => Reception {
                rejected: before.rejected.push(e.id),
                duplicates: before.duplicates + 1,
                ..before
            },
            _ => Reception { rejected: before.rejected.push(e.id), ..before },
        }
    }
}

/// The last events of `all` in reverse order, at most `most` of them.
pub open spec fn last_first(all: Seq<EventView>, most: nat) -> Seq<EventView> {
    Seq::new(if all.len() <= most { all.len() } else { most }, |j: int| all[all.len() - 1 - j])
}

/// The gossip protocol of one node.
pub struct GossipProtocol {
    config: GossipConfig,
    peers: TextMap<PeerInfo>,
    dag: EventDAG,
    stats: GossipStats,
    active_syncs: Vec<String>,
}

fn raise(counter: u64, by: usize) -> (r: u64)
    ensures
        r == raised(counter, by as nat),
{
    let sum: u128 = counter as u128 + by as u128;
    if sum > u64::MAX as u128 {
        u64::MAX
    } else {
        sum as u64
    }
}

impl GossipProtocol {
    /// The peer table is keyed by address, and the store is well formed.
    pub closed spec fn wf(&self) -> bool {
        &&& self.peers.wf()
        &&& self.dag.wf()
        &&& forall|address: Seq<char>| #[trigger]
            self.peers@.contains_key(address) ==> self.peers@[address]@.address == address
    }

    /// The settings.
    pub closed spec fn config(&self) -> GossipConfig {
        self.config
    }

    /// The peer table.
    pub closed spec fn peers(&self) -> Map<Seq<char>, PeerInfo> {
        self.peers@
    }

    /// The addresses of the peers, in the order in which they were added.
    pub closed spec fn addresses(&self) -> Seq<Seq<char>> {
        self.peers.keys()
    }

    /// The history of the local store.
    pub closed spec fn history(&self) -> Seq<EventView> {
        self.dag@
    }

    /// The counters.
    pub closed spec fn stats(&self) -> GossipStats {
        self.stats
    }

    /// The peers with which a sync is under way.
    pub closed spec fn active(&self) -> Seq<Seq<char>> {
        texts(self.active_syncs@)
    }

    /// A protocol over `dag` without peers.
    pub fn new(config: GossipConfig, dag: EventDAG) -> (r: Self)
        requires
            dag.wf(),
        ensures
            r.wf(),
            r.config() == config,
            r.peers() == Map::<Seq<char>, PeerInfo>::empty(),
            r.history() == dag@,
            r.stats() == no_stats(),
            r.active() == Seq::<Seq<char>>::empty(),
    {
        let r = GossipProtocol {
            config,
            peers: TextMap::new(),
            dag,
            stats: GossipStats::default(),
            active_syncs: Vec::new(),
        };
        proof {
            assert(r.active() =~= Seq::<Seq<char>>::empty());
        }
        r
    }

    /// Adds a peer, reachable and never synced with, in place of any peer
    /// under the same address.
    pub fn add_peer(&mut self, address: String, public_key: String)
        requires
            old(self).wf(),
        ensures
            final(self).wf(),
            final(self).peers().dom() == old(self).peers().dom().insert(address@),
            final(self).peers()[address@]@ == (PeerView {
                address: address@,
                public_key: public_key@,
                last_sync: None,
                events_sent: 0,
                events_received: 0,
                is_reachable: true,
            }),
            forall|other: Seq<char>|
                other != address@ && old(self).peers().contains_key(other) ==> final(self).peers()[other]
                    == old(self).peers()[other],
            final(self).history() == old(self).history(),
            final(self).stats() == old(self).stats(),
            final(self).active() == old(self).active(),
            final(self).config() == old(self).config(),
    {
        let peer = PeerInfo {
            address: address.clone(),
            public_key,
            last_sync: None,
            events_sent: 0,
            events_received: 0,
            is_reachable: true,
        };
        self.peers.insert(address, peer);
        proof {
            assert(final(self).peers().dom() =~= old(self).peers().dom().insert(address@));
        }
    }

    /// Removes a peer, and ends any sync with it.
    pub fn remove_peer(&mut self, address: &str)
        requires
            old(self).wf(),
        ensures
            final(self).wf(),
            final(self).peers() == old(self).peers().remove(address@),
            !final(self).active().contains(address@),
            forall|other: Seq<char>|
                other != address@ ==> (final(self).active().contains(other) <==> old(
                    self,
                ).active().contains(other)),
            final(self).history() == old(self).history(),
            final(self).stats() == old(self).stats(),
            final(self).config() == old(self).config(),
    {
        let _ = self.peers.remove(address);
        self.end_sync(address);
    }

    /// Marks a sync with `address` as under way. Gives `false`, and changes
    /// nothing, where the peer is unknown or a sync with it is under way
    /// already.
    pub fn begin_sync(&mut self, address: &str) -> (r: bool)
        requires
            old(self).wf(),
        ensures
            final(self).wf(),
            r == (old(self).peers().contains_key(address@) && !old(self).active().contains(
                address@,
            )),
            final(self).active() == if r {
                old(self).active().push(address@)
            } else {
                old(self).active()
            },
            final(self).peers() == old(self).peers(),
            final(self).history() == old(self).history(),
            final(self).stats() == old(self).stats(),
            final(self).config() == old(self).config(),
    {
        if !self.peers.contains_key(address) || self.is_active(address) {
            return false;
        }
        self.active_syncs.push(address.to_owned());
        proof {
            assert(final(self).active() =~= old(self).active().push(address@));
        }
        true
    }

    /// Whether a sync with `address` is under way.
    pub fn is_active(&self, address: &str) -> (r: bool)
        ensures
            r == self.active().contains(address@),
    {
        let mut i: usize = 0;
        while i < self.active_syncs.len()
            invariant
                i <= self.active_syncs@.len(),
                forall|j: int| 0 <= j < i ==> texts(self.active_syncs@)[j] != address@,
            decreases self.active_syncs@.len() - i,
        {
            if str_eq(self.active_syncs[i].as_str(), address) {
                proof {
                    assert(texts(self.active_syncs@)[i as int] == address@);
                }
                return true;
            }
            i += 1;
        }
        false
    }

    /// Takes `address` out of the syncs under way.
    fn end_sync(&mut self, address: &str)
        ensures
            !final(self).active().contains(address@),
            forall|other: Seq<char>|
                other != address@ ==> (final(self).active().contains(other) <==> old(
                    self,
                ).active().contains(other)),
            final(self).peers == old(self).peers,
            final(self).dag == old(self).dag,
            final(self).stats == old(self).stats,
            final(self).config == old(self).config,
    {
        let mut kept: Vec<String> = Vec::new();
        let mut i: usize = 0;
        while i < self.active_syncs.len()
            invariant
                i <= self.active_syncs@.len(),
                !texts(kept@).contains(address@),
                forall|other: Seq<char>|
                    other != address@ ==> (texts(kept@).contains(other) <==> texts(
                        self.active_syncs@,
                    ).take(i as int).contains(other)),
            decreases self.active_syncs@.len() - i,
        {
            let ghost before = texts(kept@);
            let ghost prior = texts(self.active_syncs@).take(i as int);
            let ghost now = texts(self.active_syncs@).take(i as int + 1);
            let ghost item = self.active_syncs@[i as int]@;
            let keep = !str_eq(self.active_syncs[i].as_str(), address);
            if keep {
                kept.push(self.active_syncs[i].clone());
            }
            proof {
                let after = texts(kept@);
                assert(now =~= prior.push(item));
                if keep {
                    assert(after =~= before.push(item));
                } else {
                    assert(after =~= before);
                }
                assert forall|other: Seq<char>| other != address@ implies (after.contains(other)
                    <==> now.contains(other)) by {
                    assert(before.contains(other) <==> prior.contains(other));
                    if prior.contains(other) {
                        let j = choose|j: int| 0 <= j < prior.len() && prior[j] == other;
                        assert(now[j] == other);
                    }
                    if before.contains(other) {
                        let j = choose|j: int| 0 <= j < before.len() && before[j] == other;
                        assert(after[j] == other);
                    }
                    if other == item {
                        assert(now[i as int] == other);
                        assert(keep);
                        assert(after[before.len() as int] == other);
                    }
                    if now.contains(other) {
                        let j = choose|j: int| 0 <= j < now.len() && now[j] == other;
                        if j < i {
                            assert(prior[j] == other);
                        }
                    }
                    if after.contains(other) {
                        let j = choose|j: int| 0 <= j < after.len() && after[j] == other;
                        if j < before.len() {
                            assert(before[j] == other);
                        }
                    }
                }
                assert(!after.contains(address@)) by {
                    if after.contains(address@) {
                        let j = choose|j: int| 0 <= j < after.len() && after[j] == address@;
                        if j < before.len() {
                            assert(before[j] == address@);
                        }
                    }
                }
            }
            i += 1;
        }
        proof {
            assert(texts(self.active_syncs@).take(i as int) =~= texts(self.active_syncs@));
        }
        self.active_syncs = kept;
    }

    /// The peers to sync with at `now_ms`: the first due peers in the
    /// order of the table, at most as many as the settings allow at once.
    pub fn select_sync_peers(&self, now_ms: u64) -> (r: Vec<String>)
        requires
            self.wf(),
        ensures
            texts(r@) == due_peers(
                self.addresses(),
                self.peers(),
                self.active(),
                now_ms,
                self.config().sync_interval_ms,
                self.config().max_concurrent_syncs as nat,
            ),
    {
        let mut out: Vec<String> = Vec::new();
        let n = self.peers.len();
        let mut i: usize = 0;
        proof {
            assert(self.peers.keys().take(0) =~= Seq::<Seq<char>>::empty());
        }
        while i < n
            invariant
                self.wf(),
                n == self.peers.keys().len(),
                i <= n,
                texts(out@) == due_peers(
                    self.peers.keys().take(i as int),
                    self.peers@,
                    texts(self.active_syncs@),
                    now_ms,
                    self.config.sync_interval_ms,
                    self.config.max_concurrent_syncs as nat,
                ),
            decreases n - i,
        {
            let address = self.peers.key_at(i);
            let peer = self.peers.value_at(i);
            let ghost before = texts(out@);
            proof {
                let next = self.peers.keys().take(i as int + 1);
                assert(next.drop_last() =~= self.peers.keys().take(i as int));
                assert(next.last() == self.peers.keys()[i as int]);
                assert(self.peers@.contains_key(address@));
                assert(peer@.address == address@);
            }
            let is_due = peer.is_reachable && !self.is_active(address.as_str()) && match peer.last_sync {
                None => true,
                Some(last) => now_ms >= last && now_ms - last > self.config.sync_interval_ms,
            };
            if out.len() < self.config.max_concurrent_syncs && is_due {
                out.push(address.clone());
                proof {
                    assert(texts(out@) =~= before.push(address@));
                }
            }
            i += 1;
        }
        proof {
            assert(self.peers.keys().take(i as int) =~= self.peers.keys());
        }
        out
    }

    /// The events to send to a peer: the latest first, at most as many as
    /// the settings allow in one message.
    pub fn outgoing_events(&self) -> (r: Vec<Event>)
        requires
            self.wf(),
        ensures
            exists|all: Seq<EventView>|
                #![trigger lists_since(self.history(), None, all)]
                lists_since(self.history(), None, all) && sorted_events(all) && event_views(r@)
                    == last_first(all, self.config().max_events_per_sync as nat),
    {
        let all = match self.dag.get_events_since(None) {
            Ok(list) => list,
            Err(_) => Vec::new(),
        };
        let mut out: Vec<Event> = Vec::new();
        let mut i: usize = all.len();
        let ghost listed = views(all@);
        while i > 0 && out.len() < self.config.max_events_per_sync
            invariant
                i <= all@.len(),
                listed == views(all@),
                lists_since(self.dag@, None, listed),
                sorted_events(listed),
                out@.len() == all@.len() - i,
                out@.len() <= self.config.max_events_per_sync,
                forall|j: int| 0 <= j < out@.len() ==> out@[j]@ == listed[all@.len() - 1 - j],
            decreases i,
        {
            i -= 1;
            out.push(all[i].duplicate());
        }
        proof {
            assert(event_views(out@) =~= last_first(
                listed,
                self.config.max_events_per_sync as nat,
            ));
            assert(lists_since(self.history(), None, listed));
        }
        out
    }

    /// Records how a sync with `address` ended, and ends it.
    ///
    /// Either way one attempt is counted. A success counts as one, enters
    /// the mean latency, counts the events sent for the node and for the
    /// peer, and marks the peer reachable and synced at `now_ms`. A
    /// failure counts as one and marks the peer unreachable. An unknown
    /// peer changes only the counters.
    pub fn record_sync_result(
        &mut self,
        address: &str,
        succeeded: bool,
        events_sent: usize,
        now_ms: u64,
        latency_ms: u64,
    )
        requires
            old(self).wf(),
        ensures
            final(self).wf(),
            final(self).config() == old(self).config(),
            final(self).history() == old(self).history(),
            !final(self).active().contains(address@),
            final(self).peers().dom() == old(self).peers().dom(),
            forall|other: Seq<char>|
                other != address@ && old(self).peers().contains_key(other) ==> final(self).peers()[other]
                    == old(self).peers()[other],
            final(self).stats() == if succeeded {
                GossipStats {
                    sync_attempts: raised(old(self).stats().sync_attempts, 1),
                    sync_successes: raised(old(self).stats().sync_successes, 1),
                    events_sent: raised(old(self).stats().events_sent, events_sent as nat),
                    avg_sync_latency_ms: mean_latency(
                        old(self).stats().avg_sync_latency_ms,
                        old(self).stats().sync_successes,
                        latency_ms,
                    ) as u64,
                    ..old(self).stats()
                }
            } else {
                GossipStats {
                    sync_attempts: raised(old(self).stats().sync_attempts, 1),
                    sync_failures: raised(old(self).stats().sync_failures, 1),
                    ..old(self).stats()
                }
            },
            old(self).peers().contains_key(address@) ==> final(self).peers()[address@]@
                == if succeeded {
                PeerView {
                    last_sync: Some(now_ms),
                    is_reachable: true,
                    events_sent: raised(old(self).peers()[address@]@.events_sent, events_sent as nat),
                    ..old(self).peers()[address@]@
                }
            } else {
                PeerView { is_reachable: false, ..old(self).peers()[address@]@ }
            },
    {
        self.end_sync(address);
        self.stats.sync_attempts = raise(self.stats.sync_attempts, 1);
        if succeeded {
            let mean = self.stats.avg_sync_latency_ms;
            let successes = self.stats.sync_successes;
            proof {
                assert(mean as int * successes as int <= 0xffff_ffff_ffff_ffff
                    * 0xffff_ffff_ffff_ffff) by (nonlinear_arith)
                    requires
                        0 <= mean <= 0xffff_ffff_ffff_ffff,
                        0 <= successes <= 0xffff_ffff_ffff_ffff,
                ;
            }
            let total: u128 = mean as u128 * successes as u128 + latency_ms as u128;
            let count: u128 = successes as u128 + 1;
            proof {
                assert(mean as int * successes as int + latency_ms as int <= 0xffff_ffff_ffff_ffff
                    * (successes as int + 1)) by (nonlinear_arith)
                    requires
                        0 <= mean <= 0xffff_ffff_ffff_ffff,
                        0 <= latency_ms <= 0xffff_ffff_ffff_ffff,
                        0 <= successes,
                ;
                vstd::arithmetic::div_mod::lemma_div_is_ordered(
                    total as int,
                    0xffff_ffff_ffff_ffff * (successes as int + 1),
                    count as int,
                );
                vstd::arithmetic::div_mod::lemma_div_multiples_vanish(
                    0xffff_ffff_ffff_ffff,
                    count as int,
                );
            }
            self.stats.avg_sync_latency_ms = (total / count) as u64;
            self.stats.sync_successes = raise(successes, 1);
            self.stats.events_sent = raise(self.stats.events_sent, events_sent);
        } else {
            self.stats.sync_failures = raise(self.stats.sync_failures, 1);
        }
        let updated: Option<PeerInfo> = match self.peers.get(address) {
            None => None,
            Some(peer) => Some(
                if succeeded {
                    PeerInfo {
                        address: peer.address.clone(),
                        public_key: peer.public_key.clone(),
                        last_sync: Some(now_ms),
                        events_sent: raise(peer.events_sent, events_sent),
                        events_received: peer.events_received,
                        is_reachable: true,
                    }
                } else {
                    PeerInfo {
                        address: peer.address.clone(),
                        public_key: peer.public_key.clone(),
                        last_sync: peer.last_sync,
                        events_sent: peer.events_sent,
                        events_received: peer.events_received,
                        is_reachable: false,
                    }
                },
            ),
        };
        match updated {
            None => {},
            Some(peer) => {
                self.peers.insert(address.to_owned(), peer);
            },
        }
        proof {
            assert(final(self).peers().dom() =~= old(self).peers().dom());
        }
    }

    /// Marks a peer reachable or unreachable; an unknown peer changes
    /// nothing.
    pub fn set_reachable(&mut self, address: &str, reachable: bool)
        requires
            old(self).wf(),
        ensures
            final(self).wf(),
            final(self).config() == old(self).config(),
            final(self).history() == old(self).history(),
            final(self).stats() == old(self).stats(),
            final(self).active() == old(self).active(),
            final(self).peers().dom() == old(self).peers().dom(),
            forall|other: Seq<char>|
                other != address@ && old(self).peers().contains_key(other) ==> final(self).peers()[other]
                    == old(self).peers()[other],
            old(self).peers().contains_key(address@) ==> final(self).peers()[address@]@
                == (PeerView { is_reachable: reachable, ..old(self).peers()[address@]@ }),
    {
        let updated: Option<PeerInfo> = match self.peers.get(address) {
            None => None,
            Some(peer) => Some(
                PeerInfo {
                    address: peer.address.clone(),
                    public_key: peer.public_key.clone(),
                    last_sync: peer.last_sync,
                    events_sent: peer.events_sent,
                    events_received: peer.events_received,
                    is_reachable: reachable,
                },
            ),
        };
        match updated {
            None => {},
            Some(peer) => {
                self.peers.insert(address.to_owned(), peer);
            },
        }
        proof {
            assert(final(self).peers().dom() =~= old(self).peers().dom());
        }
    }

    /// The counters.
    pub fn get_stats(&self) -> (r: &GossipStats)
        ensures
            *r == self.stats(),
    {
        &self.stats
    }

    /// The peer table.
    pub fn get_peers(&self) -> (r: &TextMap<PeerInfo>)
        requires
            self.wf(),
        ensures
            r.wf(),
            r@ == self.peers(),
            r.keys() == self.addresses(),
    {
        &self.peers
    }

    /// The local store.
    pub fn dag(&self) -> (r: &EventDAG)
        requires
            self.wf(),
        ensures
            r.wf(),
            r@ == self.history(),
    {
        &self.dag
    }

    /// The number of peers that are marked reachable.
    pub fn reachable_peer_count(&self) -> (r: usize)
        requires
            self.wf(),
        ensures
            r == reachable_among(self.addresses(), self.peers()),
    {
        let mut count: usize = 0;
        let n = self.peers.len();
        let mut i: usize = 0;
        proof {
            assert(self.peers.keys().take(0) =~= Seq::<Seq<char>>::empty());
        }
        while i < n
            invariant
                self.wf(),
                n == self.peers.keys().len(),
                i <= n,
                count <= i,
                count == reachable_among(self.peers.keys().take(i as int), self.peers@),
            decreases n - i,
        {
            proof {
                let next = self.peers.keys().take(i as int + 1);
                assert(next.drop_last() =~= self.peers.keys().take(i as int));
                assert(next.last() == self.peers.keys()[i as int]);
            }
            if self.peers.value_at(i).is_reachable {
                count += 1;
            }
            i += 1;
        }
        proof {
            assert(self.peers.keys().take(i as int) =~= self.peers.keys());
        }
        count
    }
}

/// The number of the peers under `keys` that are marked reachable.
pub open spec fn reachable_among(keys: Seq<Seq<char>>, peers: Map<Seq<char>, PeerInfo>) -> nat
    decreases keys.len(),
{
    if keys.len() == 0 {
        0
    } else {
        reachable_among(keys.drop_last(), peers) + if peers[keys.last()].is_reachable {
            1nat
        } else {
            0nat
        }
    }
}

/// The text of an optional string.
pub open spec fn text_of(s: Option<String>) -> Option<Seq<char>> {
    match s {
        Some(text) => Some(text@),
        None => None,
    }
}

/// The smaller of two numbers.
pub open spec fn least(a: int, b: int) -> int {
    if a <= b {
        a
    } else {
        b
    }
}

impl GossipProtocol {
    /// Nothing but the store, the counters and one peer's entry differs
    /// between `self` and `after`.
    pub open spec fn same_but_for(&self, after: &Self, address: Seq<char>) -> bool {
        &&& after.config() == self.config()
        &&& after.active() == self.active()
        &&& after.peers().dom() == self.peers().dom()
        &&& forall|other: Seq<char>|
            other != address && self.peers().contains_key(other) ==> after.peers()[other]
                == self.peers()[other]
    }

    /// The answer owed to a request for events: the stored events that come
    /// after the cursor `since`, in the order of timestamp and identifier,
    /// cut to the smaller of the requested limit and the most that one
    /// message may carry; `has_more` says whether anything was cut off.
    pub open spec fn answers_sync(
        &self,
        since: Option<Seq<char>>,
        limit: usize,
        r: Option<GossipMessage>,
    ) -> bool {
        r matches Some(GossipMessage::Events { events, has_more }) && exists|all: Seq<EventView>|
            #![trigger lists_since(self.history(), cursor_of(self.history(), since), all)]
            lists_since(self.history(), cursor_of(self.history(), since), all) && sorted_events(all) && {
                let most = least(limit as int, self.config().max_events_per_sync as int);
                &&& event_views(events@) == all.take(least(most, all.len() as int))
                &&& has_more == (all.len() > most)
            }
    }

    /// What receiving `events` from the peer `from` owes: each event is
    /// offered to the store in turn; the acknowledgement counts the
    /// accepted events and lists the identifiers of the others; the
    /// accepted events are counted for the node and for the peer, the
    /// duplicates for the node.
    pub open spec fn receives(
        &self,
        after: &Self,
        from: Seq<char>,
        events: Seq<EventView>,
        r: Option<GossipMessage>,
    ) -> bool {
        let outcome = reception(self.history(), events);
        &&& after.history() == offered_all(self.history(), events)
        &&& (r matches Some(GossipMessage::Ack { count, rejected }) && count == outcome.accepted
            && texts(rejected@) == outcome.rejected)
        &&& after.stats() == (GossipStats {
            events_received: raised(self.stats().events_received, outcome.accepted),
            duplicate_events: raised(self.stats().duplicate_events, outcome.duplicates),
            ..self.stats()
        })
        &&& self.same_but_for(after, from)
        &&& self.peers().contains_key(from) ==> after.peers()[from]@ == (PeerView {
            events_received: raised(self.peers()[from]@.events_received, outcome.accepted),
            ..self.peers()[from]@
        })
    }

    /// What a pong from the peer `from` owes: the peer is marked
    /// reachable, and there is no answer.
    pub open spec fn hears_pong(&self, after: &Self, from: Seq<char>, r: Option<GossipMessage>) -> bool {
        &&& r is None
        &&& after.history() == self.history()
        &&& after.stats() == self.stats()
        &&& self.same_but_for(after, from)
        &&& self.peers().contains_key(from) ==> after.peers()[from]@ == (PeerView {
            is_reachable: true,
            ..self.peers()[from]@
        })
    }

    /// Nothing differs between `self` and `after`.
    pub open spec fn same_as(&self, after: &Self) -> bool {
        &&& after.config() == self.config()
        &&& after.active() == self.active()
        &&& after.peers() == self.peers()
        &&& after.history() == self.history()
        &&& after.stats() == self.stats()
    }

    /// What handling `message` from the peer `from` at `now_ms` owes.
    pub open spec fn handles(
        &self,
        after: &Self,
        from: Seq<char>,
        message: GossipMessage,
        now_ms: u64,
        r: Option<GossipMessage>,
    ) -> bool {
        match message {
            GossipMessage::Sync { since, limit } => self.same_as(after) && self.answers_sync(
                text_of(since),
                limit,
                r,
            ),
            GossipMessage::Events { events, has_more } => self.receives(
                after,
                from,
                event_views(events@),
                r,
            ),
            GossipMessage::Ack { count, rejected } => self.same_as(after) && r is None,
            GossipMessage::Ping { timestamp } => self.same_as(after) && (r matches Some(
                GossipMessage::Pong { ping_timestamp, pong_timestamp },
            ) && ping_timestamp == timestamp && pong_timestamp == now_ms),
            GossipMessage::Pong { ping_timestamp, pong_timestamp } => self.hears_pong(after, from, r),
        }
    }

    /// Handles a message from the peer `from`, at the current time. The
    /// outcome is that of `handle_message_at` for some current time.
    pub fn handle_message(&mut self, from: &str, message: GossipMessage) -> (r: Result<
        Option<GossipMessage>,
        StorageError,
    >)
        requires
            old(self).wf(),
        ensures
            final(self).wf(),
            r matches Ok(answer) && exists|now_ms: u64| #[trigger]
                old(self).handles(final(self), from@, message, now_ms, answer),
    {
        let now_ms = current_millis();
        let r = self.handle_message_at(from, message, now_ms);
        proof {
            assert(old(self).handles(final(self), from@, message, now_ms, r->Ok_0));
        }
        r
    }

    /// Handles a message from the peer `from` at `now_ms`.
    pub fn handle_message_at(&mut self, from: &str, message: GossipMessage, now_ms: u64) -> (r: Result<
        Option<GossipMessage>,
        StorageError,
    >)
        requires
            old(self).wf(),
        ensures
            final(self).wf(),
            r matches Ok(answer) && old(self).handles(final(self), from@, message, now_ms, answer),
    {
        match message {
            GossipMessage::Sync { since, limit } => Ok(self.handle_sync_request(from, since, limit)),
            GossipMessage::Events { events, has_more } => Ok(self.handle_events(from, events, has_more)),
            GossipMessage::Ack { count, rejected } => Ok(self.handle_ack(from, count, rejected)),
            GossipMessage::Ping { timestamp } => Ok(self.handle_ping(from, timestamp, now_ms)),
            GossipMessage::Pong { ping_timestamp, pong_timestamp } => Ok(
                self.handle_pong(from, ping_timestamp, pong_timestamp, now_ms),
            ),
        }
    }

    /// Answers a request for events.
    pub fn handle_sync_request(&self, from: &str, since: Option<String>, limit: usize) -> (r: Option<
        GossipMessage,
    >)
        requires
            self.wf(),
        ensures
            self.answers_sync(text_of(since), limit, r),
    {
        let found = match &since {
            Some(id) => self.dag.get_events_since(Some(id.as_str())),
            None => self.dag.get_events_since(None),
        };
        let all = match found {
            Ok(list) => list,
            Err(_) => Vec::new(),
        };
        let most: usize = if limit <= self.config.max_events_per_sync {
            limit
        } else {
            self.config.max_events_per_sync
        };
        let ghost listed = views(all@);
        let mut events: Vec<Event> = Vec::new();
        let mut i: usize = 0;
        while i < all.len() && i < most
            invariant
                i <= all@.len(),
                i <= most,
                listed == views(all@),
                events@.len() == i,
                forall|j: int| 0 <= j < i ==> events@[j]@ == listed[j],
            decreases all@.len() - i,
        {
            events.push(all[i].duplicate());
            i += 1;
        }
        let has_more = all.len() > most;
        proof {
            assert(event_views(events@) =~= listed.take(least(most as int, listed.len() as int)));
            assert(lists_since(self.history(), cursor_of(self.history(), text_of(since)), listed));
        }
        Some(GossipMessage::Events { events, has_more })
    }

    /// Offers each received event to the store and acknowledges.
    pub fn handle_events(&mut self, from: &str, events: Vec<Event>, has_more: bool) -> (r: Option<
        GossipMessage,
    >)
        requires
            old(self).wf(),
        ensures
            final(self).wf(),
            old(self).receives(final(self), from@, event_views(events@), r),
    {
        let ghost log = self.dag@;
        let ghost sent = event_views(events@);
        let mut accepted: usize = 0;
        let mut duplicates: usize = 0;
        let mut rejected: Vec<String> = Vec::new();
        let mut i: usize = 0;
        proof {
            assert(sent.take(0) =~= Seq::<EventView>::empty());
        }
        while i < events.len()
            invariant
                i <= events@.len(),
                sent == event_views(events@),
                self.dag.wf(),
                self.peers == old(self).peers,
                self.stats == old(self).stats,
                self.config == old(self).config,
                self.active_syncs == old(self).active_syncs,
                self.dag@ == offered_all(log, sent.take(i as int)),
                accepted == reception(log, sent.take(i as int)).accepted,
                duplicates == reception(log, sent.take(i as int)).duplicates,
                texts(rejected@) == reception(log, sent.take(i as int)).rejected,
                accepted <= i,
                duplicates <= i,
            decreases events@.len() - i,
        {
            let event = events[i].duplicate();
            let id = event.id.clone();
            let ghost before_rejected = texts(rejected@);
            proof {
                let next = sent.take(i as int + 1);
                assert(next.drop_last() =~= sent.take(i as int));
                assert(next.last() == events@[i as int]@);
            }
            let before = self.dag.len();
            let outcome = self.dag.add_event(event);
            let after = self.dag.len();
            if after > before {
                accepted += 1;
            } else {
                rejected.push(id);
                proof {
                    assert(texts(rejected@) =~= before_rejected.push(events@[i as int]@.id));
                }
                if outcome.is_ok() {
                    duplicates += 1;
                }
            }
            i += 1;
        }
        proof {
            assert(sent.take(i as int) =~= sent);
        }
        self.stats.events_received = raise(self.stats.events_received, accepted);
        self.stats.duplicate_events = raise(self.stats.duplicate_events, duplicates);
        self.credit_peer(from, accepted);
        Some(GossipMessage::Ack { count: accepted, rejected })
    }

    /// Counts `received` accepted events for the peer `address`; an
    /// unknown peer changes nothing.
    fn credit_peer(&mut self, address: &str, received: usize)
        requires
            old(self).peers.wf(),
            forall|a: Seq<char>| #[trigger]
                old(self).peers@.contains_key(a) ==> old(self).peers@[a]@.address == a,
        ensures
            final(self).peers.wf(),
            forall|a: Seq<char>| #[trigger]
                final(self).peers@.contains_key(a) ==> final(self).peers@[a]@.address == a,
            final(self).dag == old(self).dag,
            final(self).stats == old(self).stats,
            final(self).config == old(self).config,
            final(self).active_syncs == old(self).active_syncs,
            final(self).peers@.dom() == old(self).peers@.dom(),
            forall|other: Seq<char>|
                other != address@ && old(self).peers@.contains_key(other) ==> final(self).peers@[other]
                    == old(self).peers@[other],
            old(self).peers@.contains_key(address@) ==> final(self).peers@[address@]@ == (PeerView {
                events_received: raised(old(self).peers@[address@]@.events_received, received as nat),
                ..old(self).peers@[address@]@
            }),
    {
        let updated: Option<PeerInfo> = match self.peers.get(address) {
            None => None,
            Some(peer) => Some(
                PeerInfo {
                    address: peer.address.clone(),
                    public_key: peer.public_key.clone(),
                    last_sync: peer.last_sync,
                    events_sent: peer.events_sent,
                    events_received: raise(peer.events_received, received),
                    is_reachable: peer.is_reachable,
                },
            ),
        };
        match updated {
            None => {},
            Some(peer) => {
                self.peers.insert(address.to_owned(), peer);
            },
        }
        proof {
            assert(final(self).peers@.dom() =~= old(self).peers@.dom());
        }
    }

    /// Takes note of an acknowledgement. It changes nothing and has no
    /// answer.
    pub fn handle_ack(&mut self, from: &str, count: usize, rejected: Vec<String>) -> (r: Option<
        GossipMessage,
    >)
        ensures
            *final(self) == *old(self),
            r is None,
    {
        None
    }

    /// Answers a ping with a pong that repeats the ping's timestamp and
    /// carries `now_ms`.
    pub fn handle_ping(&mut self, from: &str, timestamp: u64, now_ms: u64) -> (r: Option<GossipMessage>)
        ensures
            *final(self) == *old(self),
            r matches Some(GossipMessage::Pong { ping_timestamp, pong_timestamp }) && ping_timestamp
                == timestamp && pong_timestamp == now_ms,
    {
        Some(GossipMessage::Pong { ping_timestamp: timestamp, pong_timestamp: now_ms })
    }

    /// Takes note of a pong: the peer is reachable.
    pub fn handle_pong(
        &mut self,
        from: &str,
        ping_timestamp: u64,
        pong_timestamp: u64,
        now_ms: u64,
    ) -> (r: Option<GossipMessage>)
        requires
            old(self).wf(),
        ensures
            final(self).wf(),
            old(self).hears_pong(final(self), from@, r),
    {
        self.set_reachable(from, true);
        None
    }

    /// The round-trip time that a pong shows at `now_ms`: the time since
    /// the ping was sent, zero where the clock went back.
    pub fn round_trip_ms(ping_timestamp: u64, now_ms: u64) -> (r: u64)
        ensures
            r == if now_ms >= ping_timestamp {
                now_ms - ping_timestamp
            } else {
                0
            },
    {
        if now_ms >= ping_timestamp {
            now_ms - ping_timestamp
        } else {
            0
        }
    }
}

} // verus!
