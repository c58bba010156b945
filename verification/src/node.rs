//! A federation node: its identity, its local event DAG, its own sequence
//! counter and the peers it is connected to.
//!
//! Binding sockets and talking to peers is the caller's part. The node
//! decides which events it emits and keeps the books.

use vstd::prelude::*;
use vstd::string::*;
use crate::clock::current_timestamp_rfc3339;
use crate::events::{signed_event, ContentView, Event, EventContent, EventType, EventView, NodeInfo};
use crate::hexcode::{encode_hex, hex_encoding};
use crate::signing::{derive_public_key, ed25519_public_key, generate_secret_key};
use crate::storage::{
    admission, is_tip, lists_tips, offered, views, Admission, DAGStats, EventDAG, StorageError,
};
use crate::text::{decimal, push_decimal, texts};
use crate::textmap::TextMap;

verus! {

/// The software version that a node announces.
pub const NODE_VERSION: &'static str = "0.1.0";

/// How a node is set up.
#[derive(Debug)]
pub struct NodeConfig {
    /// The address to listen on, `host:port`.
    pub listen_addr: String,
    /// Where the local store lives on disk.
    pub db_path: String,
    /// Human-readable name.
    pub name: String,
    /// The peers to connect to at start.
    pub initial_peers: Vec<String>,
    /// The node's signing key; a fresh one is made where there is none.
    pub signing_key: Option<[u8; 32]>,
}

impl Default for NodeConfig {
    fn default() -> (r: Self)
        ensures
            r.listen_addr@ == "127.0.0.1:9000"@,
            r.db_path@ == ".tenzik"@,
            r.name@ == "tenzik-node"@,
            r.initial_peers@ == Seq::<String>::empty(),
            r.signing_key is None,
    {
        NodeConfig {
            listen_addr: "127.0.0.1:9000".to_owned(),
            db_path: ".tenzik".to_owned(),
            name: "tenzik-node".to_owned(),
            initial_peers: Vec::new(),
            signing_key: None,
        }
    }
}

/// What the operator asks of a node on the command line.
#[derive(Debug)]
pub struct NodeArgs {
    /// Port to listen on.
    pub port: u16,
    /// A peer to connect to at start.
    pub peer: Option<String>,
    /// Where the local store lives on disk.
    pub db: String,
    /// Human-readable name.
    pub name: Option<String>,
}

/// The address on this host under `port`.
pub open spec fn local_address(port: u16) -> Seq<char> {
    "127.0.0.1:"@ + decimal(port as nat)
}

/// The name of a node that was given none.
pub open spec fn default_name(port: u16) -> Seq<char> {
    "tenzik-node-"@ + decimal(port as nat)
}

impl NodeConfig {
    /// The settings that the operator's arguments call for: the node
    /// listens on this host under the given port, is named as asked or
    /// after its port, connects to the given peer if there is one, and
    /// makes itself a fresh key.
    pub fn from_args(args: NodeArgs) -> (r: Self)
        ensures
            r.listen_addr@ == local_address(args.port),
            r.db_path@ == args.db@,
            r.name@ == match args.name {
                Some(name) => name@,
                None => default_name(args.port),
            },
            texts(r.initial_peers@) == match args.peer {
                Some(peer) => seq![peer@],
                None => Seq::<Seq<char>>::empty(),
            },
            r.signing_key is None,
    {
        let mut listen_addr = "127.0.0.1:".to_owned();
        push_decimal(&mut listen_addr, args.port as u128);
        let name = match args.name {
            Some(name) => name,
            None => {
                let mut name = "tenzik-node-".to_owned();
                push_decimal(&mut name, args.port as u128);
                name
            },
        };
        let mut initial_peers: Vec<String> = Vec::new();
        match args.peer {
            Some(peer) => {
                initial_peers.push(peer);
                proof {
                    assert(texts(initial_peers@) =~= seq![peer@]);
                }
            },
            None => {
                proof {
                    assert(texts(initial_peers@) =~= Seq::<Seq<char>>::empty());
                }
            },
        }
        NodeConfig { listen_addr, db_path: args.db, name, initial_peers, signing_key: None }
    }
}

/// A peer that the node is connected to.
#[derive(Debug)]
pub struct ConnectedPeer {
    /// The peer's address.
    pub address: String,
    /// What the peer says of itself.
    pub node_info: NodeInfo,
    /// RFC 3339 time at which the connection was made.
    pub connected_at: String,
    /// RFC 3339 time at which the peer was last heard.
    pub last_seen: String,
}

/// The capabilities that a node announces.
pub open spec fn announced_capabilities() -> Seq<Seq<char>> {
    seq!["receipt"@, "federation"@]
}

/// The list names every tip of the history once, and nothing else.
pub open spec fn names_tips(log: Seq<EventView>, ids: Seq<Seq<char>>) -> bool {
    &&& ids.no_duplicates()
    &&& forall|id: Seq<char>| ids.contains(id) <==> is_tip(log, id)
}

/// A federation node.
pub struct TenzikNode {
    config: NodeConfig,
    dag: EventDAG,
    signing_key: [u8; 32],
    peers: TextMap<ConnectedPeer>,
    sequence: u64,
    start_time: String,
}

impl TenzikNode {
    /// The store and the peer table are well formed.
    pub closed spec fn wf(&self) -> bool {
        self.dag.wf() && self.peers.wf()
    }

    /// The node's signing key.
    pub closed spec fn key(&self) -> Seq<u8> {
        self.signing_key@
    }

    /// The node's identifier: its public key in lowercase hexadecimal.
    pub open spec fn node_id(&self) -> Seq<char> {
        hex_encoding(ed25519_public_key(self.key()))
    }

    /// The history of the local store.
    pub closed spec fn history(&self) -> Seq<EventView> {
        self.dag@
    }

    /// The sequence number of the node's next own event.
    pub closed spec fn next_sequence(&self) -> u64 {
        self.sequence
    }

    /// The node's settings.
    pub closed spec fn settings(&self) -> NodeConfig {
        self.config
    }

    /// The connected peers by address.
    pub closed spec fn connected(&self) -> Map<Seq<char>, ConnectedPeer> {
        self.peers@
    }

    /// What the node says of itself.
    pub open spec fn own_info(&self) -> crate::events::NodeInfoView {
        crate::events::NodeInfoView {
            public_key: self.node_id(),
            address: self.settings().listen_addr@,
            name: self.settings().name@,
            version: NODE_VERSION@,
        }
    }

    /// A node with an empty store and no peers; its first sequence number
    /// is one. The signing key is the configured one, or a fresh one.
    pub fn new(config: NodeConfig) -> (r: Result<Self, StorageError>)
        ensures
            r matches Ok(node) && node.wf() && node.settings() == config && node.history()
                == Seq::<EventView>::empty() && node.next_sequence() == 1 && node.connected()
                == Map::<Seq<char>, ConnectedPeer>::empty() && (config.signing_key matches Some(key)
                ==> node.key() == key@),
    {
        let signing_key: [u8; 32] = match config.signing_key {
            Some(key) => key,
            None => generate_secret_key(),
        };
        Ok(
            TenzikNode {
                config,
                dag: EventDAG::new(),
                signing_key,
                peers: TextMap::new(),
                sequence: 1,
                start_time: current_timestamp_rfc3339(),
            },
        )
    }

    /// What emitting an own event at `timestamp` owes.
    ///
    /// The event names the current tips as its parents, bears the node's
    /// identifier and next sequence number, and is signed with the node's
    /// key. The sequence number advances whether or not the store takes
    /// the event; the call succeeds exactly when the store takes it or
    /// holds it already. Where the sequence number cannot advance, nothing
    /// changes and the call fails.
    pub open spec fn emits(
        &self,
        after: &Self,
        event_type: EventType,
        content: ContentView,
        timestamp: Seq<char>,
        r: Result<(), StorageError>,
    ) -> bool {
        &&& after.key() == self.key()
        &&& after.settings() == self.settings()
        &&& after.connected() == self.connected()
        &&& if self.next_sequence() == u64::MAX {
            r is Err && after.history() == self.history() && after.next_sequence()
                == self.next_sequence()
        } else {
            after.next_sequence() == self.next_sequence() + 1 && exists|parents: Seq<Seq<char>>|
                #![trigger names_tips(self.history(), parents)]
                names_tips(self.history(), parents) && {
                    let e = signed_event(
                        event_type,
                        content,
                        parents,
                        self.next_sequence(),
                        self.node_id(),
                        self.key(),
                        timestamp,
                    );
                    &&& after.history() == offered(self.history(), e)
                    &&& r is Ok <==> (admission(self.history(), e) is Accepted || admission(
                        self.history(),
                        e,
                    ) is Duplicate)
                }
        }
    }

    /// The identifiers of the current tips.
    fn tip_ids(&self) -> (r: Vec<String>)
        requires
            self.wf(),
        ensures
            names_tips(self.history(), texts(r@)),
    {
        let tips = match self.dag.get_tips() {
            Ok(list) => list,
            Err(_) => Vec::new(),
        };
        let mut out: Vec<String> = Vec::new();
        let mut i: usize = 0;
        while i < tips.len()
            invariant
                i <= tips@.len(),
                out@.len() == i,
                forall|j: int| 0 <= j < i ==> out@[j]@ == views(tips@)[j].id,
            decreases tips@.len() - i,
        {
            out.push(tips[i].id.clone());
            i += 1;
        }
        proof {
            let ids = texts(out@);
            let list = views(tips@);
            assert(lists_tips(self.dag@, list));
            assert forall|a: int, b: int| 0 <= a < ids.len() && 0 <= b < ids.len() && a != b
                implies ids[a] != ids[b] by {
                if a < b {
                    assert(list[a].id != list[b].id);
                } else {
                    assert(list[b].id != list[a].id);
                }
            }
            assert forall|id: Seq<char>| ids.contains(id) <==> is_tip(self.dag@, id) by {
                if ids.contains(id) {
                    let j = choose|j: int| 0 <= j < ids.len() && ids[j] == id;
                    assert(list[j].id == id);
                }
                if is_tip(self.dag@, id) {
                    let j = choose|j: int| 0 <= j < list.len() && (#[trigger] list[j]).id == id;
                    assert(ids[j] == id);
                }
            }
        }
        out
    }

    /// Emits an own event at `timestamp`.
    fn emit(&mut self, event_type: EventType, content: EventContent, timestamp: String) -> (r: Result<
        (),
        StorageError,
    >)
        requires
            old(self).wf(),
        ensures
            final(self).wf(),
            old(self).emits(final(self), event_type, content@, timestamp@, r),
    {
        if self.sequence == u64::MAX {
            return Err(
                StorageError::ValidationError { reason: "Sequence counter exhausted".to_owned() },
            );
        }
        let parents = self.tip_ids();
        let ghost named = texts(parents@);
        let public_key = derive_public_key(&self.signing_key);
        let node_id = encode_hex(public_key.as_slice());
        let event = match Event::new_event(
            event_type,
            content,
            parents,
            self.sequence,
            node_id,
            &self.signing_key,
            timestamp,
        ) {
            Ok(event) => event,
            Err(error) => {
                proof {
                    assert(false);
                }
                return Err(error);
            },
        };
        let ghost e = event@;
        self.sequence = self.sequence + 1;
        let r = self.dag.add_event(event);
        proof {
            assert(names_tips(old(self).history(), named));
            assert(e == signed_event(
                event_type,
                content@,
                named,
                old(self).next_sequence(),
                old(self).node_id(),
                old(self).key(),
                timestamp@,
            ));
        }
        r
    }

    /// The content of the node's announcement.
    pub open spec fn announcement(&self) -> ContentView {
        ContentView::NodeAnnounce {
            node_info: self.own_info(),
            capabilities: announced_capabilities(),
        }
    }

    /// The content of the node's farewell.
    pub open spec fn farewell() -> ContentView {
        ContentView::NodeLeave { reason: "Graceful shutdown"@ }
    }

    /// Announces the node at the current time. The outcome is that of
    /// `announce_self_at` for some timestamp.
    pub fn announce_self(&mut self) -> (r: Result<(), StorageError>)
        requires
            old(self).wf(),
        ensures
            final(self).wf(),
            exists|timestamp: Seq<char>| #[trigger]
                old(self).emits(
                    final(self),
                    EventType::NodeAnnounce,
                    old(self).announcement(),
                    timestamp,
                    r,
                ),
    {
        let timestamp = current_timestamp_rfc3339();
        let ghost stamp = timestamp@;
        let r = self.announce_self_at(timestamp);
        proof {
            assert(old(self).emits(
                final(self),
                EventType::NodeAnnounce,
                old(self).announcement(),
                stamp,
                r,
            ));
        }
        r
    }

    /// Announces the node at `timestamp`: emits a `NodeAnnounce` event with
    /// the node's description and its capabilities.
    pub fn announce_self_at(&mut self, timestamp: String) -> (r: Result<(), StorageError>)
        requires
            old(self).wf(),
        ensures
            final(self).wf(),
            old(self).emits(
                final(self),
                EventType::NodeAnnounce,
                old(self).announcement(),
                timestamp@,
                r,
            ),
    {
        let public_key = derive_public_key(&self.signing_key);
        let node_info = NodeInfo {
            public_key: encode_hex(public_key.as_slice()),
            address: self.config.listen_addr.clone(),
            name: self.config.name.clone(),
            version: NODE_VERSION.to_owned(),
        };
        let mut capabilities: Vec<String> = Vec::new();
        capabilities.push("receipt".to_owned());
        capabilities.push("federation".to_owned());
        proof {
            assert(texts(capabilities@) =~= announced_capabilities());
        }
        self.emit(EventType::NodeAnnounce, EventContent::NodeAnnounce { node_info, capabilities }, timestamp)
    }

    /// Takes leave at the current time. The outcome is that of
    /// `shutdown_at` for some timestamp.
    pub fn shutdown(&mut self) -> (r: Result<(), StorageError>)
        requires
            old(self).wf(),
        ensures
            final(self).wf(),
            exists|timestamp: Seq<char>| #[trigger]
                old(self).emits(final(self), EventType::NodeLeave, Self::farewell(), timestamp, r),
    {
        let timestamp = current_timestamp_rfc3339();
        let ghost stamp = timestamp@;
        let r = self.shutdown_at(timestamp);
        proof {
            assert(old(self).emits(final(self), EventType::NodeLeave, Self::farewell(), stamp, r));
        }
        r
    }

    /// Takes leave at `timestamp`: emits a `NodeLeave` event.
    pub fn shutdown_at(&mut self, timestamp: String) -> (r: Result<(), StorageError>)
        requires
            old(self).wf(),
        ensures
            final(self).wf(),
            old(self).emits(final(self), EventType::NodeLeave, Self::farewell(), timestamp@, r),
    {
        self.emit(
            EventType::NodeLeave,
            EventContent::NodeLeave { reason: "Graceful shutdown".to_owned() },
            timestamp,
        )
    }

    /// Records a peer as connected, in place of any peer under the same
    /// address.
    pub fn peer_connected(&mut self, address: String, node_info: NodeInfo, at: String)
        requires
            old(self).wf(),
        ensures
            final(self).wf(),
            final(self).connected().dom() == old(self).connected().dom().insert(address@),
            final(self).connected()[address@].address@ == address@,
            final(self).connected()[address@].node_info@ == node_info@,
            final(self).connected()[address@].connected_at@ == at@,
            final(self).connected()[address@].last_seen@ == at@,
            forall|other: Seq<char>|
                other != address@ && old(self).connected().contains_key(other)
                    ==> final(self).connected()[other] == old(self).connected()[other],
            final(self).history() == old(self).history(),
            final(self).next_sequence() == old(self).next_sequence(),
            final(self).key() == old(self).key(),
            final(self).settings() == old(self).settings(),
    {
        let peer = ConnectedPeer {
            address: address.clone(),
            node_info,
            connected_at: at.clone(),
            last_seen: at,
        };
        self.peers.insert(address, peer);
        proof {
            assert(final(self).connected().dom() =~= old(self).connected().dom().insert(address@));
        }
    }

    /// The connected peers, in the order in which they first connected.
    pub fn get_connected_peers(&self) -> (r: Vec<&ConnectedPeer>)
        requires
            self.wf(),
        ensures
            r@.len() == self.connected().dom().len(),
            forall|i: int| 0 <= i < r@.len() ==> self.connected().contains_value(*#[trigger] r@[i]),
    {
        let mut out: Vec<&ConnectedPeer> = Vec::new();
        let n = self.peers.len();
        let mut i: usize = 0;
        proof {
            self.peers.lemma_keys();
            self.peers.keys().unique_seq_to_set();
            assert(self.peers.keys().to_set() =~= self.peers@.dom());
        }
        while i < n
            invariant
                self.wf(),
                n == self.peers.keys().len(),
                i <= n,
                out@.len() == i,
                forall|j: int| 0 <= j < i ==> self.peers@.contains_value(*#[trigger] out@[j]),
            decreases n - i,
        {
            let peer = self.peers.value_at(i);
            out.push(peer);
            i += 1;
        }
        out
    }

    /// The node's public key.
    pub fn public_key(&self) -> (r: [u8; 32])
        ensures
            r@ == ed25519_public_key(self.key()),
    {
        derive_public_key(&self.signing_key)
    }

    /// The address that the node listens on.
    pub fn listen_address(&self) -> (r: &String)
        ensures
            *r == self.settings().listen_addr,
    {
        &self.config.listen_addr
    }

    /// The node's settings.
    pub fn config(&self) -> (r: &NodeConfig)
        ensures
            *r == self.settings(),
    {
        &self.config
    }

    /// The local store.
    pub fn dag(&self) -> (r: &EventDAG)
        requires
            self.wf(),
        ensures
            r.wf(),
            r@ == self.history(),
    {
        &self.dag
    }

    /// The statistics of the local store.
    pub fn get_dag_stats(&self) -> (r: Result<DAGStats, StorageError>)
        requires
            self.wf(),
        ensures
            r matches Ok(stats) && crate::storage::stats_of(self.history(), stats),
    {
        self.dag.get_stats()
    }

    /// Brings stored events back into the local store, as the store's
    /// `restore` does. Returns how many events were taken.
    pub fn restore(&mut self, events: &Vec<Event>) -> (taken: usize)
        requires
            old(self).wf(),
            events@.len() < usize::MAX,
        ensures
            final(self).wf(),
            final(self).history() == crate::storage::settled(
                old(self).history(),
                crate::events::event_views(events@),
                events@.len() as nat + 1,
            ),
            taken == final(self).history().len() - old(self).history().len(),
            final(self).next_sequence() == old(self).next_sequence(),
            final(self).key() == old(self).key(),
            final(self).settings() == old(self).settings(),
            final(self).connected() == old(self).connected(),
    {
        self.dag.restore(events)
    }

    /// Offers an event to the local store.
    pub fn add_event(&mut self, event: Event) -> (r: Result<(), StorageError>)
        requires
            old(self).wf(),
        ensures
            final(self).wf(),
            final(self).history() == offered(old(self).history(), event@),
            match admission(old(self).history(), event@) {
                Admission::Accepted | Admission::Duplicate => r is Ok,
                _ => r matches Err(StorageError::ValidationError { .. }),
            },
            final(self).next_sequence() == old(self).next_sequence(),
            final(self).key() == old(self).key(),
            final(self).settings() == old(self).settings(),
            final(self).connected() == old(self).connected(),
    {
        self.dag.add_event(event)
    }
}

} // verus!
