//! The event DAG: a store of events with tip tracking, a child index and
//! per-node sequence numbers.
//!
//! The store is described by its history, the sequence of events in the
//! order in which they were accepted. Everything else (which events are
//! tips, what each node's latest sequence number is, who the children of an
//! event are) is a function of that history, and the store's indexes are
//! kept equal to those functions.

use vstd::prelude::*;
use vstd::string::*;
use crate::clock::parse_rfc3339;
use crate::events::{event_views, Event, EventType, EventView};
use crate::text::{clone_texts, push_decimal, str_eq, str_le, text_le, texts};
use crate::textmap::TextMap;

verus! {

/// Why the store refused or failed.
#[derive(Debug)]
pub enum StorageError {
    DatabaseError { reason: String },
    EventNotFound { event_id: String },
    InvalidEvent { reason: String },
    SerializationError { reason: String },
    ValidationError { reason: String },
    DAGViolation { reason: String },
}

/// Counts over the store, for monitoring.
#[derive(Debug, PartialEq, Eq)]
pub struct DAGStats {
    /// Number of events.
    pub total_events: usize,
    /// Number of tips.
    pub tip_count: usize,
    /// Number of receipt events.
    pub receipt_count: usize,
    /// Number of distinct creators.
    pub node_count: usize,
    /// The earliest timestamp in byte-wise order, if there is any event.
    pub earliest_timestamp: Option<String>,
    /// The latest timestamp in byte-wise order, if there is any event.
    pub latest_timestamp: Option<String>,
}

impl Default for DAGStats {
    /// The statistics of an empty store.
    fn default() -> (r: Self)
        ensures
            r.total_events == 0,
            r.tip_count == 0,
            r.receipt_count == 0,
            r.node_count == 0,
            r.earliest_timestamp is None,
            r.latest_timestamp is None,
    {
        DAGStats {
            total_events: 0,
            tip_count: 0,
            receipt_count: 0,
            node_count: 0,
            earliest_timestamp: None,
            latest_timestamp: None,
        }
    }
}

/// Some event of the history has the identifier `id`.
pub open spec fn holds(log: Seq<EventView>, id: Seq<char>) -> bool {
    exists|i: int| 0 <= i < log.len() && (#[trigger] log[i]).id == id
}

/// Some event with identifier `child` names `parent` among its parents.
pub open spec fn listed(log: Seq<EventView>, child: Seq<char>, parent: Seq<char>) -> bool {
    exists|i: int|
        0 <= i < log.len() && (#[trigger] log[i]).id == child && log[i].parents.contains(parent)
}

/// Some event names `id` among its parents.
pub open spec fn has_child(log: Seq<EventView>, id: Seq<char>) -> bool {
    exists|i: int| 0 <= i < log.len() && (#[trigger] log[i]).parents.contains(id)
}

/// A tip is a stored event that no stored event names as a parent.
pub open spec fn is_tip(log: Seq<EventView>, id: Seq<char>) -> bool {
    holds(log, id) && !has_child(log, id)
}

/// Some event of the history was created by `node`.
pub open spec fn node_seen(log: Seq<EventView>, node: Seq<char>) -> bool {
    exists|i: int| 0 <= i < log.len() && (#[trigger] log[i]).node_id == node
}

/// The sequence number of the latest event that `node` created; zero where
/// it created none.
pub open spec fn last_sequence(log: Seq<EventView>, node: Seq<char>) -> u64
    decreases log.len(),
{
    if log.len() == 0 {
        0
    } else if log.last().node_id == node {
        log.last().sequence
    } else {
        last_sequence(log.drop_last(), node)
    }
}

/// Every parent that `e` names is held.
pub open spec fn parents_present(log: Seq<EventView>, e: EventView) -> bool {
    forall|k: int| 0 <= k < e.parents.len() ==> holds(log, #[trigger] e.parents[k])
}

/// What the store does with an event that is offered to it.
pub enum Admission {
    /// The event is not well shaped: refused.
    Malformed,
    /// An event with this identifier is held already: nothing to do.
    Duplicate,
    /// A named parent is not held: refused.
    MissingParent,
    /// The sequence number does not exceed the creator's latest: refused.
    StaleSequence,
    /// The event is appended to the history.
    Accepted,
}

/// The decision on `e` for a store with history `log`, checks in this
/// order: shape, duplicate, parents, sequence.
pub open spec fn admission(log: Seq<EventView>, e: EventView) -> Admission {
    if !e.well_shaped() {
        Admission::Malformed
    } else if holds(log, e.id) {
        Admission::Duplicate
    } else if !parents_present(log, e) {
        Admission::MissingParent
    } else if e.sequence <= last_sequence(log, e.node_id) {
        Admission::StaleSequence
    } else {
        Admission::Accepted
    }
}

/// The history after `e` was offered to a store with history `log`.
pub open spec fn offered(log: Seq<EventView>, e: EventView) -> Seq<EventView> {
    if admission(log, e) is Accepted {
        log.push(e)
    } else {
        log
    }
}

/// A history has grown lawfully when each of its events was acceptable to
/// the store that held the events before it.
pub open spec fn grown(log: Seq<EventView>) -> bool {
    forall|i: int| 0 <= i < log.len() ==> admission(#[trigger] log.take(i), log[i]) is Accepted
}

/// Each identifier of `path` names the next one among its parents.
pub open spec fn chain(log: Seq<EventView>, path: Seq<Seq<char>>) -> bool {
    forall|k: int| 0 <= k < path.len() - 1 ==> listed(log, #[trigger] path[k], path[k + 1])
}

/// `ancestor` is reached from `start` by following parent references, at
/// least one of them: `start` is a descendant of `ancestor`.
pub open spec fn descends(log: Seq<EventView>, start: Seq<char>, ancestor: Seq<char>) -> bool {
    exists|path: Seq<Seq<char>>|
        path.len() >= 2 && path.first() == start && path.last() == ancestor && #[trigger] chain(
            log,
            path,
        )
}

/// Appending an acceptable event keeps a history lawful.
pub proof fn lemma_grown_push(log: Seq<EventView>, e: EventView)
    requires
        grown(log),
        admission(log, e) is Accepted,
    ensures
        grown(log.push(e)),
{
    let next = log.push(e);
    assert forall|i: int| 0 <= i < next.len() implies admission(#[trigger] next.take(i), next[i])
        is Accepted by {
        if i < log.len() {
            assert(next.take(i) =~= log.take(i));
        } else {
            assert(next.take(i) =~= log);
        }
    }
}

/// Every prefix of a lawful history is lawful.
pub proof fn lemma_grown_prefix(log: Seq<EventView>, n: int)
    requires
        grown(log),
        0 <= n <= log.len(),
    ensures
        grown(log.take(n)),
{
    let prefix = log.take(n);
    assert forall|i: int| 0 <= i < prefix.len() implies admission(
        #[trigger] prefix.take(i),
        prefix[i],
    ) is Accepted by {
        assert(prefix.take(i) =~= log.take(i));
    }
}

/// In a lawful history no identifier occurs twice.
pub proof fn lemma_ids_distinct(log: Seq<EventView>)
    requires
        grown(log),
    ensures
        forall|i: int, j: int| 0 <= i < j < log.len() ==> log[i].id != log[j].id,
{
    assert forall|i: int, j: int| 0 <= i < j < log.len() implies log[i].id != log[j].id by {
        let prefix = log.take(j);
        assert(admission(prefix, log[j]) is Accepted);
        assert(prefix[i] == log[i]);
    }
}

/// In a lawful history every parent that an event names stands strictly
/// before that event.
pub proof fn lemma_parents_earlier(log: Seq<EventView>, i: int, k: int)
    requires
        grown(log),
        0 <= i < log.len(),
        0 <= k < log[i].parents.len(),
    ensures
        exists|j: int| 0 <= j < i && (#[trigger] log[j]).id == log[i].parents[k],
{
    let prefix = log.take(i);
    assert(admission(prefix, log[i]) is Accepted);
    assert(holds(prefix, log[i].parents[k]));
    let j = choose|j: int| 0 <= j < prefix.len() && (#[trigger] prefix[j]).id == log[i].parents[k];
    assert(log[j] == prefix[j]);
}

/// In a lawful history no event of a node has a sequence number above the
/// node's latest.
pub proof fn lemma_last_sequence_bounds(log: Seq<EventView>, node: Seq<char>, i: int)
    requires
        grown(log),
        0 <= i < log.len(),
        log[i].node_id == node,
    ensures
        log[i].sequence <= last_sequence(log, node),
    decreases log.len(),
{
    let n = log.len() - 1;
    if i < n {
        let rest = log.drop_last();
        assert(rest =~= log.take(n));
        lemma_grown_prefix(log, n);
        lemma_last_sequence_bounds(rest, node, i);
        assert(rest[i] == log[i]);
        if log.last().node_id == node {
            assert(admission(log.take(n), log[n]) is Accepted);
        }
    }
}

/// Per-node monotonicity: in a lawful history the sequence numbers of one
/// node's events increase strictly in the order of acceptance.
pub proof fn lemma_sequences_increase(log: Seq<EventView>, i: int, j: int)
    requires
        grown(log),
        0 <= i < j < log.len(),
        log[i].node_id == log[j].node_id,
    ensures
        log[i].sequence < log[j].sequence,
{
    let prefix = log.take(j);
    lemma_grown_prefix(log, j);
    assert(admission(prefix, log[j]) is Accepted);
    assert(prefix[i] == log[i]);
    lemma_last_sequence_bounds(prefix, log[j].node_id, i);
}

/// The place of the event with identifier `id` in the history.
pub open spec fn place(log: Seq<EventView>, id: Seq<char>) -> int {
    choose|i: int| 0 <= i < log.len() && (#[trigger] log[i]).id == id
}

/// In a lawful history, the end of a chain of parent references stands
/// strictly before its start.
pub proof fn lemma_chain_earlier(log: Seq<EventView>, path: Seq<Seq<char>>)
    requires
        grown(log),
        path.len() >= 2,
        chain(log, path),
    ensures
        holds(log, path.first()),
        holds(log, path.last()),
        place(log, path.last()) < place(log, path.first()),
    decreases path.len(),
{
    assert(listed(log, path[0], path[1]));
    lemma_listed_earlier(log, path[0], path[1]);
    if path.len() > 2 {
        let rest = path.drop_first();
        assert forall|k: int| 0 <= k < rest.len() - 1 implies listed(
            log,
            #[trigger] rest[k],
            rest[k + 1],
        ) by {
            assert(rest[k] == path[k + 1]);
            assert(listed(log, path[k + 1], path[k + 2]));
        }
        lemma_chain_earlier(log, rest);
        assert(rest.first() == path[1]);
        assert(rest.last() == path.last());
    }
}

/// In a lawful history a named parent stands strictly before the event
/// that names it.
pub proof fn lemma_listed_earlier(log: Seq<EventView>, child: Seq<char>, parent: Seq<char>)
    requires
        grown(log),
        listed(log, child, parent),
    ensures
        holds(log, child),
        holds(log, parent),
        place(log, parent) < place(log, child),
{
    lemma_ids_distinct(log);
    let i = choose|i: int|
        0 <= i < log.len() && (#[trigger] log[i]).id == child && log[i].parents.contains(parent);
    let k = choose|k: int| 0 <= k < log[i].parents.len() && log[i].parents[k] == parent;
    lemma_parents_earlier(log, i, k);
    let j = choose|j: int| 0 <= j < i && (#[trigger] log[j]).id == log[i].parents[k];
    assert(log[i].id == child);
    assert(log[j].id == parent);
    let pc = place(log, child);
    let pp = place(log, parent);
    assert(pc == i) by {
        if pc < i {
            assert(log[pc].id != log[i].id);
        } else if i < pc {
            assert(log[i].id != log[pc].id);
        }
    }
    assert(pp == j) by {
        if pp < j {
            assert(log[pp].id != log[j].id);
        } else if j < pp {
            assert(log[j].id != log[pp].id);
        }
    }
}

/// Acyclicity: in a lawful history no event names a parent that is among
/// the event's own descendants.
pub proof fn lemma_acyclic(log: Seq<EventView>, child: Seq<char>, parent: Seq<char>)
    requires
        grown(log),
        listed(log, child, parent),
    ensures
        !descends(log, parent, child),
{
    lemma_listed_earlier(log, child, parent);
    if descends(log, parent, child) {
        let path = choose|path: Seq<Seq<char>>|
            path.len() >= 2 && path.first() == parent && path.last() == child && #[trigger] chain(
                log,
                path,
            );
        lemma_chain_earlier(log, path);
    }
}

/// Idempotence: offering an event a second time changes nothing.
pub proof fn lemma_offer_twice(log: Seq<EventView>, e: EventView)
    ensures
        offered(offered(log, e), e) == offered(log, e),
{
    if admission(log, e) is Accepted {
        let next = log.push(e);
        assert(next[log.len() as int].id == e.id);
        assert(holds(next, e.id));
    }
}

/// The history after each event of `events` was offered in turn to a store
/// with history `log`.
pub open spec fn offered_all(log: Seq<EventView>, events: Seq<EventView>) -> Seq<EventView>
    decreases events.len(),
{
    if events.len() == 0 {
        log
    } else {
        offered(offered_all(log, events.drop_last()), events.last())
    }
}

/// Offering to a store that holds the first `k` events of a lawful history
/// the first `n` events of that history, in order, leaves it with the
/// longer of the two.
pub proof fn lemma_replay_prefix(theirs: Seq<EventView>, k: int, n: int)
    requires
        grown(theirs),
        0 <= k <= theirs.len(),
        0 <= n <= theirs.len(),
    ensures
        offered_all(theirs.take(k), theirs.take(n)) == if n <= k {
            theirs.take(k)
        } else {
            theirs.take(n)
        },
    decreases n,
{
    if n > 0 {
        lemma_replay_prefix(theirs, k, n - 1);
        let sent = theirs.take(n);
        assert(sent.drop_last() =~= theirs.take(n - 1));
        assert(sent.last() == theirs[n - 1]);
        let e = theirs[n - 1];
        if n <= k {
            let mine = theirs.take(k);
            assert(mine[n - 1].id == e.id);
            assert(holds(mine, e.id));
            assert(admission(theirs.take(n - 1), e) is Accepted);
        } else {
            assert(admission(theirs.take(n - 1), e) is Accepted);
            if n - 1 < k {
                assert(n - 1 == k);
            }
            assert(theirs.take(n - 1).push(e) =~= theirs.take(n));
        }
    }
}

/// Convergence by replay: a replica that holds the first part of a peer's
/// lawful history and is offered the peer's whole history in the order of
/// acceptance ends with the peer's history.
pub proof fn lemma_replay_converges(mine: Seq<EventView>, theirs: Seq<EventView>, k: int)
    requires
        grown(theirs),
        0 <= k <= theirs.len(),
        mine == theirs.take(k),
    ensures
        offered_all(mine, theirs) == theirs,
{
    lemma_replay_prefix(theirs, k, theirs.len() as int);
    assert(theirs.take(theirs.len() as int) =~= theirs);
    if theirs.len() <= k {
        assert(theirs.take(k) =~= theirs);
    }
}

/// Offering events never takes anything out of a history: what was held
/// stays where it was.
pub proof fn lemma_offered_all_extends(log: Seq<EventView>, events: Seq<EventView>)
    ensures
        offered_all(log, events).len() >= log.len(),
        offered_all(log, events).take(log.len() as int) == log,
    decreases events.len(),
{
    if events.len() == 0 {
        assert(log.take(log.len() as int) =~= log);
    } else {
        lemma_offered_all_extends(log, events.drop_last());
        let before = offered_all(log, events.drop_last());
        let after = offered(before, events.last());
        assert(after.take(log.len() as int) =~= before.take(log.len() as int));
    }
}

/// The history after the events were offered in rounds, each round
/// offering all of them in order, until a round took none or `rounds`
/// rounds were made.
pub open spec fn settled(log: Seq<EventView>, events: Seq<EventView>, rounds: nat) -> Seq<EventView>
    decreases rounds,
{
    if rounds == 0 {
        log
    } else {
        let next = offered_all(log, events);
        if next.len() == log.len() {
            log
        } else {
            settled(next, events, (rounds - 1) as nat)
        }
    }
}

/// The history that a list of stored events stands for.
pub open spec fn history(events: Seq<Event>) -> Seq<EventView> {
    Seq::new(events.len(), |i: int| events[i]@)
}

/// A node that created no event has the latest sequence number zero.
pub proof fn lemma_unseen_node(log: Seq<EventView>, node: Seq<char>)
    requires
        !node_seen(log, node),
    ensures
        last_sequence(log, node) == 0,
    decreases log.len(),
{
    if log.len() > 0 {
        let rest = log.drop_last();
        assert(log[log.len() - 1].node_id != node);
        assert forall|i: int| 0 <= i < rest.len() implies (#[trigger] rest[i]).node_id != node by {
            assert(rest[i] == log[i]);
        }
        lemma_unseen_node(rest, node);
    }
}

/// The tip index holds exactly the tips, each with its event's timestamp.
spec fn tips_match(tips: Map<Seq<char>, String>, log: Seq<EventView>) -> bool {
    &&& forall|id: Seq<char>| #[trigger] tips.contains_key(id) <==> is_tip(log, id)
    &&& forall|i: int|
        0 <= i < log.len() && tips.contains_key((#[trigger] log[i]).id) ==> tips[log[i].id]@
            == log[i].timestamp
}

/// The sequence index holds, for exactly the nodes that created an event,
/// the node's latest sequence number.
spec fn sequences_match(sequences: Map<Seq<char>, u64>, log: Seq<EventView>) -> bool {
    forall|node: Seq<char>|
        (#[trigger] sequences.contains_key(node) <==> node_seen(log, node)) && (
        sequences.contains_key(node) ==> sequences[node] == last_sequence(log, node))
}

/// The parent index holds, for exactly the stored events, the parents that
/// the event names.
spec fn parents_match(parents: Map<Seq<char>, Vec<String>>, log: Seq<EventView>) -> bool {
    &&& forall|id: Seq<char>| #[trigger] parents.contains_key(id) <==> holds(log, id)
    &&& forall|i: int|
        0 <= i < log.len() ==> parents.contains_key((#[trigger] log[i]).id) && texts(
            parents[log[i].id]@,
        ) == log[i].parents
}

/// The child index holds `c` under `p` exactly when some event `c` names
/// `p` among its parents.
spec fn children_match(children: Map<Seq<char>, Vec<String>>, log: Seq<EventView>) -> bool {
    forall|p: Seq<char>, c: Seq<char>|
        (children.contains_key(p) && texts(children[p]@).contains(c)) <==> #[trigger] listed(
            log,
            c,
            p,
        )
}

/// The child index while an event is being recorded: it holds what it
/// held for `log`, and the new event under the first `k` of its parents.
spec fn children_partly(
    children: Map<Seq<char>, Vec<String>>,
    log: Seq<EventView>,
    e: EventView,
    k: int,
) -> bool {
    forall|p: Seq<char>, c: Seq<char>|
        (children.contains_key(p) && texts(children[p]@).contains(c)) <==> (#[trigger] listed(
            log,
            c,
            p,
        ) || (c == e.id && e.parents.take(k).contains(p)))
}

/// The tip index while an event is being recorded: it holds the tips of
/// `log` but for the first `k` parents of the new event.
spec fn tips_partly(tips: Map<Seq<char>, String>, log: Seq<EventView>, e: EventView, k: int) -> bool {
    &&& forall|id: Seq<char>| #[trigger]
        tips.contains_key(id) <==> (is_tip(log, id) && !e.parents.take(k).contains(id))
    &&& forall|i: int|
        0 <= i < log.len() && tips.contains_key((#[trigger] log[i]).id) ==> tips[log[i].id]@
            == log[i].timestamp
}

/// What appending an acceptable event does to the tips: the event becomes
/// a tip, its parents cease to be tips, and nothing else changes.
pub proof fn lemma_tips_after_push(log: Seq<EventView>, e: EventView, id: Seq<char>)
    requires
        grown(log),
        admission(log, e) is Accepted,
    ensures
        is_tip(log.push(e), id) <==> (id == e.id || (is_tip(log, id) && !e.parents.contains(id))),
{
    let next = log.push(e);
    assert(next[log.len() as int] == e);
    if holds(log, id) {
        let i = choose|i: int| 0 <= i < log.len() && (#[trigger] log[i]).id == id;
        assert(next[i].id == id);
    }
    if holds(next, id) {
        let i = choose|i: int| 0 <= i < next.len() && (#[trigger] next[i]).id == id;
        if i < log.len() {
            assert(log[i].id == id);
        }
    }
    if has_child(log, id) {
        let i = choose|i: int| 0 <= i < log.len() && (#[trigger] log[i]).parents.contains(id);
        assert(next[i].parents.contains(id));
        let k = choose|k: int| 0 <= k < log[i].parents.len() && log[i].parents[k] == id;
        lemma_parents_earlier(log, i, k);
        assert(holds(log, id));
    }
    if has_child(next, id) {
        let i = choose|i: int| 0 <= i < next.len() && (#[trigger] next[i]).parents.contains(id);
        if i < log.len() {
            assert(log[i].parents.contains(id));
        }
    }
    if e.parents.contains(id) {
        let k = choose|k: int| 0 <= k < e.parents.len() && e.parents[k] == id;
        assert(holds(log, e.parents[k]));
    }
}

/// The event DAG.
pub struct EventDAG {
    /// The stored events in the order of acceptance.
    events: Vec<Event>,
    /// Event identifier to the parents that the event names.
    parents: TextMap<Vec<String>>,
    /// Event identifier to the events that name it as a parent.
    children: TextMap<Vec<String>>,
    /// The tips, each with its timestamp.
    tips: TextMap<String>,
    /// Node identifier to the node's latest sequence number.
    sequences: TextMap<u64>,
}

impl View for EventDAG {
    type V = Seq<EventView>;

    /// The history: the stored events in the order of acceptance.
    closed spec fn view(&self) -> Seq<EventView> {
        history(self.events@)
    }
}

impl EventDAG {
    /// The history has grown lawfully and every index agrees with it.
    pub closed spec fn wf(&self) -> bool {
        &&& self.parents.wf()
        &&& self.children.wf()
        &&& self.tips.wf()
        &&& self.sequences.wf()
        &&& grown(self@)
        &&& tips_match(self.tips@, self@)
        &&& sequences_match(self.sequences@, self@)
        &&& parents_match(self.parents@, self@)
        &&& children_match(self.children@, self@)
    }

    /// The history of a well-formed store has grown lawfully, so the laws of
    /// lawful histories hold of it.
    pub proof fn lemma_history_grown(&self)
        requires
            self.wf(),
        ensures
            grown(self@),
    {
    }

    /// An empty store.
    pub fn new() -> (r: Self)
        ensures
            r.wf(),
            r@ == Seq::<EventView>::empty(),
    {
        let r = EventDAG {
            events: Vec::new(),
            parents: TextMap::new(),
            children: TextMap::new(),
            tips: TextMap::new(),
            sequences: TextMap::new(),
        };
        proof {
            assert(r@ =~= Seq::<EventView>::empty());
        }
        r
    }

    /// The place of the event with identifier `event_id`, if it is held.
    fn find_event(&self, event_id: &str) -> (r: Option<usize>)
        ensures
            match r {
                Some(i) => i < self@.len() && self@[i as int].id == event_id@ && i
                    < self.events@.len() && self.events@[i as int]@ == self@[i as int],
                None => !holds(self@, event_id@),
            },
    {
        let mut i: usize = 0;
        while i < self.events.len()
            invariant
                i <= self.events@.len(),
                forall|j: int| 0 <= j < i ==> (#[trigger] self@[j]).id != event_id@,
            decreases self.events@.len() - i,
        {
            if str_eq(self.events[i].id.as_str(), event_id) {
                return Some(i);
            }
            i += 1;
        }
        None
    }

    /// The event with identifier `event_id`, if it is held. Reading the
    /// store never fails.
    pub fn get_event(&self, event_id: &str) -> (r: Result<Option<&Event>, StorageError>)
        ensures
            match r {
                Ok(Some(event)) => event@.id == event_id@ && self@.contains(event@),
                Ok(None) => !holds(self@, event_id@),
                Err(_) => false,
            },
    {
        match self.find_event(event_id) {
            Some(i) => {
                proof {
                    assert(self@[i as int] == self.events@[i as int]@);
                }
                Ok(Some(&self.events[i]))
            },
            None => Ok(None),
        }
    }

    /// Whether an event with identifier `event_id` is held. Reading the
    /// store never fails.
    pub fn has_event(&self, event_id: &str) -> (r: Result<bool, StorageError>)
        ensures
            r matches Ok(held) && held == holds(self@, event_id@),
    {
        Ok(self.find_event(event_id).is_some())
    }

    /// The number of stored events.
    pub fn len(&self) -> (r: usize)
        ensures
            r == self@.len(),
    {
        self.events.len()
    }

    /// The stored event in place `i` of the history.
    pub fn event_at(&self, i: usize) -> (r: &Event)
        requires
            i < self@.len(),
        ensures
            r@ == self@[i as int],
    {
        &self.events[i]
    }

    /// Checks the shape that the store asks of every event.
    fn validate_event(event: &Event) -> (r: Result<(), StorageError>)
        ensures
            r is Ok <==> event@.well_shaped(),
            r is Err ==> r matches Err(StorageError::ValidationError { .. }),
    {
        if event.id.as_str().as_bytes().len() != 64 {
            return Err(
                StorageError::ValidationError {
                    reason: "Event ID must be 64-character hex string".to_owned(),
                },
            );
        }
        if event.signature.as_str().as_bytes().len() != 128 {
            return Err(
                StorageError::ValidationError {
                    reason: "Signature must be 128-character hex string".to_owned(),
                },
            );
        }
        if parse_rfc3339(event.timestamp.as_str()).is_none() {
            return Err(
                StorageError::ValidationError { reason: "Invalid timestamp format".to_owned() },
            );
        }
        Ok(())
    }

    /// The latest sequence number of `node_id`; zero where the node created
    /// no stored event.
    pub fn get_node_sequence(&self, node_id: &str) -> (r: u64)
        requires
            self.wf(),
        ensures
            r == last_sequence(self@, node_id@),
    {
        match self.sequences.get(node_id) {
            Some(sequence) => *sequence,
            None => {
                proof {
                    assert(!self.sequences@.contains_key(node_id@));
                    lemma_unseen_node(self@, node_id@);
                }
                0
            },
        }
    }

    /// The first parent that `event` names and that is not held, if there
    /// is one.
    fn missing_parent<'a>(&self, event: &'a Event) -> (r: Option<&'a String>)
        ensures
            r is None <==> parents_present(self@, event@),
    {
        let mut k: usize = 0;
        while k < event.parents.len()
            invariant
                k <= event.parents@.len(),
                forall|j: int| 0 <= j < k ==> holds(self@, #[trigger] event@.parents[j]),
            decreases event.parents@.len() - k,
        {
            proof {
                assert(event@.parents[k as int] == event.parents@[k as int]@);
            }
            if self.find_event(event.parents[k].as_str()).is_none() {
                return Some(&event.parents[k]);
            }
            k += 1;
        }
        None
    }
}

/// Records the sequence number of an accepted event.
fn note_sequence(sequences: &mut TextMap<u64>, event: &Event, Ghost(log): Ghost<Seq<EventView>>)
    requires
        old(sequences).wf(),
        sequences_match(old(sequences)@, log),
    ensures
        final(sequences).wf(),
        sequences_match(final(sequences)@, log.push(event@)),
{
    sequences.insert(event.node_id.clone(), event.sequence);
    proof {
        let e = event@;
        let next = log.push(e);
        assert(next.drop_last() =~= log);
        assert forall|node: Seq<char>|
            (#[trigger] final(sequences)@.contains_key(node) <==> node_seen(next, node)) && (
            final(sequences)@.contains_key(node) ==> final(sequences)@[node] == last_sequence(
                next,
                node,
            )) by {
            assert(old(sequences)@.contains_key(node) <==> node_seen(log, node));
            if node_seen(log, node) {
                let i = choose|i: int| 0 <= i < log.len() && (#[trigger] log[i]).node_id == node;
                assert(next[i].node_id == node);
            }
            if node == e.node_id {
                assert(next[log.len() as int].node_id == node);
            }
            if node_seen(next, node) {
                let i = choose|i: int| 0 <= i < next.len() && (#[trigger] next[i]).node_id == node;
                if i < log.len() {
                    assert(log[i].node_id == node);
                }
            }
        }
    }
}

/// Records the parents of an accepted event.
fn note_parents(parents: &mut TextMap<Vec<String>>, event: &Event, Ghost(log): Ghost<Seq<EventView>>)
    requires
        old(parents).wf(),
        parents_match(old(parents)@, log),
        !holds(log, event@.id),
    ensures
        final(parents).wf(),
        parents_match(final(parents)@, log.push(event@)),
{
    let list = clone_texts(&event.parents);
    parents.insert(event.id.clone(), list);
    proof {
        let e = event@;
        let next = log.push(e);
        assert forall|id: Seq<char>| #[trigger]
            final(parents)@.contains_key(id) <==> holds(next, id) by {
            assert(old(parents)@.contains_key(id) <==> holds(log, id));
            if holds(log, id) {
                let i = choose|i: int| 0 <= i < log.len() && (#[trigger] log[i]).id == id;
                assert(next[i].id == id);
            }
            if id == e.id {
                assert(next[log.len() as int].id == id);
            }
            if holds(next, id) {
                let i = choose|i: int| 0 <= i < next.len() && (#[trigger] next[i]).id == id;
                if i < log.len() {
                    assert(log[i].id == id);
                }
            }
        }
        assert forall|i: int| 0 <= i < next.len() implies final(parents)@.contains_key(
            (#[trigger] next[i]).id,
        ) && texts(final(parents)@[next[i].id]@) == next[i].parents by {
            if i < log.len() {
                assert(log[i].id != e.id);
                assert(next[i] == log[i]);
            }
        }
    }
}

/// Records an accepted event under each parent that it names.
fn note_children(children: &mut TextMap<Vec<String>>, event: &Event, Ghost(log): Ghost<Seq<EventView>>)
    requires
        old(children).wf(),
        children_match(old(children)@, log),
    ensures
        final(children).wf(),
        children_match(final(children)@, log.push(event@)),
{
    let ghost e = event@;
    let mut k: usize = 0;
    while k < event.parents.len()
        invariant
            k <= event.parents@.len(),
            e == event@,
            children.wf(),
            children_partly(children@, log, e, k as int),
        decreases event.parents@.len() - k,
    {
        let parent = &event.parents[k];
        let ghost before = children@;
        let mut list: Vec<String> = match children.remove(parent.as_str()) {
            Some(found) => found,
            None => Vec::new(),
        };
        let ghost old_list = texts(list@);
        list.push(event.id.clone());
        proof {
            assert(texts(list@) =~= old_list.push(e.id));
        }
        let ghost new_list = texts(list@);
        children.insert(parent.clone(), list);
        proof {
            let pk = parent@;
            assert(e.parents[k as int] == pk);
            assert(e.parents.take(k as int + 1) =~= e.parents.take(k as int).push(pk));
            let after = children@;
            assert forall|p: Seq<char>, c: Seq<char>|
                (after.contains_key(p) && texts(after[p]@).contains(c)) <==> (
                #[trigger] listed(log, c, p) || (c == e.id && e.parents.take(k as int + 1).contains(
                    p,
                ))) by {
                let prior = e.parents.take(k as int);
                let now = e.parents.take(k as int + 1);
                assert(now.contains(p) <==> (prior.contains(p) || p == pk)) by {
                    if prior.contains(p) {
                        let j = choose|j: int| 0 <= j < prior.len() && prior[j] == p;
                        assert(now[j] == p);
                    }
                    if p == pk {
                        assert(now[k as int] == p);
                    }
                    if now.contains(p) {
                        let j = choose|j: int| 0 <= j < now.len() && now[j] == p;
                        if j < k {
                            assert(prior[j] == p);
                        }
                    }
                }
                assert((before.contains_key(p) && texts(before[p]@).contains(c)) <==> (listed(
                    log,
                    c,
                    p,
                ) || (c == e.id && prior.contains(p))));
                if p == pk {
                    assert(new_list.contains(c) <==> (old_list.contains(c) || c == e.id)) by {
                        if old_list.contains(c) {
                            let j = choose|j: int| 0 <= j < old_list.len() && old_list[j] == c;
                            assert(new_list[j] == c);
                        }
                        if c == e.id {
                            assert(new_list[old_list.len() as int] == c);
                        }
                        if new_list.contains(c) {
                            let j = choose|j: int| 0 <= j < new_list.len() && new_list[j] == c;
                            if j < old_list.len() {
                                assert(old_list[j] == c);
                            }
                        }
                    }
                    if !before.contains_key(p) {
                        assert(old_list =~= Seq::<Seq<char>>::empty());
                    }
                }
            }
            assert(children_partly(after, log, e, k as int + 1));
        }
        k += 1;
    }
    proof {
        let next = log.push(e);
        assert(e.parents.take(k as int) =~= e.parents);
        assert forall|p: Seq<char>, c: Seq<char>|
            (listed(log, c, p) || (c == e.id && e.parents.contains(p))) <==> #[trigger] listed(
                next,
                c,
                p,
            ) by {
            if listed(log, c, p) {
                let i = choose|i: int|
                    0 <= i < log.len() && (#[trigger] log[i]).id == c && log[i].parents.contains(p);
                assert(next[i].id == c && next[i].parents.contains(p));
            }
            if c == e.id && e.parents.contains(p) {
                assert(next[log.len() as int].id == c);
            }
            if listed(next, c, p) {
                let i = choose|i: int|
                    0 <= i < next.len() && (#[trigger] next[i]).id == c && next[i].parents.contains(
                        p,
                    );
                if i < log.len() {
                    assert(log[i].id == c && log[i].parents.contains(p));
                }
            }
        }
    }
}

/// Makes an accepted event a tip in place of its parents.
fn note_tips(tips: &mut TextMap<String>, event: &Event, Ghost(log): Ghost<Seq<EventView>>)
    requires
        old(tips).wf(),
        tips_match(old(tips)@, log),
        grown(log),
        admission(log, event@) is Accepted,
    ensures
        final(tips).wf(),
        tips_match(final(tips)@, log.push(event@)),
{
    let ghost e = event@;
    let mut k: usize = 0;
    proof {
        assert(e.parents.take(0) =~= Seq::<Seq<char>>::empty());
    }
    while k < event.parents.len()
        invariant
            k <= event.parents@.len(),
            e == event@,
            tips.wf(),
            tips_partly(tips@, log, e, k as int),
        decreases event.parents@.len() - k,
    {
        let ghost before = tips@;
        let _ = tips.remove(event.parents[k].as_str());
        proof {
            let pk = event.parents@[k as int]@;
            let after = tips@;
            let prior = e.parents.take(k as int);
            let now = e.parents.take(k as int + 1);
            assert(e.parents[k as int] == pk);
            assert(now =~= prior.push(pk));
            assert forall|id: Seq<char>| #[trigger]
                after.contains_key(id) <==> (is_tip(log, id) && !now.contains(id)) by {
                assert(before.contains_key(id) <==> (is_tip(log, id) && !prior.contains(id)));
                if prior.contains(id) {
                    let j = choose|j: int| 0 <= j < prior.len() && prior[j] == id;
                    assert(now[j] == id);
                }
                if id == pk {
                    assert(now[k as int] == id);
                }
                if now.contains(id) {
                    let j = choose|j: int| 0 <= j < now.len() && now[j] == id;
                    if j < k {
                        assert(prior[j] == id);
                    }
                }
            }
            assert(tips_partly(after, log, e, k as int + 1));
        }
        k += 1;
    }
    let ghost mid = tips@;
    tips.insert(event.id.clone(), event.timestamp.clone());
    proof {
        let next = log.push(e);
        let after = tips@;
        assert(e.parents.take(k as int) =~= e.parents);
        assert forall|id: Seq<char>| #[trigger] after.contains_key(id) <==> is_tip(next, id) by {
            lemma_tips_after_push(log, e, id);
            assert(mid.contains_key(id) <==> (is_tip(log, id) && !e.parents.contains(id)));
        }
        assert forall|i: int|
            0 <= i < next.len() && after.contains_key((#[trigger] next[i]).id) implies after[next[i].id]@
            == next[i].timestamp by {
            if i < log.len() {
                assert(next[i] == log[i]);
                assert(log[i].id != e.id);
                assert(mid.contains_key(log[i].id));
            }
        }
    }
}

impl EventDAG {
    /// Offers an event to the store.
    ///
    /// The event is checked in this order: it must be well shaped; if an
    /// event with its identifier is held already, nothing happens and the
    /// call succeeds; every parent it names must be held; its sequence
    /// number must exceed its creator's latest. An event that passes is
    /// appended to the history, recorded in every index, becomes a tip, and
    /// its parents cease to be tips. A refused event leaves the store as it
    /// was.
    pub fn add_event(&mut self, event: Event) -> (r: Result<(), StorageError>)
        requires
            old(self).wf(),
        ensures
            final(self).wf(),
            final(self)@ == offered(old(self)@, event@),
            match admission(old(self)@, event@) {
                Admission::Accepted | Admission::Duplicate => r is Ok,
                _ => r matches Err(StorageError::ValidationError { .. }),
            },
    {
        match Self::validate_event(&event) {
            Err(error) => {
                return Err(error);
            },
            Ok(()) => {},
        }
        if self.find_event(event.id.as_str()).is_some() {
            return Ok(());
        }
        match self.missing_parent(&event) {
            Some(parent_id) => {
                let mut reason = "Parent event ".to_owned();
                reason.append(parent_id.as_str());
                reason.append(" not found");
                return Err(StorageError::ValidationError { reason });
            },
            None => {},
        }
        let current = self.get_node_sequence(event.node_id.as_str());
        if event.sequence <= current {
            let mut reason = "Sequence ".to_owned();
            push_decimal(&mut reason, event.sequence as u128);
            reason.append(" is not greater than current ");
            push_decimal(&mut reason, current as u128);
            reason.append(" for node ");
            reason.append(event.node_id.as_str());
            return Err(StorageError::ValidationError { reason });
        }
        let ghost log = self@;
        note_sequence(&mut self.sequences, &event, Ghost(log));
        note_parents(&mut self.parents, &event, Ghost(log));
        note_children(&mut self.children, &event, Ghost(log));
        note_tips(&mut self.tips, &event, Ghost(log));
        let ghost e = event@;
        self.events.push(event);
        proof {
            assert(self@ =~= log.push(e));
            lemma_grown_push(log, e);
        }
        Ok(())
    }
}

/// The events that a list of references points to.
pub open spec fn views(list: Seq<&Event>) -> Seq<EventView> {
    Seq::new(list.len(), |i: int| list[i]@)
}

/// Whether timestamp `a` may stand before timestamp `b`: in byte-wise
/// order, the later one first if `latest_first`, else the earlier one.
pub open spec fn in_order(a: Seq<char>, b: Seq<char>, latest_first: bool) -> bool {
    if latest_first {
        text_le(b, a)
    } else {
        text_le(a, b)
    }
}

/// The list is sorted by timestamp.
pub open spec fn sorted_by_time(list: Seq<EventView>, latest_first: bool) -> bool {
    forall|a: int, b: int|
        0 <= a < b < list.len() ==> in_order(
            (#[trigger] list[a]).timestamp,
            (#[trigger] list[b]).timestamp,
            latest_first,
        )
}

/// The list holds every tip of the history once, and nothing else.
pub open spec fn lists_tips(log: Seq<EventView>, list: Seq<EventView>) -> bool {
    &&& forall|j: int| 0 <= j < list.len() ==> log.contains(#[trigger] list[j]) && is_tip(log, list[j].id)
    &&& forall|id: Seq<char>| #[trigger]
        is_tip(log, id) ==> exists|j: int| 0 <= j < list.len() && (#[trigger] list[j]).id == id
    &&& forall|a: int, b: int|
        0 <= a < b < list.len() ==> (#[trigger] list[a]).id != (#[trigger] list[b]).id
}

/// The order in which events are handed out: by timestamp in byte-wise
/// order, events of one timestamp by identifier.
pub open spec fn event_le(a: EventView, b: EventView) -> bool {
    !text_le(b.timestamp, a.timestamp) || (a.timestamp == b.timestamp && text_le(a.id, b.id))
}

/// The list is sorted by timestamp and then identifier.
pub open spec fn sorted_events(list: Seq<EventView>) -> bool {
    forall|a: int, b: int| 0 <= a < b < list.len() ==> event_le(#[trigger] list[a], #[trigger] list[b])
}

/// The event that a cursor names: the held event with that identifier.
/// No cursor, or one that names no held event, stands for the beginning.
pub open spec fn cursor_of(log: Seq<EventView>, since: Option<Seq<char>>) -> Option<EventView> {
    match since {
        Some(id) => if holds(log, id) {
            Some(log[place(log, id)])
        } else {
            None
        },
        None => None,
    }
}

/// Whether an event comes strictly after the cursor in the order of
/// `event_le`.
pub open spec fn after_cursor(cursor: Option<EventView>, e: EventView) -> bool {
    match cursor {
        Some(c) => !event_le(e, c),
        None => true,
    }
}

/// The list holds every event of the history that comes after the cursor,
/// each once, and nothing else.
pub open spec fn lists_since(log: Seq<EventView>, cursor: Option<EventView>, list: Seq<EventView>) -> bool {
    &&& forall|j: int|
        0 <= j < list.len() ==> log.contains(#[trigger] list[j]) && after_cursor(cursor, list[j])
    &&& forall|i: int|
        0 <= i < log.len() && after_cursor(cursor, #[trigger] log[i]) ==> list.contains(log[i])
    &&& forall|a: int, b: int|
        0 <= a < b < list.len() ==> (#[trigger] list[a]).id != (#[trigger] list[b]).id
}

/// Of two events, one may stand before the other.
pub proof fn lemma_event_order_total(a: EventView, b: EventView)
    ensures
        event_le(a, b) || event_le(b, a),
{
    let ta = vstd::utf8::encode_utf8(a.timestamp);
    let tb = vstd::utf8::encode_utf8(b.timestamp);
    if text_le(b.timestamp, a.timestamp) && text_le(a.timestamp, b.timestamp) {
        crate::text::lemma_lex_antisymmetric(ta, tb);
        crate::text::lemma_bytes_decide_text(a.timestamp, b.timestamp);
        crate::text::lemma_lex_total(
            vstd::utf8::encode_utf8(a.id),
            vstd::utf8::encode_utf8(b.id),
        );
    }
}

/// The order of events is transitive.
pub proof fn lemma_event_order_transitive(a: EventView, b: EventView, c: EventView)
    requires
        event_le(a, b),
        event_le(b, c),
    ensures
        event_le(a, c),
{
    let ta = vstd::utf8::encode_utf8(a.timestamp);
    let tb = vstd::utf8::encode_utf8(b.timestamp);
    let tc = vstd::utf8::encode_utf8(c.timestamp);
    if !text_le(b.timestamp, a.timestamp) && !text_le(c.timestamp, b.timestamp) {
        if text_le(c.timestamp, a.timestamp) {
            crate::text::lemma_lex_total(ta, tb);
            crate::text::lemma_lex_transitive(tc, ta, tb);
        }
    } else if a.timestamp == b.timestamp && b.timestamp == c.timestamp {
        crate::text::lemma_lex_transitive(
            vstd::utf8::encode_utf8(a.id),
            vstd::utf8::encode_utf8(b.id),
            vstd::utf8::encode_utf8(c.id),
        );
    }
}

/// The number of receipt events in the history.
pub open spec fn receipts_in(log: Seq<EventView>) -> nat
    decreases log.len(),
{
    if log.len() == 0 {
        0
    } else {
        receipts_in(log.drop_last()) + if log.last().event_type == EventType::Receipt {
            1nat
        } else {
            0nat
        }
    }
}

/// The identifiers of the tips.
pub open spec fn tip_ids(log: Seq<EventView>) -> Set<Seq<char>> {
    Set::new(|id: Seq<char>| is_tip(log, id))
}

/// The nodes that created some event.
pub open spec fn nodes_in(log: Seq<EventView>) -> Set<Seq<char>> {
    Set::new(|node: Seq<char>| node_seen(log, node))
}

/// `t` is the timestamp of some event, and no event's timestamp comes
/// before it in byte-wise order.
pub open spec fn is_earliest(log: Seq<EventView>, t: Seq<char>) -> bool {
    &&& exists|i: int| 0 <= i < log.len() && (#[trigger] log[i]).timestamp == t
    &&& forall|i: int| 0 <= i < log.len() ==> text_le(t, (#[trigger] log[i]).timestamp)
}

/// `t` is the timestamp of some event, and no event's timestamp comes
/// after it in byte-wise order.
pub open spec fn is_latest(log: Seq<EventView>, t: Seq<char>) -> bool {
    &&& exists|i: int| 0 <= i < log.len() && (#[trigger] log[i]).timestamp == t
    &&& forall|i: int| 0 <= i < log.len() ==> text_le((#[trigger] log[i]).timestamp, t)
}

/// The statistics that a history calls for.
pub open spec fn stats_of(log: Seq<EventView>, stats: DAGStats) -> bool {
    &&& stats.total_events == log.len()
    &&& stats.tip_count == tip_ids(log).len()
    &&& stats.receipt_count == receipts_in(log)
    &&& stats.node_count == nodes_in(log).len()
    &&& match stats.earliest_timestamp {
        None => log.len() == 0,
        Some(t) => is_earliest(log, t@),
    }
    &&& match stats.latest_timestamp {
        None => log.len() == 0,
        Some(t) => is_latest(log, t@),
    }
}

/// Whether timestamp `a` may stand before timestamp `b`.
fn may_precede(a: &str, b: &str, latest_first: bool) -> (r: bool)
    ensures
        r == in_order(a@, b@, latest_first),
{
    if latest_first {
        str_le(b, a)
    } else {
        str_le(a, b)
    }
}

/// Puts `event` into a list sorted by timestamp, behind every event that
/// may stand before it.
fn place_by_time<'a>(out: &mut Vec<&'a Event>, event: &'a Event, latest_first: bool) -> (p: Ghost<int>)
    requires
        sorted_by_time(views(old(out)@), latest_first),
    ensures
        0 <= p@ <= old(out)@.len(),
        final(out)@ == old(out)@.insert(p@, event),
        sorted_by_time(views(final(out)@), latest_first),
{
    let ghost before = out@;
    let mut at: usize = 0;
    while at < out.len() && may_precede(
        out[at].timestamp.as_str(),
        event.timestamp.as_str(),
        latest_first,
    )
        invariant
            at <= out@.len(),
            out@ == before,
            forall|j: int|
                0 <= j < at ==> in_order(
                    (#[trigger] views(out@)[j]).timestamp,
                    event@.timestamp,
                    latest_first,
                ),
        decreases out@.len() - at,
    {
        at += 1;
    }
    out.insert(at, event);
    proof {
        let old_list = views(before);
        let new_list = views(out@);
        let t = event@.timestamp;
        assert forall|a: int, b: int| 0 <= a < b < new_list.len() implies in_order(
            (#[trigger] new_list[a]).timestamp,
            (#[trigger] new_list[b]).timestamp,
            latest_first,
        ) by {
            let a0 = if a < at { a } else { a - 1 };
            let b0 = if b < at { b } else { b - 1 };
            if a != at {
                assert(new_list[a] == old_list[a0]);
            }
            if b != at {
                assert(new_list[b] == old_list[b0]);
            }
            if a == at {
                // the new event stands before an old one that could not stand before it
                let first = old_list[at as int].timestamp;
                let other = old_list[b0].timestamp;
                crate::text::lemma_lex_total(
                    vstd::utf8::encode_utf8(first),
                    vstd::utf8::encode_utf8(t),
                );
                if b0 > at {
                    assert(in_order(first, other, latest_first));
                    if latest_first {
                        crate::text::lemma_lex_transitive(
                            vstd::utf8::encode_utf8(other),
                            vstd::utf8::encode_utf8(first),
                            vstd::utf8::encode_utf8(t),
                        );
                    } else {
                        crate::text::lemma_lex_transitive(
                            vstd::utf8::encode_utf8(t),
                            vstd::utf8::encode_utf8(first),
                            vstd::utf8::encode_utf8(other),
                        );
                    }
                }
            } else if b == at {
                assert(in_order(old_list[a0].timestamp, t, latest_first));
            } else {
                assert(in_order(old_list[a0].timestamp, old_list[b0].timestamp, latest_first));
            }
        }
    }
    Ghost(at as int)
}

/// Whether `a` may stand before `b` in the order of events.
fn event_precedes(a: &Event, b: &Event) -> (r: bool)
    ensures
        r == event_le(a@, b@),
{
    if !str_le(b.timestamp.as_str(), a.timestamp.as_str()) {
        true
    } else if str_eq(a.timestamp.as_str(), b.timestamp.as_str()) {
        str_le(a.id.as_str(), b.id.as_str())
    } else {
        false
    }
}

/// Puts `event` into a list sorted by timestamp and identifier, behind
/// every event that may stand before it.
fn place_event<'a>(out: &mut Vec<&'a Event>, event: &'a Event) -> (p: Ghost<int>)
    requires
        sorted_events(views(old(out)@)),
    ensures
        0 <= p@ <= old(out)@.len(),
        final(out)@ == old(out)@.insert(p@, event),
        views(final(out)@) == views(old(out)@).insert(p@, event@),
        sorted_events(views(final(out)@)),
{
    let ghost before = out@;
    let mut at: usize = 0;
    while at < out.len() && event_precedes(out[at], event)
        invariant
            at <= out@.len(),
            out@ == before,
            forall|j: int| 0 <= j < at ==> event_le(#[trigger] views(out@)[j], event@),
        decreases out@.len() - at,
    {
        at += 1;
    }
    out.insert(at, event);
    proof {
        let old_list = views(before);
        let new_list = views(out@);
        assert(new_list =~= old_list.insert(at as int, event@));
        assert forall|a: int, b: int| 0 <= a < b < new_list.len() implies event_le(
            #[trigger] new_list[a],
            #[trigger] new_list[b],
        ) by {
            let a0 = if a < at { a } else { a - 1 };
            let b0 = if b < at { b } else { b - 1 };
            if a != at {
                assert(new_list[a] == old_list[a0]);
            }
            if b != at {
                assert(new_list[b] == old_list[b0]);
            }
            if a == at {
                let first = old_list[at as int];
                lemma_event_order_total(first, event@);
                if b0 > at {
                    assert(event_le(first, old_list[b0]));
                    lemma_event_order_transitive(event@, first, old_list[b0]);
                }
            } else if b == at {
                assert(event_le(old_list[a0], event@));
            } else {
                assert(event_le(old_list[a0], old_list[b0]));
            }
        }
    }
    Ghost(at as int)
}

/// The list holds, each once, the events of the first `i` places of the
/// history that come after the cursor, and nothing else.
spec fn listed_upto(log: Seq<EventView>, cursor: Option<EventView>, i: int, list: Seq<EventView>) -> bool {
    &&& forall|j: int|
        0 <= j < list.len() ==> after_cursor(cursor, #[trigger] list[j]) && exists|t: int|
            0 <= t < i && log[t] == list[j]
    &&& forall|t: int|
        0 <= t < i && after_cursor(cursor, #[trigger] log[t]) ==> list.contains(log[t])
    &&& forall|a: int, b: int|
        0 <= a < b < list.len() ==> (#[trigger] list[a]).id != (#[trigger] list[b]).id
}

/// Taking the next event of the history into the list, or passing it over
/// where it does not come after the cursor, keeps the list in step.
proof fn lemma_listed_step(
    log: Seq<EventView>,
    cursor: Option<EventView>,
    i: int,
    list: Seq<EventView>,
    p: int,
)
    requires
        grown(log),
        listed_upto(log, cursor, i, list),
        0 <= i < log.len(),
        0 <= p <= list.len(),
    ensures
        after_cursor(cursor, log[i]) ==> listed_upto(log, cursor, i + 1, list.insert(p, log[i])),
        !after_cursor(cursor, log[i]) ==> listed_upto(log, cursor, i + 1, list),
{
    lemma_ids_distinct(log);
    if after_cursor(cursor, log[i]) {
        let next = list.insert(p, log[i]);
        assert forall|j: int| 0 <= j < next.len() implies after_cursor(cursor, #[trigger] next[j])
            && exists|t: int| 0 <= t < i + 1 && log[t] == next[j] by {
            if j == p {
                assert(log[i] == next[j]);
            } else {
                let j0 = if j < p { j } else { j - 1 };
                assert(next[j] == list[j0]);
                let t = choose|t: int| 0 <= t < i && log[t] == list[j0];
                assert(log[t] == next[j]);
            }
        }
        assert forall|t: int| 0 <= t < i + 1 && after_cursor(cursor, #[trigger] log[t]) implies next.contains(
            log[t],
        ) by {
            if t < i {
                let j0 = choose|j: int| 0 <= j < list.len() && list[j] == log[t];
                let j = if j0 < p { j0 } else { j0 + 1 };
                assert(next[j] == list[j0]);
            } else {
                assert(next[p] == log[t]);
            }
        }
        assert forall|a: int, b: int| 0 <= a < b < next.len() implies (#[trigger] next[a]).id != (
        #[trigger] next[b]).id by {
            let a0 = if a < p { a } else { a - 1 };
            let b0 = if b < p { b } else { b - 1 };
            if a != p && b != p {
                assert(next[a] == list[a0]);
                assert(next[b] == list[b0]);
            } else {
                let other = if a == p { b0 } else { a0 };
                assert(next[if a == p { b } else { a }] == list[other]);
                let t = choose|t: int| 0 <= t < i && log[t] == list[other];
                assert(log[t].id != log[i].id);
            }
        }
    } else {
        assert forall|j: int| 0 <= j < list.len() implies after_cursor(cursor, #[trigger] list[j])
            && exists|t: int| 0 <= t < i + 1 && log[t] == list[j] by {
            let t = choose|t: int| 0 <= t < i && log[t] == list[j];
            assert(log[t] == list[j]);
        }
    }
}

/// The list holds, each once, the events whose identifiers are the first
/// `i` keys, and nothing else.
spec fn keys_listed(log: Seq<EventView>, keys: Seq<Seq<char>>, i: int, list: Seq<EventView>) -> bool {
    &&& forall|j: int|
        0 <= j < list.len() ==> log.contains(#[trigger] list[j]) && keys.take(i).contains(list[j].id)
    &&& forall|t: int|
        0 <= t < i ==> exists|j: int| 0 <= j < list.len() && (#[trigger] list[j]).id == #[trigger] keys[t]
    &&& forall|a: int, b: int|
        0 <= a < b < list.len() ==> (#[trigger] list[a]).id != (#[trigger] list[b]).id
}

/// Listing the event of the next key keeps the list in step with the keys.
proof fn lemma_keys_listed_step(
    log: Seq<EventView>,
    keys: Seq<Seq<char>>,
    i: int,
    list: Seq<EventView>,
    p: int,
    e: EventView,
)
    requires
        keys_listed(log, keys, i, list),
        keys.no_duplicates(),
        0 <= i < keys.len(),
        0 <= p <= list.len(),
        e.id == keys[i],
        log.contains(e),
    ensures
        keys_listed(log, keys, i + 1, list.insert(p, e)),
{
    let next = list.insert(p, e);
    let prior = keys.take(i);
    let now = keys.take(i + 1);
    assert(now =~= prior.push(keys[i]));
    assert forall|j: int| 0 <= j < next.len() implies log.contains(#[trigger] next[j])
        && now.contains(next[j].id) by {
        if j == p {
            assert(now[i] == e.id);
        } else {
            let j0 = if j < p { j } else { j - 1 };
            assert(next[j] == list[j0]);
            let t = choose|t: int| 0 <= t < prior.len() && prior[t] == list[j0].id;
            assert(now[t] == list[j0].id);
        }
    }
    assert forall|t: int| 0 <= t < i + 1 implies exists|j: int|
        0 <= j < next.len() && (#[trigger] next[j]).id == #[trigger] keys[t] by {
        if t < i {
            let j0 = choose|j: int| 0 <= j < list.len() && (#[trigger] list[j]).id == keys[t];
            let j = if j0 < p { j0 } else { j0 + 1 };
            assert(next[j] == list[j0]);
        } else {
            assert(next[p].id == keys[t]);
        }
    }
    assert forall|a: int, b: int| 0 <= a < b < next.len() implies (#[trigger] next[a]).id != (
    #[trigger] next[b]).id by {
        let a0 = if a < p { a } else { a - 1 };
        let b0 = if b < p { b } else { b - 1 };
        if a != p && b != p {
            assert(next[a] == list[a0]);
            assert(next[b] == list[b0]);
        } else {
            let other = if a == p { b0 } else { a0 };
            assert(next[if a == p { b } else { a }] == list[other]);
            let t = choose|t: int| 0 <= t < prior.len() && prior[t] == list[other].id;
            assert(keys[t] == list[other].id);
            assert(keys[t] != keys[i]);
        }
    }
}

impl EventDAG {
    /// The current tips, the latest timestamp first.
    ///
    /// The list holds every stored event that no stored event names as a
    /// parent, each once, and nothing else. Reading the store never fails.
    pub fn get_tips(&self) -> (r: Result<Vec<&Event>, StorageError>)
        requires
            self.wf(),
        ensures
            r matches Ok(list) && lists_tips(self@, views(list@)) && sorted_by_time(
                views(list@),
                true,
            ),
    {
        let mut out: Vec<&Event> = Vec::new();
        let mut i: usize = 0;
        let n = self.tips.len();
        proof {
            self.tips.lemma_keys();
        }
        while i < n
            invariant
                self.wf(),
                n == self.tips.keys().len(),
                i <= n,
                self.tips.keys().no_duplicates(),
                forall|k: Seq<char>| self.tips@.contains_key(k) <==> self.tips.keys().contains(k),
                sorted_by_time(views(out@), true),
                keys_listed(self@, self.tips.keys(), i as int, views(out@)),
            decreases n - i,
        {
            let id = self.tips.key_at(i);
            let ghost key = self.tips.keys()[i as int];
            proof {
                assert(self.tips.keys().contains(key));
                assert(self.tips@.contains_key(key));
                assert(is_tip(self@, key));
            }
            match self.find_event(id.as_str()) {
                Some(at) => {
                    let event = &self.events[at];
                    let ghost before = out@;
                    let Ghost(p) = place_by_time(&mut out, event, true);
                    proof {
                        assert(event@ == self@[at as int]);
                        assert(views(out@) =~= views(before).insert(p, event@));
                        lemma_keys_listed_step(
                            self@,
                            self.tips.keys(),
                            i as int,
                            views(before),
                            p,
                            event@,
                        );
                    }
                },
                None => {
                    proof {
                        assert(holds(self@, key));
                        assert(false);
                    }
                },
            }
            i += 1;
        }
        proof {
            let list = views(out@);
            let keys = self.tips.keys();
            assert(keys.take(i as int) =~= keys);
            assert forall|j: int| 0 <= j < list.len() implies self@.contains(#[trigger] list[j])
                && is_tip(self@, list[j].id) by {
                assert(keys.contains(list[j].id));
                assert(self.tips@.contains_key(list[j].id));
            }
            assert forall|id: Seq<char>| #[trigger] is_tip(self@, id) implies exists|j: int|
                0 <= j < list.len() && (#[trigger] list[j]).id == id by {
                assert(self.tips@.contains_key(id));
                assert(keys.contains(id));
                let t = choose|t: int| 0 <= t < keys.len() && keys[t] == id;
                let j = choose|j: int| 0 <= j < list.len() && (#[trigger] list[j]).id == keys[t];
                assert(list[j].id == id);
            }
        }
        Ok(out)
    }

    /// The stored events that come after the cursor, in the order of
    /// timestamp and then identifier.
    ///
    /// The cursor is the held event that `since_event_id` names; without
    /// such an event every stored event is listed. Reading the store never
    /// fails.
    pub fn get_events_since(&self, since_event_id: Option<&str>) -> (r: Result<
        Vec<&Event>,
        StorageError,
    >)
        requires
            self.wf(),
        ensures
            r matches Ok(list) && lists_since(
                self@,
                cursor_of(
                    self@,
                    match since_event_id {
                        Some(id) => Some(id@),
                        None => None,
                    },
                ),
                views(list@),
            ) && sorted_events(views(list@)),
    {
        let cursor: Option<&Event> = match since_event_id {
            Some(id) => match self.find_event(id) {
                Some(at) => {
                    proof {
                        lemma_ids_distinct(self@);
                        let found = place(self@, id@);
                        assert(self@[found].id == id@);
                        if found < at {
                            assert(self@[found].id != self@[at as int].id);
                        } else if at < found {
                            assert(self@[at as int].id != self@[found].id);
                        }
                    }
                    Some(&self.events[at])
                },
                None => None,
            },
            None => None,
        };
        let ghost mark: Option<EventView> = match cursor {
            Some(c) => Some(c@),
            None => None,
        };
        let mut out: Vec<&Event> = Vec::new();
        let mut i: usize = 0;
        while i < self.events.len()
            invariant
                self.wf(),
                i <= self.events@.len(),
                mark == match cursor {
                    Some(c) => Some(c@),
                    None => None::<EventView>,
                },
                sorted_events(views(out@)),
                listed_upto(self@, mark, i as int, views(out@)),
            decreases self.events@.len() - i,
        {
            let event = &self.events[i];
            proof {
                assert(event@ == self@[i as int]);
            }
            let wanted = match cursor {
                Some(c) => !event_precedes(event, c),
                None => true,
            };
            let ghost before = views(out@);
            if wanted {
                let Ghost(p) = place_event(&mut out, event);
                proof {
                    lemma_listed_step(self@, mark, i as int, before, p);
                }
            } else {
                proof {
                    lemma_listed_step(self@, mark, i as int, before, 0);
                }
            }
            i += 1;
        }
        proof {
            let list = views(out@);
            assert forall|j: int| 0 <= j < list.len() implies self@.contains(#[trigger] list[j]) by {
                let t = choose|t: int| 0 <= t < i && self@[t] == list[j];
                assert(self@[t] == list[j]);
            }
        }
        Ok(out)
    }
}

impl EventDAG {
    /// The number of receipt events.
    fn count_receipts(&self) -> (r: usize)
        ensures
            r == receipts_in(self@),
    {
        let mut count: usize = 0;
        let mut i: usize = 0;
        proof {
            assert(self@.take(0) =~= Seq::<EventView>::empty());
        }
        while i < self.events.len()
            invariant
                i <= self.events@.len(),
                count == receipts_in(self@.take(i as int)),
                count <= i,
            decreases self.events@.len() - i,
        {
            proof {
                assert(self.events@[i as int]@ == self@[i as int]);
                assert(self@.take(i as int + 1).drop_last() =~= self@.take(i as int));
                assert(self@.take(i as int + 1).last() == self@[i as int]);
            }
            if self.events[i].is_receipt() {
                count += 1;
            }
            i += 1;
        }
        proof {
            assert(self@.take(i as int) =~= self@);
        }
        count
    }

    /// The place of an event whose timestamp no other precedes (or, with
    /// `latest`, follows) in byte-wise order; `None` in an empty store.
    fn extreme_place(&self, latest: bool) -> (r: Option<usize>)
        ensures
            match r {
                None => self@.len() == 0,
                Some(at) => at < self@.len() && at < self.events@.len() && forall|j: int|
                    0 <= j < self@.len() ==> in_order(
                        self@[at as int].timestamp,
                        (#[trigger] self@[j]).timestamp,
                        latest,
                    ),
            },
    {
        if self.events.len() == 0 {
            return None;
        }
        let mut best: usize = 0;
        let mut i: usize = 1;
        proof {
            crate::text::lemma_lex_total(
                vstd::utf8::encode_utf8(self@[0].timestamp),
                vstd::utf8::encode_utf8(self@[0].timestamp),
            );
        }
        while i < self.events.len()
            invariant
                1 <= i <= self.events@.len(),
                best < i,
                forall|j: int|
                    0 <= j < i ==> in_order(
                        self@[best as int].timestamp,
                        (#[trigger] self@[j]).timestamp,
                        latest,
                    ),
            decreases self.events@.len() - i,
        {
            proof {
                assert(self.events@[i as int]@ == self@[i as int]);
                assert(self.events@[best as int]@ == self@[best as int]);
            }
            if !may_precede(
                self.events[best].timestamp.as_str(),
                self.events[i].timestamp.as_str(),
                latest,
            ) {
                proof {
                    let new_t = vstd::utf8::encode_utf8(self@[i as int].timestamp);
                    let old_t = vstd::utf8::encode_utf8(self@[best as int].timestamp);
                    crate::text::lemma_lex_total(old_t, new_t);
                    crate::text::lemma_lex_total(new_t, new_t);
                    assert forall|j: int| 0 <= j < i + 1 implies in_order(
                        self@[i as int].timestamp,
                        (#[trigger] self@[j]).timestamp,
                        latest,
                    ) by {
                        if j < i {
                            let other = vstd::utf8::encode_utf8(self@[j].timestamp);
                            assert(in_order(self@[best as int].timestamp, self@[j].timestamp, latest));
                            if latest {
                                crate::text::lemma_lex_transitive(other, old_t, new_t);
                            } else {
                                crate::text::lemma_lex_transitive(new_t, old_t, other);
                            }
                        }
                    }
                }
                best = i;
            }
            i += 1;
        }
        Some(best)
    }

    /// The earliest (or, with `latest`, the latest) timestamp in byte-wise
    /// order; `None` in an empty store.
    fn extreme_timestamp(&self, latest: bool) -> (r: Option<String>)
        ensures
            match r {
                None => self@.len() == 0,
                Some(t) => if latest {
                    is_latest(self@, t@)
                } else {
                    is_earliest(self@, t@)
                },
            },
    {
        match self.extreme_place(latest) {
            None => None,
            Some(at) => {
                let t = self.events[at].timestamp.clone();
                proof {
                    assert(self@[at as int].timestamp == t@);
                    if latest {
                        assert forall|i: int| 0 <= i < self@.len() implies text_le(
                            (#[trigger] self@[i]).timestamp,
                            t@,
                        ) by {
                            assert(in_order(self@[at as int].timestamp, self@[i].timestamp, latest));
                        }
                    } else {
                        assert forall|i: int| 0 <= i < self@.len() implies text_le(
                            t@,
                            (#[trigger] self@[i]).timestamp,
                        ) by {
                            assert(in_order(self@[at as int].timestamp, self@[i].timestamp, latest));
                        }
                    }
                }
                Some(t)
            },
        }
    }

    /// The number of distinct nodes that created a stored event.
    pub fn node_count(&self) -> (r: usize)
        requires
            self.wf(),
        ensures
            r == nodes_in(self@).len(),
    {
        proof {
            self.sequences.lemma_keys();
            self.sequences.keys().unique_seq_to_set();
            assert(self.sequences.keys().to_set() =~= nodes_in(self@));
        }
        self.sequences.len()
    }

    /// Counts over the store: events, tips, receipt events, distinct
    /// creators, and the earliest and latest timestamp in byte-wise order.
    /// Reading the store never fails.
    pub fn get_stats(&self) -> (r: Result<DAGStats, StorageError>)
        requires
            self.wf(),
        ensures
            r matches Ok(stats) && stats_of(self@, stats),
    {
        let total_events = self.events.len();
        let tip_count = self.tip_count();
        let node_count = self.node_count();
        let receipt_count = self.count_receipts();
        let earliest_timestamp = self.extreme_timestamp(false);
        let latest_timestamp = self.extreme_timestamp(true);
        Ok(
            DAGStats {
                total_events,
                tip_count,
                receipt_count,
                node_count,
                earliest_timestamp,
                latest_timestamp,
            },
        )
    }

    /// The parents that the event with identifier `event_id` names, if the
    /// event is held.
    pub fn parents_of(&self, event_id: &str) -> (r: Option<&Vec<String>>)
        requires
            self.wf(),
        ensures
            match r {
                Some(list) => exists|i: int|
                    0 <= i < self@.len() && (#[trigger] self@[i]).id == event_id@ && texts(list@)
                        == self@[i].parents,
                None => !holds(self@, event_id@),
            },
    {
        let r = self.parents.get(event_id);
        proof {
            if holds(self@, event_id@) {
                let i = choose|i: int| 0 <= i < self@.len() && (#[trigger] self@[i]).id == event_id@;
                assert(self.parents@.contains_key(self@[i].id));
            }
        }
        r
    }

    /// The events that name `event_id` among their parents; `None` where no
    /// event does.
    pub fn children_of(&self, event_id: &str) -> (r: Option<&Vec<String>>)
        requires
            self.wf(),
        ensures
            match r {
                Some(list) => forall|c: Seq<char>|
                    texts(list@).contains(c) <==> #[trigger] listed(self@, c, event_id@),
                None => forall|c: Seq<char>| !#[trigger] listed(self@, c, event_id@),
            },
    {
        self.children.get(event_id)
    }

    /// The number of tips.
    pub fn tip_count(&self) -> (r: usize)
        requires
            self.wf(),
        ensures
            r == tip_ids(self@).len(),
    {
        proof {
            self.tips.lemma_keys();
            self.tips.keys().unique_seq_to_set();
            assert(self.tips.keys().to_set() =~= tip_ids(self@));
        }
        self.tips.len()
    }
}

impl EventDAG {
    /// Offers each of `events` in turn.
    fn offer_all(&mut self, events: &Vec<Event>)
        requires
            old(self).wf(),
        ensures
            final(self).wf(),
            final(self)@ == offered_all(old(self)@, event_views(events@)),
    {
        let ghost start = self@;
        let ghost sent = event_views(events@);
        let mut i: usize = 0;
        proof {
            assert(sent.take(0) =~= Seq::<EventView>::empty());
        }
        while i < events.len()
            invariant
                i <= events@.len(),
                sent == event_views(events@),
                self.wf(),
                self@ == offered_all(start, sent.take(i as int)),
            decreases events@.len() - i,
        {
            proof {
                let next = sent.take(i as int + 1);
                assert(next.drop_last() =~= sent.take(i as int));
                assert(next.last() == events@[i as int]@);
            }
            let _ = self.add_event(events[i].duplicate());
            i += 1;
        }
        proof {
            assert(sent.take(i as int) =~= sent);
        }
    }

    /// Brings stored events back: offers all of `events` in order, again
    /// and again, until a round takes none, so that an event whose parent
    /// stands behind it in the list is taken in a later round. Returns how
    /// many events were taken.
    pub fn restore(&mut self, events: &Vec<Event>) -> (taken: usize)
        requires
            old(self).wf(),
            events@.len() < usize::MAX,
        ensures
            final(self).wf(),
            final(self)@ == settled(old(self)@, event_views(events@), events@.len() as nat + 1),
            taken == final(self)@.len() - old(self)@.len(),
    {
        let ghost start = self@;
        let ghost sent = event_views(events@);
        let first = self.events.len();
        let mut rounds: usize = events.len() + 1;
        while rounds > 0
            invariant
                self.wf(),
                sent == event_views(events@),
                self@.len() >= first,
                first == start.len(),
                settled(start, sent, events@.len() as nat + 1) == settled(self@, sent, rounds as nat),
            decreases rounds,
        {
            let before = self.events.len();
            let ghost log = self@;
            self.offer_all(events);
            proof {
                lemma_offered_all_extends(log, sent);
            }
            if self.events.len() == before {
                proof {
                    assert(self@ =~= log);
                    assert(settled(log, sent, rounds as nat) == log);
                    assert(settled(self@, sent, 0) == self@);
                }
                rounds = 0;
            } else {
                rounds = rounds - 1;
            }
        }
        self.events.len() - first
    }
}

/// One write to the named sub-stores that hold the DAG on disk.
#[derive(Debug)]
pub enum StoreWrite {
    /// `events`: the event under its identifier.
    PutEvent { event: Event },
    /// `parents`: an event's parents under its identifier.
    PutParents { event_id: String, parents: Vec<String> },
    /// `children`: an event's children under its identifier.
    PutChildren { parent_id: String, children: Vec<String> },
    /// `tips`: the event ceases to be a tip.
    RemoveTip { event_id: String },
    /// `tips`: the event's timestamp under its identifier.
    PutTip { event_id: String, timestamp: String },
    /// `sequences`: a node's latest sequence number, eight bytes with the
    /// most significant first, under the node's identifier.
    PutSequence { node_id: String, sequence: Vec<u8> },
}

/// The eight bytes of `n`, the most significant first.
pub open spec fn be_bytes(n: u64) -> Seq<u8> {
    seq![
        (n / 0x100_0000_0000_0000 % 256) as u8,
        (n / 0x1_0000_0000_0000 % 256) as u8,
        (n / 0x100_0000_0000 % 256) as u8,
        (n / 0x1_0000_0000 % 256) as u8,
        (n / 0x100_0000 % 256) as u8,
        (n / 0x1_0000 % 256) as u8,
        (n / 0x100 % 256) as u8,
        (n % 256) as u8,
    ]
}

/// The eight bytes of `n`, the most significant first.
pub fn to_be_bytes(n: u64) -> (r: Vec<u8>)
    ensures
        r@ == be_bytes(n),
{
    let mut r: Vec<u8> = Vec::new();
    r.push((n / 0x100_0000_0000_0000 % 256) as u8);
    r.push((n / 0x1_0000_0000_0000 % 256) as u8);
    r.push((n / 0x100_0000_0000 % 256) as u8);
    r.push((n / 0x1_0000_0000 % 256) as u8);
    r.push((n / 0x100_0000 % 256) as u8);
    r.push((n / 0x1_0000 % 256) as u8);
    r.push((n / 0x100 % 256) as u8);
    r.push((n % 256) as u8);
    proof {
        assert(r@ =~= be_bytes(n));
    }
    r
}

/// The writes that bring the sub-stores on disk up to date with the
/// event `e` of the history `log`: the event and its parents are put; for
/// each parent, in order, the parent's children are put and the parent
/// ceases to be a tip; the event becomes a tip; its creator's latest
/// sequence number is put.
pub open spec fn writes_for(log: Seq<EventView>, e: EventView, writes: Seq<StoreWrite>) -> bool {
    &&& writes.len() == 4 + 2 * e.parents.len()
    &&& writes[0] matches StoreWrite::PutEvent { event } && event@ == e
    &&& writes[1] matches StoreWrite::PutParents { event_id, parents } && event_id@ == e.id && texts(
        parents@,
    ) == e.parents
    &&& forall|k: int|
        0 <= k < e.parents.len() ==> (#[trigger] writes[2 + 2 * k] matches StoreWrite::PutChildren {
            parent_id,
            children,
        } && parent_id@ == e.parents[k] && forall|c: Seq<char>|
            texts(children@).contains(c) <==> listed(log, c, e.parents[k]))
    &&& forall|k: int|
        0 <= k < e.parents.len() ==> (#[trigger] writes[3 + 2 * k] matches StoreWrite::RemoveTip {
            event_id,
        } && event_id@ == e.parents[k])
    &&& writes[writes.len() - 2] matches StoreWrite::PutTip { event_id, timestamp } && event_id@ == e.id
        && timestamp@ == e.timestamp
    &&& writes[writes.len() - 1] matches StoreWrite::PutSequence { node_id, sequence } && node_id@
        == e.node_id && sequence@ == be_bytes(last_sequence(log, e.node_id))
}

impl EventDAG {
    /// The writes that bring the sub-stores on disk up to date with the
    /// event in place `place` of the history. Applied for every event in
    /// the order of the history, they leave on disk the events, their
    /// parents and children, the tips and the latest sequence numbers.
    pub fn writes_for_event(&self, place: usize) -> (r: Vec<StoreWrite>)
        requires
            self.wf(),
            place < self@.len(),
        ensures
            writes_for(self@, self@[place as int], r@),
    {
        let event = &self.events[place];
        let ghost e = event@;
        proof {
            assert(e == self@[place as int]);
        }
        let mut writes: Vec<StoreWrite> = Vec::new();
        writes.push(StoreWrite::PutEvent { event: event.duplicate() });
        writes.push(
            StoreWrite::PutParents { event_id: event.id.clone(), parents: clone_texts(&event.parents) },
        );
        let mut k: usize = 0;
        while k < event.parents.len()
            invariant
                self.wf(),
                k <= event.parents@.len(),
                e == event@,
                writes@.len() == 2 + 2 * k,
                writes@[0] matches StoreWrite::PutEvent { event } && event@ == e,
                writes@[1] matches StoreWrite::PutParents { event_id, parents } && event_id@ == e.id
                    && texts(parents@) == e.parents,
                forall|j: int|
                    0 <= j < k ==> (#[trigger] writes@[2 + 2 * j] matches StoreWrite::PutChildren {
                        parent_id,
                        children,
                    } && parent_id@ == e.parents[j] && forall|c: Seq<char>|
                        texts(children@).contains(c) <==> listed(self@, c, e.parents[j])),
                forall|j: int|
                    0 <= j < k ==> (#[trigger] writes@[3 + 2 * j] matches StoreWrite::RemoveTip {
                        event_id,
                    } && event_id@ == e.parents[j]),
            decreases event.parents@.len() - k,
        {
            let parent = &event.parents[k];
            let ghost before = writes@;
            proof {
                assert(e.parents[k as int] == parent@);
            }
            let children: Vec<String> = match self.children.get(parent.as_str()) {
                Some(list) => clone_texts(list),
                None => Vec::new(),
            };
            proof {
                assert forall|c: Seq<char>| texts(children@).contains(c) <==> listed(
                    self@,
                    c,
                    e.parents[k as int],
                ) by {
                    if !self.children@.contains_key(parent@) {
                        assert(texts(children@) =~= Seq::<Seq<char>>::empty());
                    }
                }
            }
            writes.push(StoreWrite::PutChildren { parent_id: parent.clone(), children });
            writes.push(StoreWrite::RemoveTip { event_id: parent.clone() });
            proof {
                assert forall|j: int| 0 <= j < k + 1 implies (#[trigger] writes@[2 + 2 * j] matches StoreWrite::PutChildren {
                    parent_id,
                    children,
                } && parent_id@ == e.parents[j] && forall|c: Seq<char>|
                    texts(children@).contains(c) <==> listed(self@, c, e.parents[j])) by {
                    if j < k {
                        assert(writes@[2 + 2 * j] == before[2 + 2 * j]);
                    }
                }
                assert forall|j: int| 0 <= j < k + 1 implies (#[trigger] writes@[3 + 2 * j] matches StoreWrite::RemoveTip {
                    event_id,
                } && event_id@ == e.parents[j]) by {
                    if j < k {
                        assert(writes@[3 + 2 * j] == before[3 + 2 * j]);
                    }
                }
            }
            k += 1;
        }
        let sequence = self.get_node_sequence(event.node_id.as_str());
        let ghost before = writes@;
        writes.push(StoreWrite::PutTip { event_id: event.id.clone(), timestamp: event.timestamp.clone() });
        writes.push(
            StoreWrite::PutSequence { node_id: event.node_id.clone(), sequence: to_be_bytes(sequence) },
        );
        proof {
            assert forall|j: int| 0 <= j < e.parents.len() implies (#[trigger] writes@[2 + 2 * j] matches StoreWrite::PutChildren {
                parent_id,
                children,
            } && parent_id@ == e.parents[j] && forall|c: Seq<char>|
                texts(children@).contains(c) <==> listed(self@, c, e.parents[j])) by {
                assert(writes@[2 + 2 * j] == before[2 + 2 * j]);
            }
            assert forall|j: int| 0 <= j < e.parents.len() implies (#[trigger] writes@[3 + 2 * j] matches StoreWrite::RemoveTip {
                event_id,
            } && event_id@ == e.parents[j]) by {
                assert(writes@[3 + 2 * j] == before[3 + 2 * j]);
            }
            assert(writes@[0] == before[0]);
            assert(writes@[1] == before[1]);
        }
        writes
    }
}

} // verus!
