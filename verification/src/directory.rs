//! The membership directory: what a node knows of the other nodes, and what
//! the directory service keeps.

use vstd::prelude::*;
use vstd::string::*;
use vstd::std_specs::cmp::PartialEqSpecImpl;

verus! {

/// One member of the overlay as the directory publishes it.
#[derive(Debug)]
pub struct NodeData {
    /// The member's IPv4 address, as text.
    pub host: String,
    /// The member's public key in its directory encoding.
    pub pub_key: String,
}

/// What a `NodeData` is to a specification: its two texts.
pub struct NodeDataView {
    pub host: Seq<char>,
    pub pub_key: Seq<char>,
}

impl View for NodeData {
    type V = NodeDataView;

    open spec fn view(&self) -> NodeDataView {
        NodeDataView { host: self.host@, pub_key: self.pub_key@ }
    }
}

impl PartialEq for NodeData {
    /// Two entries are the same member when they name the same host.
    fn eq(&self, other: &NodeData) -> (same: bool) {
        self.host == other.host
    }
}

impl PartialEqSpecImpl for NodeData {
    open spec fn obeys_eq_spec() -> bool {
        true
    }

    open spec fn eq_spec(&self, other: &NodeData) -> bool {
        self.host@ == other.host@
    }
}

impl Clone for NodeData {
    fn clone(&self) -> (copy: Self)
        ensures
            copy@ == self@,
    {
        NodeData { host: self.host.clone(), pub_key: self.pub_key.clone() }
    }
}

/// A dated list of members, in the order in which they registered.
#[derive(Debug)]
pub struct NodeList {
    /// Seconds since the epoch at which the list was produced; 0 for the
    /// empty list a node starts with.
    pub timestamp: u64,
    /// The members, oldest registration first.
    pub list: Vec<NodeData>,
}

/// What a `NodeList` is to a specification.
pub struct NodeListView {
    pub timestamp: u64,
    pub list: Seq<NodeDataView>,
}

/// The views of a sequence of entries, in the same order.
pub open spec fn entries_view(list: Seq<NodeData>) -> Seq<NodeDataView> {
    Seq::new(list.len(), |i: int| list[i]@)
}

impl View for NodeList {
    type V = NodeListView;

    open spec fn view(&self) -> NodeListView {
        NodeListView { timestamp: self.timestamp, list: entries_view(self.list@) }
    }
}

/// Copies a list of entries.
pub fn clone_entries(list: &Vec<NodeData>) -> (copy: Vec<NodeData>)
    ensures
        entries_view(copy@) == entries_view(list@),
{
    let mut copy: Vec<NodeData> = Vec::new();
    let mut i: usize = 0;
    while i < list.len()
        invariant
            i <= list.len(),
            copy.len() == i,
            forall|j: int| 0 <= j < i ==> copy[j]@ == list[j]@,
        decreases list.len() - i,
    {
        copy.push(list[i].clone());
        i += 1;
    }
    assert(entries_view(copy@) =~= entries_view(list@));
    copy
}

impl Clone for NodeList {
    fn clone(&self) -> (copy: Self)
        ensures
            copy@ == self@,
    {
        NodeList { timestamp: self.timestamp, list: clone_entries(&self.list) }
    }
}

impl NodeList {
    /// The empty list, dated 0.
    pub fn new() -> (empty: Self)
        ensures
            empty@.timestamp == 0,
            empty@.list == Seq::<NodeDataView>::empty(),
    {
        let empty = Self { timestamp: 0, list: Vec::new() };
        assert(empty@.list =~= Seq::<NodeDataView>::empty());
        empty
    }
}

/// What a node holds after it is offered `response` while holding `local`:
/// the response if it is dated strictly later, else what it held.
pub open spec fn adopted(local: NodeListView, response: NodeListView) -> NodeListView {
    if response.timestamp > local.timestamp {
        response
    } else {
        local
    }
}

/// What a node holds after it is offered each of `responses` in turn.
pub open spec fn after_pulls(local: NodeListView, responses: Seq<NodeListView>) -> NodeListView
    decreases responses.len(),
{
    if responses.len() == 0 {
        local
    } else {
        adopted(after_pulls(local, responses.drop_last()), responses.last())
    }
}

/// Offers a freshly pulled list to the node: it replaces the local one if
/// it is dated strictly later, and is discarded otherwise. Returns whether
/// it was adopted.
pub fn adopt_snapshot(node_list: &mut NodeList, response: NodeList) -> (taken: bool)
    ensures
        final(node_list)@ == adopted(old(node_list)@, response@),
        taken == (response@.timestamp > old(node_list)@.timestamp),
        final(node_list)@.timestamp >= old(node_list)@.timestamp,
{
    if response.timestamp > node_list.timestamp {
        node_list.timestamp = response.timestamp;
        node_list.list = response.list;
        true
    } else {
        false
    }
}

/// Whatever is pulled, the local timestamp never goes back: after more
/// pulls it is at least what it was after fewer.
pub proof fn lemma_pulls_monotonic(local: NodeListView, responses: Seq<NodeListView>, fewer: int)
    requires
        0 <= fewer <= responses.len(),
    ensures
        after_pulls(local, responses.take(fewer)).timestamp <= after_pulls(
            local,
            responses,
        ).timestamp,
        local.timestamp <= after_pulls(local, responses).timestamp,
    decreases responses.len(),
{
    if responses.len() == 0 {
        assert(responses.take(fewer) =~= responses);
    } else if fewer == responses.len() {
        assert(responses.take(fewer) =~= responses);
        lemma_pulls_monotonic(local, responses.drop_last(), 0);
    } else {
        lemma_pulls_monotonic(local, responses.drop_last(), fewer);
        assert(responses.drop_last().take(fewer) =~= responses.take(fewer));
    }
}

/// A local list changes only to a list that is dated strictly later.
pub proof fn lemma_replaced_only_by_newer(local: NodeListView, response: NodeListView)
    ensures
        adopted(local, response) != local ==> adopted(local, response) == response
            && response.timestamp > local.timestamp,
{
}

/// The directory's answer to a pull: its members, dated `now`.
pub fn get_index(registry: &NodeList, now: u64) -> (answer: NodeList)
    ensures
        answer@.timestamp == now,
        answer@.list == registry@.list,
{
    NodeList { timestamp: now, list: clone_entries(&registry.list) }
}

/// The directory's answer to a registration it has stored.
pub open spec fn registered_text() -> Seq<char> {
    "OK"@
}

/// The directory's answer to a reset.
pub open spec fn reset_text() -> Seq<char> {
    "Index has been reset"@
}

/// Registers a member: it is appended, whether or not it is there already.
pub fn add_node(registry: &mut NodeList, data: NodeData) -> (answer: &'static str)
    ensures
        final(registry)@.list == old(registry)@.list.push(data@),
        final(registry)@.timestamp == old(registry)@.timestamp,
        answer@ == registered_text(),
{
    registry.list.push(data);
    assert(registry@.list =~= old(registry)@.list.push(data@));
    "OK"
}

/// Empties the directory. Its timestamp stays.
pub fn get_reset(registry: &mut NodeList) -> (answer: &'static str)
    ensures
        final(registry)@.list == Seq::<NodeDataView>::empty(),
        final(registry)@.timestamp == old(registry)@.timestamp,
        answer@ == reset_text(),
{
    registry.list.clear();
    assert(registry@.list =~= Seq::<NodeDataView>::empty());
    "Index has been reset"
}

/// The body of the request that registers `entry` with the directory: a
/// JSON object of its two texts, written as they are.
pub open spec fn registration_text(entry: NodeDataView) -> Seq<char> {
    "{\"host\": \""@ + entry.host + "\", \"pub_key\": \""@ + entry.pub_key + "\"}"@
}

/// Writes the body of the request that registers a member.
pub fn registration_request(d: &NodeData) -> (body: String)
    ensures
        body@ == registration_text(d@),
{
    let mut body = String::from_str("{\"host\": \"");
    body.append(d.host.as_str());
    body.append("\", \"pub_key\": \"");
    body.append(d.pub_key.as_str());
    body.append("\"}");
    body
}

/// Seconds between two pulls of the directory.
pub const AUTO_REFRESH_RATE: u64 = 5;

/// The sum of two times, held at the largest time there is.
pub open spec fn capped_sum(a: u64, b: u64) -> u64 {
    if a + b > u64::MAX {
        u64::MAX
    } else {
        (a + b) as u64
    }
}

/// How long the poller sleeps after a pull, and its next deadline.
///
/// A pull that ends at `now`, no later than its deadline `next_time`, is
/// followed by a sleep up to the deadline, and the next deadline is `delta`
/// later. A pull that overran its deadline is followed by no sleep at all,
/// and the next deadline is the first one after `now` that lies a multiple
/// of `delta` after the missed one: the deadlines that passed meanwhile
/// are skipped, so that one pull at most follows without a pause.
pub open spec fn tick(next_time: u64, now: u64, delta: u64) -> (u64, u64) {
    if now <= next_time {
        ((next_time - now) as u64, capped_sum(next_time, delta))
    } else if delta == 0 {
        (0, now)
    } else {
        (0, capped_sum(now, (delta - (now - next_time) % (delta as int)) as u64))
    }
}

/// Computes the poller's sleep and next deadline; see `tick`.
pub fn next_tick(next_time: u64, now: u64, delta: u64) -> (r: (u64, u64))
    ensures
        r == tick(next_time, now, delta),
{
    if now <= next_time {
        (next_time - now, next_time.saturating_add(delta))
    } else if delta == 0 {
        (0, now)
    } else {
        let behind = now - next_time;
        let pad = delta - behind % delta;
        (0, now.saturating_add(pad))
    }
}

/// The sleep is never negative, and it ends at the deadline: a pull that
/// ends in time is followed by the wait that is left and by the next
/// deadline of the cadence.
pub proof fn lemma_tick_in_time(next_time: u64, now: u64, delta: u64)
    requires
        now <= next_time,
    ensures
        now + tick(next_time, now, delta).0 == next_time,
        next_time + delta <= u64::MAX ==> tick(next_time, now, delta).1 == next_time + delta,
{
}

/// After an overrun the next deadline stays on the grid of the missed one:
/// it lies a whole number of periods, at least one, after it, later than
/// `now` and at most one period later.
pub proof fn lemma_tick_keeps_cadence(next_time: u64, now: u64, delta: u64)
    requires
        now > next_time,
        delta > 0,
        tick(next_time, now, delta).1 < u64::MAX,
    ensures
        tick(next_time, now, delta).0 == 0,
        now < tick(next_time, now, delta).1 <= now + delta,
        (tick(next_time, now, delta).1 - next_time) % (delta as int) == 0,
        tick(next_time, now, delta).1 >= next_time + delta,
{
    let behind = (now - next_time) as int;
    let d = delta as int;
    let pad = d - behind % d;
    assert(0 < pad <= d);
    assert((behind + pad) % d == 0) by (nonlinear_arith)
        requires
            d > 0,
            behind > 0,
            pad == d - behind % d,
    ;
    assert(behind + pad >= d) by (nonlinear_arith)
        requires
            d > 0,
            behind > 0,
            pad > 0,
            (behind + pad) % d == 0,
    ;
}

} // verus!
