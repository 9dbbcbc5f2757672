//! The node runtime: the key, the directory snapshot and the delivery log of
//! one node, and what each event does to them.

use vstd::prelude::*;
use vstd::string::*;
use crate::crypto::{peeled, terminal_hop};
use crate::directory::{adopt_snapshot, adopted, NodeData, NodeDataView, NodeList, NodeListView};
use crate::encoding::{key_text, option_text, rsa_pub_key_to_b64};
use crate::error::Error;
use crate::keys::{PrivateKey, PrivateKeyView};
use crate::relay::{
    handle_packet, prepare_command, command_outcome, outgoing_view, received_record,
    record_relayed, record_sent, relayed_record, sent_record, Disposition, MessageLog,
    MessageView,
};

verus! {

/// The bits of the key that a node generates for itself.
pub const RSA_KEY_BITS: usize = 2048;

/// The TCP port on which every node listens for packets.
pub const CEPA_ROUTER_PORT: u16 = 55505;

/// The state of one node.
#[derive(Debug)]
pub struct Node {
    priv_key: PrivateKey,
    node_list: NodeList,
    message_log: MessageLog,
}

/// What a node is to a specification.
pub struct NodeView {
    /// The node's key. It never changes.
    pub key: PrivateKeyView,
    /// What the node knows of the directory.
    pub snapshot: NodeListView,
    /// What the node has logged.
    pub log: Seq<MessageView>,
}

impl View for Node {
    type V = NodeView;

    closed spec fn view(&self) -> NodeView {
        NodeView { key: self.priv_key@, snapshot: self.node_list@, log: self.message_log@ }
    }
}

/// The view of an optional directory entry.
pub open spec fn option_entry_view(entry: Option<NodeData>) -> Option<NodeDataView> {
    match entry {
        Some(e) => Some(e@),
        None => None,
    }
}

impl Node {
    /// A node with the given key, the empty snapshot dated 0, and an empty
    /// log.
    pub fn new(priv_key: PrivateKey) -> (node: Node)
        ensures
            node@.key == priv_key@,
            node@.snapshot.timestamp == 0,
            node@.snapshot.list.len() == 0,
            node@.log.len() == 0,
    {
        Node { priv_key, node_list: NodeList::new(), message_log: MessageLog::new() }
    }

    /// A node with a freshly generated key of 2048 bits.
    pub fn start() -> (r: Result<Node, Error>)
        ensures
            r matches Ok(node) ==> node@.key.n.len() == 256 && node@.key.consistent()
                && node@.snapshot.timestamp == 0 && node@.snapshot.list.len() == 0
                && node@.log.len() == 0,
            r matches Err(e) ==> e == Error::CryptoError,
    {
        match PrivateKey::generate(RSA_KEY_BITS) {
            Ok(key) => Ok(Node::new(key)),
            Err(e) => Err(e),
        }
    }

    /// The node's key.
    pub fn key(&self) -> (key: &PrivateKey)
        ensures
            key@ == self@.key,
    {
        &self.priv_key
    }

    /// The node's snapshot of the directory.
    pub fn snapshot(&self) -> (list: &NodeList)
        ensures
            list@ == self@.snapshot,
    {
        &self.node_list
    }

    /// The node's delivery log.
    pub fn log(&self) -> (log: &MessageLog)
        ensures
            log@ == self@.log,
    {
        &self.message_log
    }

    /// The text under which the directory carries the node's public key.
    pub fn key_text(&self) -> (text: Option<String>)
        ensures
            option_text(text) == key_text(self@.key.public()),
    {
        rsa_pub_key_to_b64(&self.priv_key.public_key())
    }

    /// The entry that publishes this node under the address `host`.
    pub fn registration(&self, host: String) -> (entry: Option<NodeData>)
        ensures
            option_entry_view(entry) == match key_text(self@.key.public()) {
                Some(text) => Some(NodeDataView { host: host@, pub_key: text }),
                None => None,
            },
    {
        match self.key_text() {
            Some(pub_key) => Some(NodeData { host, pub_key }),
            None => None,
        }
    }

    /// A list was pulled from the directory: it replaces the snapshot if it
    /// is dated strictly later. Key and log stay.
    pub fn pulled(&mut self, response: NodeList) -> (taken: bool)
        ensures
            final(self)@.snapshot == adopted(old(self)@.snapshot, response@),
            taken == (response@.timestamp > old(self)@.snapshot.timestamp),
            final(self)@.snapshot.timestamp >= old(self)@.snapshot.timestamp,
            final(self)@.key == old(self)@.key,
            final(self)@.log == old(self)@.log,
    {
        adopt_snapshot(&mut self.node_list, response)
    }

    /// A packet was read in full at `now`: one layer is peeled. The last
    /// layer's payload is logged as received; any other is to be forwarded;
    /// a packet that does not peel is dropped. Key and snapshot stay.
    pub fn received(&mut self, packet: &[u8], now: u64) -> (r: Result<Disposition, Error>)
        ensures
            final(self)@.key == old(self)@.key,
            final(self)@.snapshot == old(self)@.snapshot,
            match peeled(old(self)@.key, packet@) {
                Err(e) => r == Err::<Disposition, Error>(e) && final(self)@.log == old(self)@.log,
                Ok((next_hop, inner)) => if next_hop == terminal_hop() {
                    &&& r matches Ok(Disposition::Delivered)
                    &&& final(self)@.log == old(self)@.log.push(received_record(now, inner))
                } else {
                    &&& r matches Ok(Disposition::Forward { next_hop: hop, payload })
                    &&& hop@ == next_hop
                    &&& payload@ == inner
                    &&& final(self)@.log == old(self)@.log
                },
            },
    {
        handle_packet(&self.priv_key, &mut self.message_log, packet, now)
    }

    /// A packet was handed on to `next_hop` at `now`: this is logged.
    pub fn relayed(&mut self, now: u64, next_hop: &[u8; 4])
        ensures
            final(self)@.log == old(self)@.log.push(relayed_record(now, next_hop@)),
            final(self)@.key == old(self)@.key,
            final(self)@.snapshot == old(self)@.snapshot,
    {
        record_relayed(&mut self.message_log, now, next_hop);
    }

    /// Builds the packet for the operator's request to send `message` to
    /// the host named `destination`, and says where to send it first. A node
    /// whose key has no directory text cannot tell its own entry from the
    /// others and sends nothing.
    pub fn prepare(&self, destination: &str, message: &str) -> (r: Result<
        ([u8; 4], Vec<u8>),
        Error,
    >)
        ensures
            match key_text(self@.key.public()) {
                None => r == Err::<([u8; 4], Vec<u8>), Error>(Error::CryptoError),
                Some(own_key) => command_outcome(
                    self@.snapshot.list,
                    own_key,
                    destination@,
                    message.spec_bytes(),
                    outgoing_view(r),
                ),
            },
    {
        match self.key_text() {
            None => Err(Error::CryptoError),
            Some(own_key) => prepare_command(
                destination,
                message,
                &self.node_list,
                own_key.as_str(),
            ),
        }
    }

    /// A message was sent to `destination` at `now`: this is logged.
    pub fn sent(&mut self, now: u64, message: &str, destination: &str)
        ensures
            final(self)@.log == old(self)@.log.push(sent_record(now, message@, destination@)),
            final(self)@.key == old(self)@.key,
            final(self)@.snapshot == old(self)@.snapshot,
    {
        record_sent(&mut self.message_log, now, message, destination);
    }

    /// The operator flushed the log.
    pub fn flush(&mut self)
        ensures
            final(self)@.log == Seq::<MessageView>::empty(),
            final(self)@.key == old(self)@.key,
            final(self)@.snapshot == old(self)@.snapshot,
    {
        self.message_log.flush();
    }
}

} // verus!
