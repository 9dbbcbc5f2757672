//! The relay engine: what a node does with a packet it received, what it
//! sends when it originates a message, and the log it keeps of both.

use vstd::prelude::*;
use vstd::string::*;
use crate::crypto::{peeled, terminal_hop, unwrap_layer};
use crate::directory::{NodeDataView, NodeList};
use crate::error::Error;
use crate::ipv4::{format_ipv4, ipv4_text, parse_ipv4, parsed_ipv4};
use crate::keys::{PrivateKey, PublicKeyView};
use crate::onion::{
    keys_fit_header, onion_fits, onion_len, onion_opens, onion_wrap, path_view, HopView,
};
use crate::path::{
    addresses_view, all_known, choose_path, lemma_lookup_errors, lookup, lookup_fails,
    make_dest_key_pairs, pairs_for, selected_from, usable_count, PATH_INTERMEDIATES,
};
use crate::text::{utf8_lossy, utf8_lossy_text};

verus! {

/// What a log record reports.
#[derive(Clone, Copy, Debug, PartialEq, Eq, Structural)]
pub enum MessageKind {
    /// The node originated a message.
    Sent,
    /// The node was the last hop and kept the payload.
    Received,
    /// The node handed a packet on.
    Relayed,
}

/// One record of the delivery log.
#[derive(Debug)]
pub struct Message {
    /// Seconds since the epoch at which the record was made.
    pub timestamp_received: u64,
    /// What happened.
    pub kind: MessageKind,
    /// The payload, the next hop, or the payload and its destination.
    pub message: String,
}

/// What a record is to a specification.
pub struct MessageView {
    pub timestamp_received: u64,
    pub kind: MessageKind,
    pub message: Seq<char>,
}

impl View for Message {
    type V = MessageView;

    open spec fn view(&self) -> MessageView {
        MessageView {
            timestamp_received: self.timestamp_received,
            kind: self.kind,
            message: self.message@,
        }
    }
}

impl Clone for Message {
    fn clone(&self) -> (copy: Self)
        ensures
            copy@ == self@,
    {
        Message {
            timestamp_received: self.timestamp_received,
            kind: self.kind,
            message: self.message.clone(),
        }
    }
}

/// The label that a record of a kind is shown under.
pub open spec fn label_text(kind: MessageKind) -> Seq<char> {
    match kind {
        MessageKind::Sent => "SENT     : "@,
        MessageKind::Received => "RECEIVED : "@,
        MessageKind::Relayed => "RELAYED  : "@,
    }
}

impl Message {
    /// The record as the operator sees it: its label, then its text.
    pub fn render(&self) -> (line: String)
        ensures
            line@ == label_text(self.kind) + self.message@,
    {
        let label = match self.kind {
            MessageKind::Sent => "SENT     : ",
            MessageKind::Received => "RECEIVED : ",
            MessageKind::Relayed => "RELAYED  : ",
        };
        let mut line = String::from_str(label);
        line.append(self.message.as_str());
        line
    }
}

/// The delivery log: records in the order in which they were made.
#[derive(Debug)]
pub struct MessageLog {
    /// The records, oldest first.
    pub list: Vec<Message>,
}

/// The views of a sequence of records, in the same order.
pub open spec fn records_view(list: Seq<Message>) -> Seq<MessageView> {
    Seq::new(list.len(), |i: int| list[i]@)
}

impl View for MessageLog {
    type V = Seq<MessageView>;

    open spec fn view(&self) -> Seq<MessageView> {
        records_view(self.list@)
    }
}

impl MessageLog {
    /// The empty log.
    pub fn new() -> (log: Self)
        ensures
            log@ == Seq::<MessageView>::empty(),
    {
        let log = Self { list: Vec::new() };
        assert(log@ =~= Seq::<MessageView>::empty());
        log
    }

    /// Appends a record.
    pub fn append(&mut self, record: Message)
        ensures
            final(self)@ == old(self)@.push(record@),
    {
        self.list.push(record);
        assert(self@ =~= old(self)@.push(record@));
    }

    /// Forgets every record.
    pub fn flush(&mut self)
        ensures
            final(self)@ == Seq::<MessageView>::empty(),
    {
        self.list.clear();
        assert(self@ =~= Seq::<MessageView>::empty());
    }
}

/// What a node does with a packet once a layer is peeled.
#[derive(Debug)]
pub enum Disposition {
    /// This node is the last hop; the payload is in the log.
    Delivered,
    /// The rest goes to another node.
    Forward {
        /// Where to send it.
        next_hop: [u8; 4],
        /// What to send.
        payload: Vec<u8>,
    },
}

/// The record of a payload that reached its last hop at `now`.
pub open spec fn received_record(now: u64, payload: Seq<u8>) -> MessageView {
    MessageView {
        timestamp_received: now,
        kind: MessageKind::Received,
        message: utf8_lossy_text(payload),
    }
}

/// The record of a packet that was handed on to `next_hop` at `now`.
pub open spec fn relayed_record(now: u64, next_hop: Seq<u8>) -> MessageView {
    MessageView { timestamp_received: now, kind: MessageKind::Relayed, message: ipv4_text(next_hop) }
}

/// The record of a message that was sent at `now`.
pub open spec fn sent_record(now: u64, message: Seq<char>, destination: Seq<char>) -> MessageView {
    MessageView {
        timestamp_received: now,
        kind: MessageKind::Sent,
        message: message + " to "@ + destination,
    }
}

/// Handles a packet that was read in full at `now`.
///
/// One layer is peeled with the node's key. A packet that does not peel is
/// dropped with the error of the peeling, and the log stays as it was. A
/// layer whose next hop is the terminal address is the last: its payload is
/// logged as received. Any other layer is to be forwarded, and the log
/// stays as it was until `record_relayed` reports the forwarding.
pub fn handle_packet(priv_key: &PrivateKey, log: &mut MessageLog, packet: &[u8], now: u64) -> (r:
    Result<Disposition, Error>)
    ensures
        match peeled(priv_key@, packet@) {
            Err(e) => r == Err::<Disposition, Error>(e) && final(log)@ == old(log)@,
            Ok((next_hop, inner)) => if next_hop == terminal_hop() {
                &&& r matches Ok(Disposition::Delivered)
                &&& final(log)@ == old(log)@.push(received_record(now, inner))
            } else {
                &&& r matches Ok(Disposition::Forward { next_hop: hop, payload })
                &&& hop@ == next_hop
                &&& payload@ == inner
                &&& final(log)@ == old(log)@
            },
        },
{
    match unwrap_layer(priv_key, packet) {
        Err(e) => Err(e),
        Ok((next_hop, inner)) => {
            if next_hop[0] == 0 && next_hop[1] == 0 && next_hop[2] == 0 && next_hop[3] == 0 {
                assert(next_hop@ =~= terminal_hop());
                let text = utf8_lossy(inner.as_slice());
                log.append(Message { timestamp_received: now, kind: MessageKind::Received, message: text });
                Ok(Disposition::Delivered)
            } else {
                assert(next_hop@ != terminal_hop()) by {
                    if next_hop@ == terminal_hop() {
                        assert(next_hop@[0] == 0 && next_hop@[1] == 0 && next_hop@[2] == 0
                            && next_hop@[3] == 0);
                    }
                }
                Ok(Disposition::Forward { next_hop, payload: inner })
            }
        },
    }
}

/// Logs that a packet was handed on to `next_hop` at `now`.
pub fn record_relayed(log: &mut MessageLog, now: u64, next_hop: &[u8; 4])
    ensures
        final(log)@ == old(log)@.push(relayed_record(now, next_hop@)),
{
    let text = format_ipv4(next_hop);
    log.append(Message { timestamp_received: now, kind: MessageKind::Relayed, message: text });
}

/// Logs that `message` was sent to `destination` at `now`.
pub fn record_sent(log: &mut MessageLog, now: u64, message: &str, destination: &str)
    ensures
        final(log)@ == old(log)@.push(sent_record(now, message@, destination@)),
{
    let mut text = String::from_str(message);
    text.append(" to ");
    text.append(destination);
    log.append(Message { timestamp_received: now, kind: MessageKind::Sent, message: text });
}

/// `packet` is a message for `destination` around `data`, built over the
/// directory `list` by the node with `own_key`, and `first_hop` is where it
/// starts: three different usable relays were chosen, the destination was
/// put behind them, every address on the path got its key from the
/// directory, and the packet is the onion over these.
pub open spec fn is_message(
    list: Seq<NodeDataView>,
    own_key: Seq<char>,
    destination: Seq<u8>,
    data: Seq<u8>,
    first_hop: Seq<u8>,
    packet: Seq<u8>,
) -> bool {
    exists|relays: Seq<Seq<u8>>, pairs: Seq<HopView>|
        {
            &&& relays.len() == PATH_INTERMEDIATES
            &&& #[trigger] selected_from(list, own_key, relays)
            &&& #[trigger] pairs_for(list, relays.push(destination), pairs)
            &&& first_hop == relays[0]
            &&& packet.len() == onion_len(pairs, data.len())
            &&& keys_fit_header(pairs) ==> onion_opens(pairs, packet, data)
        }
}

/// Building a message over the relays `relays` fails with `e`: an address
/// on the path has no key and its lookup fails with `e`, or every address
/// has a key, some layer cannot be wrapped, and `e` is `CryptoError`.
pub open spec fn build_fails(
    list: Seq<NodeDataView>,
    path: Seq<Seq<u8>>,
    data_len: nat,
    e: Error,
) -> bool {
    ||| lookup_fails(list, path, e)
    ||| e == Error::CryptoError && exists|pairs: Seq<HopView>| #[trigger]
        pairs_for(list, path, pairs) && !onion_fits(pairs, data_len)
}

/// Some choice of three different usable relays leads to the failure `e`.
pub open spec fn is_failure(
    list: Seq<NodeDataView>,
    own_key: Seq<char>,
    destination: Seq<u8>,
    data_len: nat,
    e: Error,
) -> bool {
    exists|relays: Seq<Seq<u8>>| #[trigger]
        selected_from(list, own_key, relays) && relays.len() == PATH_INTERMEDIATES
            && build_fails(list, relays.push(destination), data_len, e)
}

/// The view of what is to be sent: the first hop and the packet.
pub open spec fn outgoing_view(r: Result<([u8; 4], Vec<u8>), Error>) -> Result<
    (Seq<u8>, Seq<u8>),
    Error,
> {
    match r {
        Ok((first_hop, packet)) => Ok((first_hop@, packet@)),
        Err(e) => Err(e),
    }
}

/// What building a message for `destination` around `data` may give.
///
/// The terminal address is refused as an unknown node. For any other
/// destination the result is `InsufficientNodes` exactly when the list
/// holds fewer than three usable relays. Every other failure is that of a
/// lookup or of a layer over the relays that were chosen, and every
/// success is a message in the sense of `is_message`.
pub open spec fn message_outcome(
    list: Seq<NodeDataView>,
    own_key: Seq<char>,
    destination: Seq<u8>,
    data: Seq<u8>,
    r: Result<(Seq<u8>, Seq<u8>), Error>,
) -> bool {
    &&& destination == terminal_hop() ==> r == Err::<(Seq<u8>, Seq<u8>), Error>(
        Error::UnknownNode,
    )
    &&& destination != terminal_hop() ==> (r == Err::<(Seq<u8>, Seq<u8>), Error>(
        Error::InsufficientNodes,
    ) <==> usable_count(list, own_key) < PATH_INTERMEDIATES)
    &&& r matches Ok((first_hop, packet)) ==> is_message(
        list,
        own_key,
        destination,
        data,
        first_hop,
        packet,
    )
    &&& r matches Err(e) ==> {
        ||| e == Error::UnknownNode && destination == terminal_hop()
        ||| e == Error::InsufficientNodes
        ||| is_failure(list, own_key, destination, data.len(), e)
    }
    &&& r matches Err(e) ==> e == Error::UnknownNode || e == Error::InsufficientNodes || e
        == Error::BadDirectoryEntry || e == Error::CryptoError
}

/// Builds the packet that carries `data` to `destination`, and says where
/// to send it first.
///
/// The terminal address is no destination: it is refused as an unknown
/// node. With fewer than three usable relays in the snapshot the result is
/// `InsufficientNodes`. An address on the path without a key in the
/// directory gives the error of its lookup, and a layer that cannot be
/// wrapped gives `CryptoError`.
pub fn prepare_message(
    data: &[u8],
    destination: [u8; 4],
    snapshot: &NodeList,
    self_pub_key: &str,
) -> (r: Result<([u8; 4], Vec<u8>), Error>)
    ensures
        message_outcome(snapshot@.list, self_pub_key@, destination@, data@, outgoing_view(r)),
{
    if destination[0] == 0 && destination[1] == 0 && destination[2] == 0 && destination[3] == 0 {
        assert(destination@ =~= terminal_hop());
        return Err(Error::UnknownNode);
    }
    assert(destination@ != terminal_hop()) by {
        if destination@ == terminal_hop() {
            assert(destination@[0] == 0 && destination@[1] == 0 && destination@[2] == 0
                && destination@[3] == 0);
        }
    }
    let mut path = match choose_path(snapshot, PATH_INTERMEDIATES, self_pub_key) {
        Ok(path) => path,
        Err(e) => {
            return Err(e);
        },
    };
    let ghost relays = addresses_view(path@);
    path.push(destination);
    proof {
        assert(addresses_view(path@) =~= relays.push(destination@));
    }
    let dest_key_pairs = match make_dest_key_pairs(snapshot, &path) {
        Ok(pairs) => pairs,
        Err(e) => {
            proof {
                let at = choose|at: int|
                    0 <= at < path@.len() && all_known(
                        snapshot@.list,
                        addresses_view(path@),
                        at,
                    ) && #[trigger] lookup(snapshot@.list, addresses_view(path@)[at]) == Err::<
                        PublicKeyView,
                        Error,
                    >(e);
                lemma_lookup_errors(snapshot@.list, addresses_view(path@)[at]);
                assert(build_fails(
                    snapshot@.list,
                    relays.push(destination@),
                    data@.len(),
                    e,
                ));
                assert(selected_from(snapshot@.list, self_pub_key@, relays));
            }
            return Err(e);
        },
    };
    let packet = match onion_wrap(&dest_key_pairs, data) {
        Ok(packet) => packet,
        Err(e) => {
            proof {
                assert(pairs_for(
                    snapshot@.list,
                    relays.push(destination@),
                    path_view(dest_key_pairs@),
                ) && !onion_fits(path_view(dest_key_pairs@), data@.len()));
                assert(build_fails(
                    snapshot@.list,
                    relays.push(destination@),
                    data@.len(),
                    e,
                ));
                assert(selected_from(snapshot@.list, self_pub_key@, relays));
            }
            return Err(e);
        },
    };
    let first_hop = path[0];
    proof {
        let pairs = path_view(dest_key_pairs@);
        assert(first_hop@ == relays[0]);
        assert(selected_from(snapshot@.list, self_pub_key@, relays) && pairs_for(
            snapshot@.list,
            relays.push(destination@),
            pairs,
        ));
    }
    Ok((first_hop, packet))
}

/// What building a message for the host named `destination` may give: a
/// destination that does not read as an address names no node; any other
/// is handled as `message_outcome` says.
pub open spec fn command_outcome(
    list: Seq<NodeDataView>,
    own_key: Seq<char>,
    destination: Seq<char>,
    data: Seq<u8>,
    r: Result<(Seq<u8>, Seq<u8>), Error>,
) -> bool {
    match parsed_ipv4(destination) {
        None => r == Err::<(Seq<u8>, Seq<u8>), Error>(Error::UnknownNode),
        Some(address) => message_outcome(list, own_key, address, data, r),
    }
}

/// Builds the packet for the operator's request to send `message` to the
/// host named `destination`.
///
/// A destination that does not read as an address names no node. The
/// payload is the UTF-8 encoding of the message.
pub fn prepare_command(
    destination: &str,
    message: &str,
    snapshot: &NodeList,
    self_pub_key: &str,
) -> (r: Result<([u8; 4], Vec<u8>), Error>)
    ensures
        command_outcome(
            snapshot@.list,
            self_pub_key@,
            destination@,
            message.spec_bytes(),
            outgoing_view(r),
        ),
{
    match parse_ipv4(destination) {
        None => Err(Error::UnknownNode),
        Some(address) => prepare_message(message.as_bytes(), address, snapshot, self_pub_key),
    }
}

} // verus!
