//! The decisions of each exchange. The host opens connections and streams,
//! moves bytes and talks to the content store; it hands every read to these
//! functions and does what they return.
use vstd::prelude::*;

use crate::frame::{
    frame_bytes, frame_step, lemma_frame_round_trip, FrameReader, FrameStep, MAX_FRAME_LEN,
};
use crate::message::{
    decode_message, lemma_message_round_trip, message_bytes, MessageView, ProtocolMessage,
    SymmetricalPostcard,
};
use crate::registry::{lemma_last_write_wins, NodeId, PeerRegistry};
use crate::wire::Digest;

verus! {

/// The protocol's identifier, negotiated when a connection is made.
pub const ALPN: &'static str = "iroh-drop/0";

/// How long ago a peer may have been seen by local discovery and still be
/// introduced by a scan: 60 seconds.
pub const FRESHNESS_WINDOW_SECS: u64 = 60;

/// Why an outbound exchange failed.
#[derive(Debug, Clone, Copy, PartialEq, Eq)]
pub enum ProtocolError {
    /// The peer has not been introduced.
    UnknownNode,
    /// The peer answered an introduction with something other than a response.
    UnexpectedResponse,
    /// The stream ended before the peer answered.
    RemoteAborted,
    /// The answer did not decode.
    Malformed,
    /// The connection or the stream failed.
    Transport,
}

/// What reading a stream came to.
#[derive(Debug, Clone)]
pub enum Incoming {
    /// A frame that held a message.
    Message(ProtocolMessage),
    /// A frame whose payload held no message; the stream goes on.
    Malformed,
    /// The stream cannot be read further: a frame over the limit, a stream
    /// that ended inside a frame, or a failure below.
    Failed,
    /// The stream ended between frames.
    Closed,
}

pub enum IncomingView {
    Message(MessageView),
    Malformed,
    Failed,
    Closed,
}

impl View for Incoming {
    type V = IncomingView;

    open spec fn view(&self) -> IncomingView {
        match self {
            Incoming::Message(m) => IncomingView::Message(m@),
            Incoming::Malformed => IncomingView::Malformed,
            Incoming::Failed => IncomingView::Failed,
            Incoming::Closed => IncomingView::Closed,
        }
    }
}

/// What the next read of a stream yields, given what is buffered and whether
/// the stream has ended; `None` while more bytes are needed.
pub open spec fn incoming_from(buffered: Seq<u8>, at_end: bool) -> Option<IncomingView> {
    match frame_step(buffered) {
        FrameStep::Frame(payload, _) => match decode_message(payload) {
            Some(m) => Some(IncomingView::Message(m)),
            None => Some(IncomingView::Malformed),
        },
        FrameStep::Oversized => Some(IncomingView::Failed),
        FrameStep::Incomplete => if !at_end {
            None
        } else if buffered.len() == 0 {
            Some(IncomingView::Closed)
        } else {
            Some(IncomingView::Failed)
        },
    }
}

/// Reads the next message from the bytes that a stream has delivered. A frame
/// that is read leaves the buffer; `at_end` says the stream has ended.
pub fn next_incoming(
    reader: &mut FrameReader,
    codec: &SymmetricalPostcard<ProtocolMessage>,
    at_end: bool,
) -> (r: Option<Incoming>)
    ensures
        match incoming_from(old(reader)@, at_end) {
            Some(v) => r matches Some(x) && x@ == v,
            None => r is None,
        },
        match frame_step(old(reader)@) {
            FrameStep::Frame(_, rest) => final(reader)@ == rest,
            _ => final(reader)@ == old(reader)@,
        },
{
    match reader.next_frame() {
        Ok(Some(payload)) => match codec.deserialize(payload.as_slice()) {
            Ok(m) => Some(Incoming::Message(m)),
            Err(_) => Some(Incoming::Malformed),
        },
        Ok(None) => {
            if !at_end {
                None
            } else {
                match reader.finish() {
                    Ok(()) => Some(Incoming::Closed),
                    Err(_) => Some(Incoming::Failed),
                }
            }
        },
        Err(_) => Some(Incoming::Failed),
    }
}

/// A file offer from a trusted peer, for the host to fetch by digest.
#[derive(Debug, Clone)]
pub struct DownloadRequest {
    /// The peer that offered it, from which the content is fetched.
    pub from: NodeId,
    pub name: String,
    pub hash: Digest,
    pub size: u64,
}

/// What the host tells its user.
#[derive(Debug, Clone)]
pub enum LocalProtocolMessage {
    /// A file offered by a peer was fetched.
    FileDownloaded { name: String, hash: Digest, size: u64 },
}

impl DownloadRequest {
    /// The event that a fetch of the offered content leads to: one on success,
    /// none on failure.
    pub fn completed(self, fetched: bool) -> (r: Option<LocalProtocolMessage>)
        ensures
            if fetched {
                r matches Some(LocalProtocolMessage::FileDownloaded { name, hash, size }) && name@
                    == self.name@ && hash@ == self.hash@ && size == self.size
            } else {
                r is None
            },
    {
        if fetched {
            Some(
                LocalProtocolMessage::FileDownloaded {
                    name: self.name,
                    hash: self.hash,
                    size: self.size,
                },
            )
        } else {
            None
        }
    }
}

/// What the host does after a read on an inbound stream.
#[derive(Debug, Clone)]
pub enum InboundAction {
    /// Write this message back, then read on.
    Reply(ProtocolMessage),
    /// Read on.
    Continue,
    /// Fetch the offered file, then read on.
    Download(DownloadRequest),
    /// Close the writing half, wait for the peer to stop, and end the exchange.
    Drain,
}

pub enum InboundView {
    Reply(MessageView),
    Continue,
    Download { from: Seq<u8>, name: Seq<char>, hash: Seq<u8>, size: u64 },
    Drain,
}

impl View for InboundAction {
    type V = InboundView;

    open spec fn view(&self) -> InboundView {
        match self {
            InboundAction::Reply(m) => InboundView::Reply(m@),
            InboundAction::Continue => InboundView::Continue,
            InboundAction::Download(d) => InboundView::Download {
                from: d.from@,
                name: d.name@,
                hash: d.hash@,
                size: d.size,
            },
            InboundAction::Drain => InboundView::Drain,
        }
    }
}

/// The action for `incoming` read from `peer` on an inbound stream, where
/// `own` is this node's name and `known` the registry before the read.
pub open spec fn inbound_action(
    known: Map<Seq<u8>, Seq<char>>,
    own: Seq<char>,
    peer: Seq<u8>,
    incoming: IncomingView,
) -> InboundView {
    match incoming {
        IncomingView::Message(MessageView::IntroRequest { .. }) => InboundView::Reply(
            MessageView::IntroResponse { name: own },
        ),
        IncomingView::Message(MessageView::IntroResponse { .. }) => InboundView::Continue,
        IncomingView::Message(MessageView::SendRequest { name, hash, size }) => if known.contains_key(
            peer,
        ) {
            InboundView::Download { from: peer, name, hash, size }
        } else {
            InboundView::Continue
        },
        IncomingView::Message(MessageView::Finish) => InboundView::Drain,
        IncomingView::Malformed => InboundView::Continue,
        IncomingView::Failed => InboundView::Drain,
        IncomingView::Closed => InboundView::Drain,
    }
}

/// The registry after `incoming` is read from `peer` on an inbound stream: an
/// introduction in either direction records the name it carries.
pub open spec fn after_inbound(
    known: Map<Seq<u8>, Seq<char>>,
    peer: Seq<u8>,
    incoming: IncomingView,
) -> Map<Seq<u8>, Seq<char>> {
    match incoming {
        IncomingView::Message(MessageView::IntroRequest { name }) => known.insert(peer, name),
        IncomingView::Message(MessageView::IntroResponse { name }) => known.insert(peer, name),
        _ => known,
    }
}

/// The outcome of an introduction that `peer` answered with `reply`.
pub open spec fn intro_result(reply: IncomingView) -> Result<Seq<char>, ProtocolError> {
    match reply {
        IncomingView::Message(MessageView::IntroResponse { name }) => Ok(name),
        IncomingView::Message(_) => Err(ProtocolError::UnexpectedResponse),
        IncomingView::Malformed => Err(ProtocolError::Malformed),
        IncomingView::Failed => Err(ProtocolError::Transport),
        IncomingView::Closed => Err(ProtocolError::RemoteAborted),
    }
}

/// The registry after an introduction that `peer` answered with `reply`.
pub open spec fn after_intro(
    known: Map<Seq<u8>, Seq<char>>,
    peer: Seq<u8>,
    reply: IncomingView,
) -> Map<Seq<u8>, Seq<char>> {
    match reply {
        IncomingView::Message(MessageView::IntroResponse { name }) => known.insert(peer, name),
        _ => known,
    }
}

/// A file send to an introduced peer, waiting for its content to be published.
pub struct PendingSend {
    pub to: NodeId,
    pub file_name: String,
}

impl PendingSend {
    /// The messages to write, in order, once the content is published with
    /// digest `hash` and `size` bytes: the offer, then the end of the exchange.
    pub fn messages(self, hash: Digest, size: u64) -> (r: Vec<ProtocolMessage>)
        ensures
            r@.len() == 2,
            r@[0]@ == (MessageView::SendRequest { name: self.file_name@, hash: hash@, size }),
            r@[1]@ == MessageView::Finish,
    {
        let mut v: Vec<ProtocolMessage> = Vec::new();
        v.push(ProtocolMessage::SendRequest { name: self.file_name, hash, size });
        v.push(ProtocolMessage::Finish);
        v
    }
}

/// This node's side of the protocol: its name and the peers it knows.
pub struct Protocol {
    name: String,
    known_nodes: PeerRegistry,
}

impl Protocol {
    pub closed spec fn well_formed(&self) -> bool {
        self.known_nodes.well_formed()
    }

    /// This node's name.
    pub closed spec fn own_name(&self) -> Seq<char> {
        self.name@
    }

    /// The peers this node knows, with their names.
    pub closed spec fn known(&self) -> Map<Seq<u8>, Seq<char>> {
        self.known_nodes@
    }

    /// A node called `name` that knows no peer yet.
    pub fn new(name: String) -> (r: Protocol)
        ensures
            r.well_formed(),
            r.own_name() == name@,
            r.known() == Map::<Seq<u8>, Seq<char>>::empty(),
    {
        Protocol { name, known_nodes: PeerRegistry::new() }
    }

    /// Whether `node_id` has been introduced, in either direction.
    pub fn is_known_node(&self, node_id: &NodeId) -> (r: bool)
        requires
            self.well_formed(),
        ensures
            r == self.known().contains_key(node_id@),
    {
        self.known_nodes.contains(node_id)
    }

    /// The name that `node_id` announced, if it has been introduced.
    pub fn node_name(&self, node_id: &NodeId) -> (r: Option<String>)
        requires
            self.well_formed(),
        ensures
            match r {
                Some(name) => self.known().contains_key(node_id@) && name@ == self.known()[node_id@],
                None => !self.known().contains_key(node_id@),
            },
    {
        match self.known_nodes.get(node_id) {
            Some(node) => Some(node.name),
            None => None,
        }
    }

    /// Whether a peer that local discovery reports should be introduced: only
    /// one this node does not know yet.
    pub fn should_introduce(&self, node_id: &NodeId) -> (r: bool)
        requires
            self.well_formed(),
        ensures
            r == !self.known().contains_key(node_id@),
    {
        !self.known_nodes.contains(node_id)
    }

    /// The message that opens an introduction.
    pub fn send_intro(&self) -> (r: ProtocolMessage)
        ensures
            r@ == (MessageView::IntroRequest { name: self.own_name() }),
    {
        ProtocolMessage::IntroRequest { name: self.name.clone() }
    }

    /// Completes an introduction to `node_id` from the first thing read on its
    /// stream: only a response is accepted, and its name is recorded.
    pub fn intro_reply(&mut self, node_id: NodeId, reply: Incoming) -> (r: Result<
        String,
        ProtocolError,
    >)
        requires
            old(self).well_formed(),
        ensures
            final(self).well_formed(),
            final(self).own_name() == old(self).own_name(),
            final(self).known() == after_intro(old(self).known(), node_id@, reply@),
            match intro_result(reply@) {
                Ok(name) => r matches Ok(s) && s@ == name,
                Err(e) => r == Err::<String, ProtocolError>(e),
            },
    {
        match reply {
            Incoming::Message(ProtocolMessage::IntroResponse { name }) => {
                self.known_nodes.upsert(node_id, name.clone());
                Ok(name)
            },
            Incoming::Message(_) => Err(ProtocolError::UnexpectedResponse),
            Incoming::Malformed => Err(ProtocolError::Malformed),
            Incoming::Failed => Err(ProtocolError::Transport),
            Incoming::Closed => Err(ProtocolError::RemoteAborted),
        }
    }

    /// Starts sending a file to `node_id`: refused, before anything is
    /// published or sent, unless the peer has been introduced.
    pub fn send_file(&self, node_id: &NodeId, file_name: String) -> (r: Result<
        PendingSend,
        ProtocolError,
    >)
        requires
            self.well_formed(),
        ensures
            if self.known().contains_key(node_id@) {
                r matches Ok(p) && p.to@ == node_id@ && p.file_name@ == file_name@
            } else {
                r matches Err(ProtocolError::UnknownNode)
            },
    {
        if self.known_nodes.contains(node_id) {
            Ok(PendingSend { to: *node_id, file_name })
        } else {
            Err(ProtocolError::UnknownNode)
        }
    }

    /// Handles what was read from `peer` on an inbound stream.
    pub fn accept(&mut self, peer: &NodeId, incoming: Incoming) -> (r: InboundAction)
        requires
            old(self).well_formed(),
        ensures
            final(self).well_formed(),
            final(self).own_name() == old(self).own_name(),
            final(self).known() == after_inbound(old(self).known(), peer@, incoming@),
            r@ == inbound_action(old(self).known(), old(self).own_name(), peer@, incoming@),
    {
        match incoming {
            Incoming::Message(ProtocolMessage::IntroRequest { name }) => {
                self.known_nodes.upsert(*peer, name);
                InboundAction::Reply(ProtocolMessage::IntroResponse { name: self.name.clone() })
            },
            Incoming::Message(ProtocolMessage::IntroResponse { name }) => {
                self.known_nodes.upsert(*peer, name);
                InboundAction::Continue
            },
            Incoming::Message(ProtocolMessage::SendRequest { name, hash, size }) => {
                if self.known_nodes.contains(peer) {
                    InboundAction::Download(DownloadRequest { from: *peer, name, hash, size })
                } else {
                    InboundAction::Continue
                }
            },
            Incoming::Message(ProtocolMessage::Finish) => InboundAction::Drain,
            Incoming::Malformed => InboundAction::Continue,
            Incoming::Failed => InboundAction::Drain,
            Incoming::Closed => InboundAction::Drain,
        }
    }
}

/// Whether a peer last seen `secs` seconds and `nanos` nanoseconds ago is
/// fresh enough to be introduced by a scan: at most 60 seconds ago.
pub fn is_fresh(secs: u64, nanos: u32) -> (r: bool)
    requires
        nanos < 1_000_000_000,
    ensures
        r == (secs as int * 1_000_000_000 + nanos as int <= FRESHNESS_WINDOW_SECS as int
            * 1_000_000_000),
{
    secs < FRESHNESS_WINDOW_SECS || (secs == FRESHNESS_WINDOW_SECS && nanos == 0)
}

/// A peer as a discovery scan reports it, through one of its sources.
#[derive(Debug, Clone, Copy)]
pub struct Sighting {
    pub node: NodeId,
    /// Whether the source is local-network discovery.
    pub local: bool,
    /// How long ago the source last saw the peer.
    pub secs: u64,
    pub nanos: u32,
}

/// Whether a sighting asks for an introduction: seen by local discovery within
/// the window.
pub open spec fn wanted(s: Sighting) -> bool {
    s.local && s.secs as int * 1_000_000_000 + s.nanos as int <= FRESHNESS_WINDOW_SECS as int
        * 1_000_000_000
}

/// The identities of the sightings that ask for an introduction, in order.
pub open spec fn scan_targets_spec(sightings: Seq<Sighting>) -> Seq<Seq<u8>>
    decreases sightings.len(),
{
    if sightings.len() == 0 {
        Seq::empty()
    } else {
        let front = scan_targets_spec(sightings.drop_last());
        if wanted(sightings.last()) {
            front.push(sightings.last().node@)
        } else {
            front
        }
    }
}

/// The peers that a discovery scan introduces, one for each sighting that
/// asks for it, in the order of the sightings.
pub fn scan_targets(sightings: &Vec<Sighting>) -> (r: Vec<NodeId>)
    requires
        forall|i: int| 0 <= i < sightings@.len() ==> sightings@[i].nanos < 1_000_000_000,
    ensures
        r@.map_values(|n: NodeId| n@) == scan_targets_spec(sightings@),
{
    let mut out: Vec<NodeId> = Vec::new();
    let mut i: usize = 0;
    while i < sightings.len()
        invariant
            i <= sightings@.len(),
            forall|j: int| 0 <= j < sightings@.len() ==> sightings@[j].nanos < 1_000_000_000,
            out@.map_values(|n: NodeId| n@) == scan_targets_spec(sightings@.take(i as int)),
        decreases sightings@.len() - i,
    {
        let s = sightings[i];
        assert(sightings@.take(i as int + 1).drop_last() =~= sightings@.take(i as int));
        if s.local && is_fresh(s.secs, s.nanos) {
            out.push(s.node);
            assert(out@.map_values(|n: NodeId| n@) =~= scan_targets_spec(sightings@.take(i as int)).push(s.node@));
        }
        i = i + 1;
    }
    assert(sightings@.take(sightings@.len() as int) =~= sightings@);
    out
}

/// A message written as a frame is read back as that message, whatever
/// follows it on the stream and whether or not the stream has ended.
pub proof fn lemma_read_what_was_written(m: MessageView, rest: Seq<u8>, at_end: bool)
    requires
        m.well_formed(),
        message_bytes(m).len() <= MAX_FRAME_LEN,
    ensures
        incoming_from(frame_bytes(message_bytes(m)) + rest, at_end) == Some(
            IncomingView::Message(m),
        ),
{
    lemma_frame_round_trip(message_bytes(m), rest);
    lemma_message_round_trip(m);
}

/// A file offer from a peer that was never introduced gets no reply, no
/// download and no event, and leaves the registry as it was.
pub proof fn lemma_unknown_sender_dropped(
    known: Map<Seq<u8>, Seq<char>>,
    own: Seq<char>,
    peer: Seq<u8>,
    name: Seq<char>,
    hash: Seq<u8>,
    size: u64,
)
    requires
        !known.contains_key(peer),
    ensures
        ({
            let offer = IncomingView::Message(MessageView::SendRequest { name, hash, size });
            &&& inbound_action(known, own, peer, offer) == InboundView::Continue
            &&& after_inbound(known, peer, offer) == known
        }),
{
}

/// Introducing the same peer twice succeeds twice, and the registry ends as if
/// only the second introduction had been made.
pub proof fn lemma_introduce_twice(
    known: Map<Seq<u8>, Seq<char>>,
    peer: Seq<u8>,
    first: Seq<char>,
    second: Seq<char>,
)
    ensures
        ({
            let r1 = IncomingView::Message(MessageView::IntroResponse { name: first });
            let r2 = IncomingView::Message(MessageView::IntroResponse { name: second });
            &&& intro_result(r1) == Ok::<Seq<char>, ProtocolError>(first)
            &&& intro_result(r2) == Ok::<Seq<char>, ProtocolError>(second)
            &&& after_intro(after_intro(known, peer, r1), peer, r2) == known.insert(peer, second)
        }),
{
    lemma_last_write_wins(known, peer, first, second);
}

} // verus!
