//! A connection to one peer: the stream of messages that come in, and the
//! requests that wait for their responses.

use crate::bisq::correlation::ResponseExtractor;
use crate::bisq::payload::{Message, MessageVersion, NetworkEnvelope};
use crate::error::Error;
use crate::wire::{
    decode_length_delimiter, frame_of, frames_of, law_varint_round_trip,
    lemma_varint_shape_of_all, varint, varint_at, MAX_PREFIX_LEN,
};
use std::collections::{HashMap, VecDeque};
use vstd::prelude::*;

verus! {

broadcast use vstd::std_specs::hash::group_hash_axioms;

/// How many messages can wait to be sent to a peer.
pub const SEND_QUEUE_DEPTH: usize = 10;

/// The name of a connection, given to it when it is opened.
#[derive(Debug, Clone, Copy, Eq, PartialEq, Hash, Structural)]
pub struct ConnectionId(pub u128);

impl ConnectionId {
    /// A fresh name, drawn at random: `Uuid::new_v4` of the crate `uuid`,
    /// of which nothing can be said.
    #[verifier::external_body]
    pub(crate) fn new() -> ConnectionId {
        ConnectionId(uuid::Uuid::new_v4().as_u128())
    }
}

/// A request that expects a response.
pub struct Request<M: ResponseExtractor>(pub M);

/// How far the reading of the next message has come.
#[derive(Debug, PartialEq)]
pub enum MessageStreamState {
    /// The length is known, and `buf` holds what was read of the message.
    MessageInProgress { size: usize, buf: Vec<u8> },
    /// `prefix` holds what was read of the length.
    LengthInProgress { prefix: Vec<u8> },
    BetweenMessages,
    /// The bytes have come to their end between two messages.
    Empty,
    /// The bytes have ended within a message, or were no messages.
    Failed(Error),
}

/// How far the reading of the next message has come, as plain values.
pub enum Framing {
    Between,
    Length(Seq<u8>),
    Body { size: nat, got: Seq<u8> },
    /// The bytes have come to their end between two messages.
    Ended,
    /// The bytes have ended within a message, or were no messages.
    Failed(Error),
}

impl View for MessageStreamState {
    type V = Framing;

    open spec fn view(&self) -> Framing {
        match self {
            MessageStreamState::MessageInProgress { size, buf } => Framing::Body {
                size: *size as nat,
                got: buf@,
            },
            MessageStreamState::LengthInProgress { prefix } => Framing::Length(prefix@),
            MessageStreamState::BetweenMessages => Framing::Between,
            MessageStreamState::Empty => Framing::Ended,
            MessageStreamState::Failed(error) => Framing::Failed(*error),
        }
    }
}

/// What one more byte brings.
pub enum ByteOutcome {
    /// The message goes on.
    Pending,
    /// A message is complete.
    Frame(Seq<u8>),
    /// The bytes are no length.
    Broken,
}

/// The length that a finished prefix stands for, where it stands for one
/// that this machine can hold.
pub open spec fn length_of(prefix: Seq<u8>) -> Option<nat> {
    match varint_at(prefix) {
        Some((value, len)) => if value <= usize::MAX {
            Some(value)
        } else {
            None
        },
        None => None,
    }
}

impl Framing {
    /// Whether more bytes can be read: the bytes have neither ended nor
    /// failed.
    pub open spec fn is_open(self) -> bool {
        self is Between || self is Length || self is Body
    }

    /// The state after one more byte, and what the byte brought. Bytes that
    /// are no length leave the stream failed.
    pub open spec fn after_byte(self, byte: u8) -> (Framing, ByteOutcome) {
        match self {
            Framing::Ended => (Framing::Ended, ByteOutcome::Broken),
            Framing::Failed(error) => (Framing::Failed(error), ByteOutcome::Broken),
            Framing::Body { size, got } => if got.len() + 1 == size {
                (Framing::Between, ByteOutcome::Frame(got.push(byte)))
            } else {
                (Framing::Body { size, got: got.push(byte) }, ByteOutcome::Pending)
            },
            _ => {
                let prefix = match self {
                    Framing::Length(prefix) => prefix.push(byte),
                    _ => seq![byte],
                };
                if byte < 0x80 {
                    match length_of(prefix) {
                        Some(size) => if size == 0 {
                            (Framing::Between, ByteOutcome::Frame(Seq::empty()))
                        } else {
                            (Framing::Body { size, got: Seq::empty() }, ByteOutcome::Pending)
                        },
                        None => (Framing::Failed(Error::DecodeError), ByteOutcome::Broken),
                    }
                } else if prefix.len() >= MAX_PREFIX_LEN {
                    (Framing::Failed(Error::DecodeError), ByteOutcome::Broken)
                } else {
                    (Framing::Length(prefix), ByteOutcome::Pending)
                }
            },
        }
    }
}

/// What came of reading some bytes: the state, the messages that became
/// complete, and whether the bytes turned out to be no messages.
pub struct ReadModel {
    pub framing: Framing,
    pub frames: Seq<Seq<u8>>,
    pub broken: bool,
}

/// What comes of reading the first `count` of `bytes`. Nothing is read
/// beyond a byte at which the bytes turn out to be no messages.
pub open spec fn after_bytes(framing: Framing, bytes: Seq<u8>, count: nat) -> ReadModel
    decreases count,
{
    if count == 0 {
        ReadModel { framing, frames: Seq::empty(), broken: false }
    } else {
        let before = after_bytes(framing, bytes, (count - 1) as nat);
        if before.broken {
            before
        } else {
            let (framing, outcome) = before.framing.after_byte(bytes[count - 1]);
            match outcome {
                ByteOutcome::Pending => ReadModel { framing, frames: before.frames, broken: false },
                ByteOutcome::Frame(frame) => ReadModel {
                    framing,
                    frames: before.frames.push(frame),
                    broken: false,
                },
                ByteOutcome::Broken => ReadModel { framing, frames: before.frames, broken: true },
            }
        }
    }
}

/// The byte strings that some vectors hold.
pub open spec fn views(frames: Seq<Vec<u8>>) -> Seq<Seq<u8>> {
    Seq::new(frames.len(), |i: int| frames[i]@)
}

/// The messages that an envelope delivers to a node that speaks `version`,
/// in their order: none if the envelope is of another version or empty, its
/// message, or, of a bundle, what the envelopes in it deliver.
pub open spec fn delivered(envelope: NetworkEnvelope, version: i32) -> Seq<Message>
    decreases envelope,
{
    if envelope.message_version != version {
        Seq::empty()
    } else {
        match envelope.message {
            None => Seq::empty(),
            Some(Message::BundleOfEnvelopes(bundle)) => delivered_by(
                bundle.envelopes@,
                bundle.envelopes@.len(),
                version,
            ),
            Some(message) => seq![message],
        }
    }
}

/// The messages that the first `count` of some envelopes deliver.
pub open spec fn delivered_by(envelopes: Seq<NetworkEnvelope>, count: nat, version: i32) -> Seq<
    Message,
>
    decreases envelopes, count,
{
    if count == 0 || count > envelopes.len() {
        Seq::empty()
    } else {
        delivered_by(envelopes, (count - 1) as nat, version) + delivered(
            envelopes[count - 1],
            version,
        )
    }
}

/// The number of envelopes in an envelope, itself included.
pub open spec fn weight(envelope: NetworkEnvelope) -> nat
    decreases envelope,
{
    match envelope.message {
        Some(Message::BundleOfEnvelopes(bundle)) => 1 + weight_of(
            bundle.envelopes@,
            bundle.envelopes@.len(),
        ),
        _ => 1,
    }
}

/// The number of envelopes in the first `count` of some envelopes.
pub open spec fn weight_of(envelopes: Seq<NetworkEnvelope>, count: nat) -> nat
    decreases envelopes, count,
{
    if count == 0 || count > envelopes.len() {
        0
    } else {
        weight_of(envelopes, (count - 1) as nat) + weight(envelopes[count - 1])
    }
}

proof fn lemma_delivered_by_joined(
    front: Seq<NetworkEnvelope>,
    back: Seq<NetworkEnvelope>,
    count: nat,
    version: i32,
)
    requires
        count <= back.len(),
    ensures
        delivered_by(front + back, front.len() + count, version) == delivered_by(
            front,
            front.len(),
            version,
        ) + delivered_by(back, count, version),
        weight_of(front + back, front.len() + count) == weight_of(front, front.len()) + weight_of(
            back,
            count,
        ),
    decreases count,
{
    if count == 0 {
        lemma_delivered_by_start(front + back, front, front.len(), version);
        assert(delivered_by(front, front.len(), version) + Seq::<Message>::empty()
            =~= delivered_by(front, front.len(), version));
    } else {
        lemma_delivered_by_joined(front, back, (count - 1) as nat, version);
        assert((front + back)[front.len() + count - 1] == back[count - 1]);
        assert(delivered_by(front, front.len(), version) + (delivered_by(
            back,
            (count - 1) as nat,
            version,
        ) + delivered(back[count - 1], version)) =~= (delivered_by(front, front.len(), version)
            + delivered_by(back, (count - 1) as nat, version)) + delivered(
            back[count - 1],
            version,
        ));
    }
}

/// What the first envelopes deliver does not depend on those that follow.
proof fn lemma_delivered_by_start(
    whole: Seq<NetworkEnvelope>,
    start: Seq<NetworkEnvelope>,
    count: nat,
    version: i32,
)
    requires
        count <= start.len() <= whole.len(),
        forall|i: int| 0 <= i < start.len() ==> start[i] == whole[i],
    ensures
        delivered_by(whole, count, version) == delivered_by(start, count, version),
        weight_of(whole, count) == weight_of(start, count),
    decreases count,
{
    if count > 0 {
        lemma_delivered_by_start(whole, start, (count - 1) as nat, version);
    }
}

/// Once the bytes have turned out to be no messages, nothing more is read.
proof fn lemma_broken_stays(framing: Framing, bytes: Seq<u8>, at: nat, count: nat)
    requires
        at <= count,
        after_bytes(framing, bytes, at).broken,
    ensures
        after_bytes(framing, bytes, count) == after_bytes(framing, bytes, at),
    decreases count,
{
    if at < count {
        lemma_broken_stays(framing, bytes, at, (count - 1) as nat);
    }
}

/// Whether `found` is the message `frame`.
pub open spec fn holds(found: Option<Vec<u8>>, frame: Seq<u8>) -> bool {
    match found {
        Some(found) => found@ == frame,
        None => false,
    }
}

/// The state after one more byte, the message that it completed, and
/// whether it showed the bytes to be no messages.
fn take_byte(state: MessageStreamState, byte: u8) -> (next: (
    MessageStreamState,
    Option<Vec<u8>>,
    bool,
))
    ensures
        next.0@ == state@.after_byte(byte).0,
        match state@.after_byte(byte).1 {
            ByteOutcome::Pending => next.1 is None && !next.2,
            ByteOutcome::Frame(frame) => holds(next.1, frame) && !next.2,
            ByteOutcome::Broken => next.1 is None && next.2,
        },
{
    match state {
        MessageStreamState::Empty => (MessageStreamState::Empty, None, true),
        MessageStreamState::Failed(error) => (MessageStreamState::Failed(error), None, true),
        MessageStreamState::MessageInProgress { size, buf } => {
            let mut buf = buf;
            let complete = size > 0 && buf.len() == size - 1;
            buf.push(byte);
            if complete {
                (MessageStreamState::BetweenMessages, Some(buf), false)
            } else {
                (MessageStreamState::MessageInProgress { size, buf }, None, false)
            }
        },
        MessageStreamState::LengthInProgress { prefix } => {
            let mut prefix = prefix;
            prefix.push(byte);
            after_prefix(prefix, byte)
        },
        MessageStreamState::BetweenMessages => {
            let mut prefix: Vec<u8> = Vec::new();
            prefix.push(byte);
            assert(prefix@ =~= seq![byte]);
            after_prefix(prefix, byte)
        },
    }
}

/// The state after the byte `byte`, with which `prefix` ends, was read as
/// part of a length.
fn after_prefix(prefix: Vec<u8>, byte: u8) -> (next: (MessageStreamState, Option<Vec<u8>>, bool))
    ensures
        byte < 0x80 ==> match length_of(prefix@) {
            Some(size) => if size == 0 {
                next.0@ == Framing::Between && holds(next.1, Seq::empty()) && !next.2
            } else {
                next.0@ == (Framing::Body { size, got: Seq::empty() }) && next.1 is None
                    && !next.2
            },
            None => next.0@ == Framing::Failed(Error::DecodeError) && next.1 is None && next.2,
        },
        byte >= 0x80 && prefix@.len() >= MAX_PREFIX_LEN ==> next.0@ == Framing::Failed(
            Error::DecodeError,
        ) && next.1 is None && next.2,
        byte >= 0x80 && prefix@.len() < MAX_PREFIX_LEN ==> next.0@ == Framing::Length(prefix@)
            && next.1 is None && !next.2,
{
    if byte < 0x80 {
        match decode_length_delimiter(&prefix) {
            Some(size) => if size == 0 {
                (MessageStreamState::BetweenMessages, Some(Vec::new()), false)
            } else {
                (MessageStreamState::MessageInProgress { size, buf: Vec::new() }, None, false)
            },
            None => (MessageStreamState::Failed(Error::DecodeError), None, true),
        }
    } else if prefix.len() >= MAX_PREFIX_LEN {
        (MessageStreamState::Failed(Error::DecodeError), None, true)
    } else {
        (MessageStreamState::LengthInProgress { prefix }, None, false)
    }
}

/// What a stream has to give when it is asked.
#[derive(Debug, PartialEq)]
pub enum Async<T> {
    Ready(T),
    /// Nothing before more bytes are read.
    NotReady,
}

/// The messages that come in over a connection, in their order.
pub struct MessageStream {
    state: MessageStreamState,
    buffer: VecDeque<NetworkEnvelope>,
    message_version: MessageVersion,
    finished: bool,
}

impl MessageStream {
    /// How far the reading of the next message has come.
    pub closed spec fn framing(&self) -> Framing {
        self.state@
    }

    /// The envelopes that were taken in and not yet handed on.
    pub closed spec fn buffered(&self) -> Seq<NetworkEnvelope> {
        self.buffer@
    }

    /// The version that this node speaks.
    pub closed spec fn version(&self) -> i32 {
        self.message_version.0
    }

    /// Whether the end of the stream was reported.
    pub closed spec fn finished(&self) -> bool {
        self.finished
    }

    /// The messages that are still to be handed on, in their order.
    pub open spec fn pending(&self) -> Seq<Message> {
        delivered_by(self.buffered(), self.buffered().len(), self.version())
    }

    pub fn new(message_version: MessageVersion) -> (stream: MessageStream)
        ensures
            stream.framing() == Framing::Between,
            stream.buffered() == Seq::<NetworkEnvelope>::empty(),
            stream.version() == message_version.0,
            !stream.finished(),
    {
        MessageStream {
            state: MessageStreamState::BetweenMessages,
            buffer: VecDeque::new(),
            message_version,
            finished: false,
        }
    }

    /// Whether the bytes have come to their end between two messages.
    pub fn is_ended(&self) -> (ended: bool)
        ensures
            ended == (self.framing() == Framing::Ended),
    {
        match self.state {
            MessageStreamState::Empty => true,
            _ => false,
        }
    }

    /// Whether more bytes can be read: the bytes have neither ended nor
    /// failed.
    pub fn is_open(&self) -> (open: bool)
        ensures
            open == self.framing().is_open(),
    {
        match self.state {
            MessageStreamState::Empty => false,
            MessageStreamState::Failed(_) => false,
            _ => true,
        }
    }

    /// The error with which the bytes have failed, if they have.
    pub fn failure(&self) -> (failure: Option<Error>)
        ensures
            failure == match self.framing() {
                Framing::Failed(error) => Some(error),
                _ => None,
            },
    {
        match self.state {
            MessageStreamState::Failed(error) => Some(error),
            _ => None,
        }
    }

    /// Takes note that a message that was read is no envelope: no more
    /// bytes are read, and the stream fails once the messages before it are
    /// handed on.
    pub fn decode_failed(&mut self)
        ensures
            final(self).framing() == Framing::Failed(Error::DecodeError),
            final(self).buffered() == old(self).buffered(),
            final(self).version() == old(self).version(),
            final(self).finished() == old(self).finished(),
    {
        self.state = MessageStreamState::Failed(Error::DecodeError);
    }

    /// Whether the end of the stream was reported.
    pub fn is_finished(&self) -> (finished: bool)
        ensures
            finished == self.finished(),
    {
        self.finished
    }

    /// Takes in the bytes that were read from the peer, none standing for
    /// the end of the bytes, and gives the messages that they complete, each
    /// still to be decoded. It gives an error, and leaves the stream failed
    /// with it, where the bytes end in the middle of a message or turn out
    /// to be no messages. Where they end between two messages, the stream
    /// has ended.
    pub fn read(&mut self, bytes: &Vec<u8>) -> (outcome: (Vec<Vec<u8>>, Option<Error>))
        requires
            old(self).framing().is_open(),
        ensures
            final(self).buffered() == old(self).buffered(),
            final(self).version() == old(self).version(),
            final(self).finished() == old(self).finished(),
            bytes@.len() == 0 ==> outcome.0@.len() == 0 && if old(self).framing()
                == Framing::Between {
                final(self).framing() == Framing::Ended && outcome.1 == None::<Error>
            } else {
                final(self).framing() == Framing::Failed(Error::UnexpectedEof) && outcome.1
                    == Some(Error::UnexpectedEof)
            },
            bytes@.len() > 0 ==> views(outcome.0@) == after_bytes(
                old(self).framing(),
                bytes@,
                bytes@.len(),
            ).frames && final(self).framing() == after_bytes(
                old(self).framing(),
                bytes@,
                bytes@.len(),
            ).framing && outcome.1 == if after_bytes(
                old(self).framing(),
                bytes@,
                bytes@.len(),
            ).broken {
                Some(Error::DecodeError)
            } else {
                None
            },
    {
        let mut state = MessageStreamState::Empty;
        core::mem::swap(&mut state, &mut self.state);
        let mut frames: Vec<Vec<u8>> = Vec::new();
        if bytes.len() == 0 {
            let error = match state {
                MessageStreamState::BetweenMessages => None,
                _ => Some(Error::UnexpectedEof),
            };
            if error.is_some() {
                self.state = MessageStreamState::Failed(Error::UnexpectedEof);
            }
            return (frames, error);
        }
        let ghost start = state@;
        let mut broken = false;
        let mut at: usize = 0;
        assert(views(frames@) =~= after_bytes(start, bytes@, 0).frames);
        while at < bytes.len() && !broken
            invariant
                at <= bytes@.len(),
                state@ == after_bytes(start, bytes@, at as nat).framing,
                views(frames@) == after_bytes(start, bytes@, at as nat).frames,
                broken == after_bytes(start, bytes@, at as nat).broken,
            decreases bytes@.len() - at,
        {
            let ghost before = views(frames@);
            let (next, frame, bad) = take_byte(state, bytes[at]);
            state = next;
            match frame {
                Some(frame) => {
                    frames.push(frame);
                    assert(views(frames@) =~= before.push(frame@));
                },
                None => {},
            }
            broken = bad;
            at = at + 1;
        }
        proof {
            if broken {
                lemma_broken_stays(start, bytes@, at as nat, bytes@.len());
            }
        }
        self.state = state;
        let error = if broken {
            Some(Error::DecodeError)
        } else {
            None
        };
        (frames, error)
    }

    /// Takes in an envelope that was decoded from a message.
    pub fn accept(&mut self, envelope: NetworkEnvelope)
        ensures
            final(self).buffered() == old(self).buffered().push(envelope),
            final(self).pending() == old(self).pending() + delivered(
                envelope,
                old(self).version(),
            ),
            final(self).framing() == old(self).framing(),
            final(self).version() == old(self).version(),
            final(self).finished() == old(self).finished(),
    {
        proof {
            lemma_delivered_by_start(
                self.buffer@.push(envelope),
                self.buffer@,
                self.buffer@.len(),
                self.message_version.0,
            );
        }
        self.buffer.push_back(envelope);
    }

    /// The next message to hand on, if there is one. An envelope of another
    /// version is passed over, and so is an empty one. The envelopes of a
    /// bundle take its place, the first of them first.
    pub fn next_from_buffer(&mut self) -> (next: Option<Message>)
        ensures
            match next {
                Some(message) => {
                    &&& old(self).pending().len() > 0
                    &&& message == old(self).pending()[0]
                    &&& final(self).pending() == old(self).pending().skip(1)
                },
                None => old(self).pending().len() == 0 && final(self).buffered().len() == 0,
            },
            final(self).framing() == old(self).framing(),
            final(self).version() == old(self).version(),
            final(self).finished() == old(self).finished(),
    {
        let version = self.message_version.0;
        loop
            invariant
                self.pending() == old(self).pending(),
                self.framing() == old(self).framing(),
                self.version() == old(self).version(),
                self.finished() == old(self).finished(),
                version == self.version(),
            decreases weight_of(self.buffer@, self.buffer@.len()),
        {
            let ghost queue = self.buffer@;
            let envelope = match self.buffer.pop_front() {
                None => {
                    return None;
                },
                Some(envelope) => envelope,
            };
            let ghost rest = self.buffer@;
            proof {
                assert(queue =~= seq![envelope] + rest);
                lemma_delivered_by_joined(seq![envelope], rest, rest.len(), version);
                assert(delivered_by(seq![envelope], 0, version) =~= Seq::<Message>::empty());
                assert(delivered_by(seq![envelope], 1, version) =~= delivered(envelope, version));
                assert(weight_of(seq![envelope], 0) == 0);
                assert(weight_of(seq![envelope], 1) == weight(envelope));
                assert(weight_of(queue, queue.len()) == weight(envelope) + weight_of(
                    rest,
                    rest.len(),
                ));
            }
            if envelope.message_version != version {
                continue ;
            }
            match envelope.message {
                None => {
                    assert(delivered(envelope, version) + delivered_by(rest, rest.len(), version)
                        =~= delivered_by(rest, rest.len(), version));
                    continue ;
                },
                Some(Message::BundleOfEnvelopes(bundle)) => {
                    let mut inner = bundle.envelopes;
                    let ghost all = inner@;
                    assert(self.buffer@ =~= all.skip(inner@.len() as int) + rest);
                    while inner.len() > 0
                        invariant
                            inner@.len() <= all.len(),
                            inner@ == all.take(inner@.len() as int),
                            self.buffer@ == all.skip(inner@.len() as int) + rest,
                            self.framing() == old(self).framing(),
                            self.version() == old(self).version(),
                            self.finished() == old(self).finished(),
                        decreases inner.len(),
                    {
                        let last = inner.pop().unwrap();
                        self.buffer.push_front(last);
                        assert(self.buffer@ =~= all.skip(inner@.len() as int) + rest);
                        assert(inner@ =~= all.take(inner@.len() as int));
                    }
                    proof {
                        assert(all.skip(0) =~= all);
                        lemma_delivered_by_joined(all, rest, rest.len(), version);
                    }
                },
                Some(message) => {
                    proof {
                        assert((seq![message] + delivered_by(rest, rest.len(), version)).skip(1)
                            =~= delivered_by(rest, rest.len(), version));
                    }
                    return Some(message);
                },
            }
        }
    }

    /// The next message, the end of the stream, the error with which the
    /// stream has failed, or word that more bytes have to be read first. The
    /// end or the failure is reported once, after the bytes have ended or
    /// failed and every message before that was handed on.
    pub fn poll(&mut self) -> (step: Result<Async<Option<Message>>, Error>)
        requires
            !old(self).finished(),
        ensures
            match step {
                Ok(Async::Ready(Some(message))) => {
                    &&& old(self).pending().len() > 0
                    &&& message == old(self).pending()[0]
                    &&& final(self).pending() == old(self).pending().skip(1)
                    &&& !final(self).finished()
                },
                Ok(Async::Ready(None)) => {
                    &&& old(self).pending().len() == 0
                    &&& old(self).framing() == Framing::Ended
                    &&& final(self).finished()
                },
                Err(error) => {
                    &&& old(self).pending().len() == 0
                    &&& old(self).framing() == Framing::Failed(error)
                    &&& final(self).finished()
                },
                Ok(Async::NotReady) => {
                    &&& old(self).pending().len() == 0
                    &&& old(self).framing().is_open()
                    &&& !final(self).finished()
                },
            },
            final(self).framing() == old(self).framing(),
            final(self).version() == old(self).version(),
    {
        match self.next_from_buffer() {
            Some(message) => Ok(Async::Ready(Some(message))),
            None => match self.failure() {
                Some(error) => {
                    self.finished = true;
                    Err(error)
                },
                None => if self.is_ended() {
                    self.finished = true;
                    Ok(Async::Ready(None))
                } else {
                    Ok(Async::NotReady)
                },
            },
        }
    }
}

/// Where a message that came in goes.
#[derive(Debug, PartialEq)]
pub enum Delivery<W> {
    /// To the one that waits for it as the response to a request.
    Response(W, Message),
    /// To the listener of the connection.
    Listener(Message),
}

/// The connection to one peer. `W` is what stands for one that waits for
/// the response to a request.
pub struct Connection<W> {
    id: ConnectionId,
    response_channels: HashMap<i32, W>,
}

impl<W> Connection<W> {
    pub closed spec fn spec_id(&self) -> ConnectionId {
        self.id
    }

    /// Those who wait for a response, by what the response will carry.
    pub closed spec fn waiting(&self) -> Map<i32, W> {
        self.response_channels@
    }

    /// A connection under a fresh name, with nobody waiting.
    pub fn open() -> (connection: Self)
        ensures
            connection.waiting() == Map::<i32, W>::empty(),
    {
        Connection { id: ConnectionId::new(), response_channels: HashMap::new() }
    }

    /// A connection under the name given, with nobody waiting.
    pub fn with_id(id: ConnectionId) -> (connection: Self)
        ensures
            connection.spec_id() == id,
            connection.waiting() == Map::<i32, W>::empty(),
    {
        Connection { id, response_channels: HashMap::new() }
    }

    #[verifier::when_used_as_spec(spec_id)]
    pub fn id(&self) -> (id: ConnectionId)
        ensures
            id == self.spec_id(),
    {
        self.id
    }

    /// Takes a request that is about to be sent, and the one that waits for
    /// its response. It gives back one that waited for a response of the
    /// same mark, who will wait in vain. A request that carries no mark to
    /// match its response by is refused, and the one who would wait is
    /// given back.
    pub fn handle(&mut self, request: &Message, waiter: W) -> (result: Result<Option<W>, W>)
        ensures
            final(self).spec_id() == old(self).spec_id(),
            match request.correlation_id() {
                Some(id) => final(self).waiting() == old(self).waiting().insert(id.0, waiter)
                    && result == Ok::<Option<W>, W>(
                    if old(self).waiting().contains_key(id.0) {
                        Some(old(self).waiting()[id.0])
                    } else {
                        None
                    },
                ),
                None => final(self).waiting() == old(self).waiting() && result == Err::<
                    Option<W>,
                    W,
                >(waiter),
            },
    {
        match request.correlation_id() {
            Some(id) => Ok(self.response_channels.insert(id.0, waiter)),
            None => Err(waiter),
        }
    }

    /// Sends a message that came in where it belongs: to the one that waits
    /// for it, who then waits no longer, or else to the listener.
    pub fn dispatch(&mut self, msg: Message) -> (delivery: Delivery<W>)
        ensures
            final(self).spec_id() == old(self).spec_id(),
            match msg.correlation_id() {
                Some(id) => if old(self).waiting().contains_key(id.0) {
                    &&& delivery == Delivery::Response(old(self).waiting()[id.0], msg)
                    &&& final(self).waiting() == old(self).waiting().remove(id.0)
                } else {
                    &&& delivery == Delivery::<W>::Listener(msg)
                    &&& final(self).waiting() == old(self).waiting()
                },
                None => {
                    &&& delivery == Delivery::<W>::Listener(msg)
                    &&& final(self).waiting() == old(self).waiting()
                },
            },
    {
        match msg.correlation_id() {
            Some(id) => match self.response_channels.remove(&id.0) {
                Some(channel) => Delivery::Response(channel, msg),
                None => {
                    assert(self.response_channels@ =~= old(self).waiting());
                    Delivery::Listener(msg)
                },
            },
            None => Delivery::Listener(msg),
        }
    }

    /// Lets go of all who wait, when the stream of the peer has ended: no
    /// response will come to them.
    pub fn finished(&mut self)
        ensures
            final(self).spec_id() == old(self).spec_id(),
            final(self).waiting() == Map::<i32, W>::empty(),
    {
        self.response_channels.clear();
    }
}

/// What has come of reading the first `count` bytes of a framed message,
/// starting between messages.
pub open spec fn while_reading(payload: Seq<u8>, count: nat) -> ReadModel {
    let prefix = varint(payload.len());
    if count == 0 {
        ReadModel { framing: Framing::Between, frames: Seq::empty(), broken: false }
    } else if count < prefix.len() {
        ReadModel {
            framing: Framing::Length(prefix.take(count as int)),
            frames: Seq::empty(),
            broken: false,
        }
    } else if count < prefix.len() + payload.len() {
        ReadModel {
            framing: Framing::Body {
                size: payload.len(),
                got: payload.take(count - prefix.len()),
            },
            frames: Seq::empty(),
            broken: false,
        }
    } else {
        ReadModel { framing: Framing::Between, frames: seq![payload], broken: false }
    }
}

proof fn lemma_frame_read(payload: Seq<u8>, rest: Seq<u8>, count: nat)
    requires
        payload.len() <= usize::MAX,
        count <= frame_of(payload).len(),
    ensures
        after_bytes(Framing::Between, frame_of(payload) + rest, count) == while_reading(
            payload,
            count,
        ),
    decreases count,
{
    let prefix = varint(payload.len());
    let bytes = frame_of(payload) + rest;
    lemma_varint_shape_of_all(payload.len() as u64);
    if count > 0 {
        lemma_frame_read(payload, rest, (count - 1) as nat);
        let before = while_reading(payload, (count - 1) as nat);
        let byte = bytes[count - 1];
        if count <= prefix.len() {
            assert(byte == prefix[count - 1]);
            let read = match before.framing {
                Framing::Length(read) => read.push(byte),
                _ => seq![byte],
            };
            assert(read =~= prefix.take(count as int));
            if count == prefix.len() {
                assert(prefix.take(count as int) =~= prefix);
                law_varint_round_trip(payload.len() as u64, Seq::empty());
                assert(prefix + Seq::<u8>::empty() =~= prefix);
                assert(length_of(prefix) == Some(payload.len()));
                if payload.len() == 0 {
                    assert(payload =~= Seq::<u8>::empty());
                } else {
                    assert(payload.take(0) =~= Seq::<u8>::empty());
                }
            }
        } else {
            assert(byte == payload[count - 1 - prefix.len()]);
            let got = payload.take(count - 1 - prefix.len());
            assert(got.push(byte) =~= payload.take(count - prefix.len()));
            if count == prefix.len() + payload.len() {
                assert(payload.take(payload.len() as int) =~= payload);
                assert(Seq::<Seq<u8>>::empty().push(payload) =~= seq![payload]);
            }
        }
    }
}

/// A message that was framed is read back as it was: reading its frame,
/// from between messages, gives the message and nothing else, and ends
/// between messages, whatever follows the frame.
pub proof fn law_framed_message_is_read_back(payload: Seq<u8>, rest: Seq<u8>)
    requires
        payload.len() <= usize::MAX,
    ensures
        after_bytes(Framing::Between, frame_of(payload) + rest, frame_of(payload).len()) == (
        ReadModel { framing: Framing::Between, frames: seq![payload], broken: false }),
{
    lemma_varint_shape_of_all(payload.len() as u64);
    lemma_frame_read(payload, rest, frame_of(payload).len());
}

/// What comes of reading some bytes depends on no byte beyond them.
proof fn lemma_after_bytes_start(framing: Framing, bytes: Seq<u8>, other: Seq<u8>, count: nat)
    requires
        count <= bytes.len(),
        count <= other.len(),
        forall|i: int| 0 <= i < count ==> bytes[i] == other[i],
    ensures
        after_bytes(framing, bytes, count) == after_bytes(framing, other, count),
    decreases count,
{
    if count > 0 {
        lemma_after_bytes_start(framing, bytes, other, (count - 1) as nat);
    }
}

/// Reading bytes and then more bytes is reading them all: the messages of
/// the first come before those of the second.
proof fn lemma_after_bytes_joined(framing: Framing, first: Seq<u8>, second: Seq<u8>, count: nat)
    requires
        count <= second.len(),
        !after_bytes(framing, first, first.len()).broken,
    ensures
        after_bytes(framing, first + second, first.len() + count) == (ReadModel {
            framing: after_bytes(
                after_bytes(framing, first, first.len()).framing,
                second,
                count,
            ).framing,
            frames: after_bytes(framing, first, first.len()).frames + after_bytes(
                after_bytes(framing, first, first.len()).framing,
                second,
                count,
            ).frames,
            broken: after_bytes(
                after_bytes(framing, first, first.len()).framing,
                second,
                count,
            ).broken,
        }),
    decreases count,
{
    let whole = first + second;
    let done = after_bytes(framing, first, first.len());
    if count == 0 {
        lemma_after_bytes_start(framing, whole, first, first.len());
        assert(done.frames + Seq::<Seq<u8>>::empty() =~= done.frames);
    } else {
        lemma_after_bytes_joined(framing, first, second, (count - 1) as nat);
        assert(whole[first.len() + count - 1] == second[count - 1]);
        let before = after_bytes(done.framing, second, (count - 1) as nat);
        if !before.broken {
            let (_, outcome) = before.framing.after_byte(second[count - 1]);
            match outcome {
                ByteOutcome::Frame(frame) => {
                    assert((done.frames + before.frames).push(frame) =~= done.frames
                        + before.frames.push(frame));
                },
                _ => {},
            }
        }
    }
}

/// Messages that were framed one after the other are read back as they
/// were and in their order: reading their frames, from between messages,
/// gives the messages and nothing else, and ends between messages, whatever
/// follows the frames.
pub proof fn law_framed_messages_are_read_back(
    payloads: Seq<Seq<u8>>,
    count: nat,
    rest: Seq<u8>,
)
    requires
        count <= payloads.len(),
        forall|i: int| 0 <= i < count ==> (#[trigger] payloads[i]).len() <= usize::MAX,
    ensures
        after_bytes(
            Framing::Between,
            frames_of(payloads, count) + rest,
            frames_of(payloads, count).len(),
        ) == (ReadModel {
            framing: Framing::Between,
            frames: payloads.take(count as int),
            broken: false,
        }),
    decreases count,
{
    if count == 0 {
        assert(payloads.take(0) =~= Seq::<Seq<u8>>::empty());
    } else {
        let first = frames_of(payloads, (count - 1) as nat);
        let last = payloads[count - 1];
        let second = frame_of(last) + rest;
        law_framed_messages_are_read_back(payloads, (count - 1) as nat, second);
        lemma_after_bytes_start(Framing::Between, first + second, first, first.len());
        law_framed_message_is_read_back(last, rest);
        lemma_after_bytes_joined(Framing::Between, first, second, frame_of(last).len());
        assert(frames_of(payloads, count) + rest =~= first + second);
        assert(payloads.take(count - 1) + seq![last] =~= payloads.take(count as int));
    }
}

/// What envelopes deliver comes in their order: what some envelopes
/// deliver, followed by more, is what the first deliver followed by what
/// the others deliver.
pub proof fn law_delivery_keeps_the_order(
    front: Seq<NetworkEnvelope>,
    back: Seq<NetworkEnvelope>,
    version: i32,
)
    ensures
        delivered_by(front + back, (front + back).len(), version) == delivered_by(
            front,
            front.len(),
            version,
        ) + delivered_by(back, back.len(), version),
{
    lemma_delivered_by_joined(front, back, back.len(), version);
}

/// Envelopes that each hold one message, none of them a bundle, deliver
/// their messages one by one in their order.
pub proof fn law_plain_envelopes_deliver_their_messages(
    envelopes: Seq<NetworkEnvelope>,
    count: nat,
    version: i32,
)
    requires
        count <= envelopes.len(),
        forall|i: int|
            0 <= i < count ==> (#[trigger] envelopes[i]).message_version == version
                && envelopes[i].message is Some && !(envelopes[i].message->0 is BundleOfEnvelopes),
    ensures
        delivered_by(envelopes, count, version) == Seq::new(
            count,
            |i: int| envelopes[i].message->0,
        ),
    decreases count,
{
    if count > 0 {
        law_plain_envelopes_deliver_their_messages(envelopes, (count - 1) as nat, version);
        assert(delivered(envelopes[count - 1], version) == seq![envelopes[count - 1].message->0]);
        assert(delivered_by(envelopes, count, version) =~= Seq::new(
            count,
            |i: int| envelopes[i].message->0,
        ));
    } else {
        assert(delivered_by(envelopes, count, version) =~= Seq::new(
            count,
            |i: int| envelopes[i].message->0,
        ));
    }
}

/// A bundle delivers what the envelopes in it deliver: where these are
/// plain, their messages, the first of them first.
pub proof fn law_bundle_is_unwrapped_in_order(bundle: NetworkEnvelope, version: i32)
    requires
        bundle.message_version == version,
        bundle.message is Some,
        bundle.message->0 is BundleOfEnvelopes,
    ensures
        delivered(bundle, version) == delivered_by(
            bundle.message->0->BundleOfEnvelopes_0.envelopes@,
            bundle.message->0->BundleOfEnvelopes_0.envelopes@.len(),
            version,
        ),
{
}

} // verus!
