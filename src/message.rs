//! The messages of the exchange protocol and their payload encoding: a varint
//! tag for the variant, then its fields in order, each in postcard's form.
use core::marker::PhantomData;
use vstd::prelude::*;
use vstd::utf8::*;

use crate::wire::{
    encode_digest, encode_str, encode_u32, encode_u64, lemma_str_round_trip, lemma_u32_round_trip,
    lemma_u64_round_trip, str_bytes, take_digest, take_str_spec, take_string, take_u32,
    take_u32_spec, take_u64, take_u64_spec, varint_bytes, Digest,
};

verus! {

/// One message of an exchange.
#[derive(Debug, Clone)]
pub enum ProtocolMessage {
    /// Opens an introduction; carries the name of the node that sends it.
    IntroRequest { name: String },
    /// Answers an introduction; carries the name of the node that answers.
    IntroResponse { name: String },
    /// Offers a file: its name, and the digest and size of its content.
    SendRequest { name: String, hash: Digest, size: u64 },
    /// Ends the exchange on its stream.
    Finish,
}

/// What a message holds, as plain values.
pub enum MessageView {
    IntroRequest { name: Seq<char> },
    IntroResponse { name: Seq<char> },
    SendRequest { name: Seq<char>, hash: Seq<u8>, size: u64 },
    Finish,
}

impl View for ProtocolMessage {
    type V = MessageView;

    open spec fn view(&self) -> MessageView {
        match self {
            ProtocolMessage::IntroRequest { name } => MessageView::IntroRequest { name: name@ },
            ProtocolMessage::IntroResponse { name } => MessageView::IntroResponse { name: name@ },
            ProtocolMessage::SendRequest { name, hash, size } => MessageView::SendRequest {
                name: name@,
                hash: hash@,
                size: *size,
            },
            ProtocolMessage::Finish => MessageView::Finish,
        }
    }
}

/// The tag that the encoding gives each variant.
pub const TAG_INTRO_REQUEST: u32 = 0;

pub const TAG_INTRO_RESPONSE: u32 = 1;

pub const TAG_SEND_REQUEST: u32 = 2;

pub const TAG_FINISH: u32 = 3;

/// A string that can stand in a message: its UTF-8 length fits a 64-bit length.
pub open spec fn encodable_str(s: Seq<char>) -> bool {
    encode_utf8(s).len() <= usize::MAX
}

impl MessageView {
    /// What every message built in memory satisfies: digests of 32 bytes, and
    /// names whose encoded length fits.
    pub open spec fn well_formed(self) -> bool {
        match self {
            MessageView::IntroRequest { name } => encodable_str(name),
            MessageView::IntroResponse { name } => encodable_str(name),
            MessageView::SendRequest { name, hash, size } => encodable_str(name) && hash.len()
                == 32,
            MessageView::Finish => true,
        }
    }
}

/// The payload bytes of a message.
pub open spec fn message_bytes(m: MessageView) -> Seq<u8> {
    match m {
        MessageView::IntroRequest { name } => varint_bytes(TAG_INTRO_REQUEST as nat) + str_bytes(
            name,
        ),
        MessageView::IntroResponse { name } => varint_bytes(TAG_INTRO_RESPONSE as nat) + str_bytes(
            name,
        ),
        MessageView::SendRequest { name, hash, size } => varint_bytes(TAG_SEND_REQUEST as nat)
            + str_bytes(name) + hash + varint_bytes(size as nat),
        MessageView::Finish => varint_bytes(TAG_FINISH as nat),
    }
}

/// The fields of a file offer read from `b`, which follows its tag.
pub open spec fn decode_send_request(b: Seq<u8>) -> Option<MessageView> {
    match take_str_spec(b) {
        Some((name, k)) => {
            let rest = b.skip(k as int);
            if rest.len() >= 32 {
                match take_u64_spec(rest.skip(32)) {
                    Some((size, _)) => Some(
                        MessageView::SendRequest { name, hash: rest.take(32), size: size as u64 },
                    ),
                    None => None,
                }
            } else {
                None
            }
        },
        None => None,
    }
}

/// The message that a payload holds, if any. Bytes after the message are
/// not looked at.
pub open spec fn decode_message(b: Seq<u8>) -> Option<MessageView> {
    match take_u32_spec(b) {
        Some((tag, k)) => {
            let rest = b.skip(k as int);
            if tag == TAG_INTRO_REQUEST {
                match take_str_spec(rest) {
                    Some((name, _)) => Some(MessageView::IntroRequest { name }),
                    None => None,
                }
            } else if tag == TAG_INTRO_RESPONSE {
                match take_str_spec(rest) {
                    Some((name, _)) => Some(MessageView::IntroResponse { name }),
                    None => None,
                }
            } else if tag == TAG_SEND_REQUEST {
                decode_send_request(rest)
            } else if tag == TAG_FINISH {
                Some(MessageView::Finish)
            } else {
                None
            }
        },
        None => None,
    }
}

/// The tag and the name of an introduction read back from its payload.
proof fn lemma_intro_round_trip(tag: u32, name: Seq<char>)
    requires
        encodable_str(name),
    ensures
        ({
            let b = varint_bytes(tag as nat) + str_bytes(name);
            &&& take_u32_spec(b) == Some((tag as nat, varint_bytes(tag as nat).len()))
            &&& take_str_spec(b.skip(varint_bytes(tag as nat).len() as int)) == Some(
                (name, str_bytes(name).len()),
            )
        }),
{
    let e = Seq::<u8>::empty();
    let b = varint_bytes(tag as nat) + str_bytes(name);
    lemma_u32_round_trip(tag, str_bytes(name));
    let k = varint_bytes(tag as nat).len();
    assert(b.skip(k as int) =~= str_bytes(name) + e);
    lemma_str_round_trip(name, e);
}

/// The fields of a file offer read back from the bytes after its tag.
proof fn lemma_send_request_round_trip(name: Seq<char>, hash: Seq<u8>, size: u64)
    requires
        encodable_str(name),
        hash.len() == 32,
    ensures
        decode_send_request(str_bytes(name) + hash + varint_bytes(size as nat)) == Some(
            MessageView::SendRequest { name, hash, size },
        ),
{
    let e = Seq::<u8>::empty();
    let tail = hash + varint_bytes(size as nat);
    let rest = str_bytes(name) + hash + varint_bytes(size as nat);
    assert(rest =~= str_bytes(name) + tail);
    lemma_str_round_trip(name, tail);
    let after = rest.skip(str_bytes(name).len() as int);
    assert(after =~= tail);
    assert(after.take(32) =~= hash);
    assert(after.skip(32) =~= varint_bytes(size as nat) + e);
    lemma_u64_round_trip(size as nat, e);
}

/// Every message reads back from its own payload.
pub proof fn lemma_message_round_trip(m: MessageView)
    requires
        m.well_formed(),
    ensures
        decode_message(message_bytes(m)) == Some(m),
{
    let b = message_bytes(m);
    match m {
        MessageView::IntroRequest { name } => {
            lemma_intro_round_trip(TAG_INTRO_REQUEST, name);
        },
        MessageView::IntroResponse { name } => {
            lemma_intro_round_trip(TAG_INTRO_RESPONSE, name);
        },
        MessageView::SendRequest { name, hash, size } => {
            let tail = str_bytes(name) + hash + varint_bytes(size as nat);
            lemma_u32_round_trip(TAG_SEND_REQUEST, tail);
            let k = varint_bytes(TAG_SEND_REQUEST as nat).len();
            assert(b =~= varint_bytes(TAG_SEND_REQUEST as nat) + tail);
            assert(b.skip(k as int) =~= tail);
            lemma_send_request_round_trip(name, hash, size);
        },
        MessageView::Finish => {
            lemma_u32_round_trip(TAG_FINISH, Seq::<u8>::empty());
            assert(b =~= b + Seq::<u8>::empty());
        },
    }
}

/// The codec that writes and reads message payloads. The two type parameters
/// name what it reads and what it writes.
pub struct Postcard<Item, SinkItem> {
    _marker: PhantomData<(Item, SinkItem)>,
}

/// The codec that reads and writes the same type.
pub type SymmetricalPostcard<T> = Postcard<T, T>;

impl<Item, SinkItem> Postcard<Item, SinkItem> {
    pub fn new() -> Self {
        Postcard { _marker: PhantomData }
    }
}

/// The payload of a frame did not hold a message.
#[derive(Debug, Clone, Copy, PartialEq, Eq)]
pub struct DecodeError;

impl Postcard<ProtocolMessage, ProtocolMessage> {
    /// The payload of `data`.
    pub fn serialize(&self, data: &ProtocolMessage) -> (r: Vec<u8>)
        ensures
            r@ == message_bytes(data@),
            data@.well_formed(),
    {
        match data {
            ProtocolMessage::IntroRequest { name } => {
                let _encoded_len: usize = name.as_str().as_bytes().len();
                let mut out = encode_u32(TAG_INTRO_REQUEST);
                let mut s = encode_str(name.as_str());
                out.append(&mut s);
                out
            },
            ProtocolMessage::IntroResponse { name } => {
                let _encoded_len: usize = name.as_str().as_bytes().len();
                let mut out = encode_u32(TAG_INTRO_RESPONSE);
                let mut s = encode_str(name.as_str());
                out.append(&mut s);
                out
            },
            ProtocolMessage::SendRequest { name, hash, size } => {
                let _encoded_len: usize = name.as_str().as_bytes().len();
                let mut out = encode_u32(TAG_SEND_REQUEST);
                let mut s = encode_str(name.as_str());
                let mut h = encode_digest(hash);
                let mut z = encode_u64(*size);
                out.append(&mut s);
                out.append(&mut h);
                out.append(&mut z);
                out
            },
            ProtocolMessage::Finish => encode_u32(TAG_FINISH),
        }
    }

    /// The message that the payload `src` holds; bytes after it are ignored.
    pub fn deserialize(&self, src: &[u8]) -> (r: Result<ProtocolMessage, DecodeError>)
        ensures
            match decode_message(src@) {
                Some(m) => r matches Ok(x) && x@ == m,
                None => r == Err::<ProtocolMessage, DecodeError>(DecodeError),
            },
    {
        let (tag, rest) = match take_u32(src) {
            Some(t) => t,
            None => return Err(DecodeError),
        };
        if tag == TAG_INTRO_REQUEST {
            match take_string(rest) {
                Some((name, _)) => Ok(ProtocolMessage::IntroRequest { name }),
                None => Err(DecodeError),
            }
        } else if tag == TAG_INTRO_RESPONSE {
            match take_string(rest) {
                Some((name, _)) => Ok(ProtocolMessage::IntroResponse { name }),
                None => Err(DecodeError),
            }
        } else if tag == TAG_SEND_REQUEST {
            let (name, rest) = match take_string(rest) {
                Some(t) => t,
                None => return Err(DecodeError),
            };
            let (hash, rest) = match take_digest(rest) {
                Some(t) => t,
                None => return Err(DecodeError),
            };
            match take_u64(rest) {
                Some((size, _)) => Ok(ProtocolMessage::SendRequest { name, hash, size }),
                None => Err(DecodeError),
            }
        } else if tag == TAG_FINISH {
            Ok(ProtocolMessage::Finish)
        } else {
            Err(DecodeError)
        }
    }
}

} // verus!
