//! Framing of the messages that clients send: one tag byte, one length byte,
//! then exactly that many content bytes.
use vstd::prelude::*;

verus! {

/// The kind of a message, given by its tag byte.
#[derive(Debug, Clone, Copy, PartialEq, Eq, Structural)]
pub enum MessageType {
    Init,
    Message,
}

/// One decoded message.
#[derive(Debug)]
pub struct DechibMessage {
    pub message_type: MessageType,
    pub message_size: usize,
    pub message_content: Vec<u8>,
}

/// Why a buffer could not be decoded as a message.
#[derive(Debug, Clone, Copy, PartialEq, Eq, Structural)]
pub enum MessageError {
    /// The buffer is empty.
    MissingType,
    /// The tag byte is neither `I` nor `M`.
    UnknownType,
    /// The buffer ends right after the tag byte.
    MissingSize,
}

pub const INIT_TAG: u8 = 0x49;

pub const MESSAGE_TAG: u8 = 0x4D;

/// The message type that a tag byte stands for, if any.
pub open spec fn tag_type(tag: u8) -> Option<MessageType> {
    if tag == INIT_TAG {
        Some(MessageType::Init)
    } else if tag == MESSAGE_TAG {
        Some(MessageType::Message)
    } else {
        None
    }
}

/// The first `size` bytes of `rest`, padded with zeros up to `size`.
pub open spec fn padded_content(rest: Seq<u8>, size: nat) -> Seq<u8> {
    Seq::new(size, |i: int| if i < rest.len() { rest[i] } else { 0u8 })
}

/// The outcome of reading a length byte and its content at `start`.
pub open spec fn framed_from(
    bytes: Seq<u8>,
    start: int,
    message_type: MessageType,
) -> Result<(MessageType, nat, Seq<u8>), MessageError> {
    if start < bytes.len() {
        let size = bytes[start] as nat;
        Ok((message_type, size, padded_content(bytes.subrange(start + 1, bytes.len() as int), size)))
    } else {
        Err(MessageError::MissingSize)
    }
}

/// The outcome of decoding a whole buffer.
pub open spec fn decoded(bytes: Seq<u8>) -> Result<(MessageType, nat, Seq<u8>), MessageError> {
    if bytes.len() == 0 {
        Err(MessageError::MissingType)
    } else {
        match tag_type(bytes[0]) {
            Some(t) => framed_from(bytes, 1, t),
            None => Err(MessageError::UnknownType),
        }
    }
}

impl DechibMessage {
    /// The message as a triple of plain values.
    pub open spec fn spec_parts(&self) -> (MessageType, nat, Seq<u8>) {
        (self.message_type, self.message_size as nat, self.message_content@)
    }

    /// Reads the length byte at `*start` and the content after it. On success
    /// `*start` ends after the last content byte read; bytes beyond the
    /// declared length are left for the next message.
    pub fn from_message_type(
        bytes: &[u8],
        start: &mut usize,
        message_type: MessageType,
    ) -> (r: Result<DechibMessage, MessageError>)
        requires
            *old(start) <= bytes@.len(),
        ensures
            match (r, framed_from(bytes@, *old(start) as int, message_type)) {
                (Ok(m), Ok(parts)) => m.spec_parts() == parts,
                (Err(e), Err(f)) => e == f,
                _ => false,
            },
            r is Err ==> *final(start) == *old(start),
            r is Ok ==> *final(start) == vstd::math::min(
                *old(start) + 1 + bytes@[*old(start) as int],
                bytes@.len() as int,
            ),
    {
        if *start >= bytes.len() {
            return Err(MessageError::MissingSize);
        }
        let message_size = bytes[*start] as usize;
        let begin: usize = *start + 1;
        let mut message_content: Vec<u8> = Vec::new();
        let mut i: usize = begin;
        while i < bytes.len() && message_content.len() < message_size
            invariant
                begin <= i <= bytes@.len(),
                begin == *old(start) + 1,
                message_content@.len() == i - begin,
                message_content@.len() <= message_size,
                forall|k: int| 0 <= k < message_content@.len() ==> message_content@[k] == bytes@[begin + k],
            decreases bytes@.len() - i,
        {
            message_content.push(bytes[i]);
            i = i + 1;
        }
        *start = i;
        let read: usize = message_content.len();
        while message_content.len() < message_size
            invariant
                read <= message_content@.len() <= message_size,
                read == i - begin,
                read == message_size || i == bytes@.len(),
                forall|k: int| 0 <= k < read ==> message_content@[k] == bytes@[begin + k],
                forall|k: int| read <= k < message_content@.len() ==> message_content@[k] == 0u8,
            decreases message_size - message_content@.len(),
        {
            message_content.push(0u8);
        }
        let ghost rest = bytes@.subrange(begin as int, bytes@.len() as int);
        assert(message_content@ =~= padded_content(rest, message_size as nat));
        Ok(DechibMessage { message_type, message_size, message_content })
    }

    /// Decodes one message from the start of `value`.
    pub fn try_from(value: &[u8]) -> (r: Result<DechibMessage, MessageError>)
        ensures
            match (r, decoded(value@)) {
                (Ok(m), Ok(parts)) => m.spec_parts() == parts,
                (Err(e), Err(f)) => e == f,
                _ => false,
            },
    {
        if value.len() == 0 {
            return Err(MessageError::MissingType);
        }
        let mut start: usize = 1;
        let tag = value[0];
        if tag == INIT_TAG {
            Self::from_message_type(value, &mut start, MessageType::Init)
        } else if tag == MESSAGE_TAG {
            Self::from_message_type(value, &mut start, MessageType::Message)
        } else {
            Err(MessageError::UnknownType)
        }
    }
}

impl MessageError {
    /// A sentence that describes the error.
    pub fn to_string(&self) -> (r: String)
        ensures
            r@ == self.spec_text(),
    {
        match self {
            MessageError::MissingType => String::from_str("incoming message does not contain a message_type"),
            MessageError::UnknownType => String::from_str(
                "message_type is not 'I' (init_mode) or 'M' (message_mode)",
            ),
            MessageError::MissingSize => String::from_str("incoming message does not contain message_size"),
        }
    }

    pub open spec fn spec_text(&self) -> Seq<char> {
        match self {
            MessageError::MissingType => "incoming message does not contain a message_type"@,
            MessageError::UnknownType => "message_type is not 'I' (init_mode) or 'M' (message_mode)"@,
            MessageError::MissingSize => "incoming message does not contain message_size"@,
        }
    }
}

} // verus!
