//! The wire codec: one tag byte followed by a variant-specific body.

use vstd::prelude::*;
use vstd::slice::slice_subrange;
use vstd::string::*;
use vstd::utf8::*;

verus! {

/// Tag of `Message::NameAssignment`.
pub const TAG_NAME_ASSIGNMENT: u8 = 0;

/// Tag of `Message::ChatMessage`.
pub const TAG_CHAT_MESSAGE: u8 = 64;

/// Tag of `Message::ChatMessageError`.
pub const TAG_CHAT_MESSAGE_ERROR: u8 = 65;

/// Tag of `Message::NameChangeRequest`.
pub const TAG_NAME_CHANGE_REQUEST: u8 = 128;

/// Tag of `Message::NameChangeApproval`.
pub const TAG_NAME_CHANGE_APPROVAL: u8 = 129;

/// Tag of `Message::NameChangeDenial`.
pub const TAG_NAME_CHANGE_DENIAL: u8 = 130;

/// Tag of `Message::Disconnect`.
pub const TAG_DISCONNECT: u8 = 255;

/// One protocol message.
#[derive(Debug, Clone, PartialEq, Eq)]
pub enum Message {
    /// Server to client: the name given on connect.
    NameAssignment(String),
    /// Both ways: a chat line.
    ChatMessage(String),
    /// Server to client: a malformed chat line (error code).
    ChatMessageError(u8),
    /// Client to server: a requested new name.
    NameChangeRequest(String),
    /// Server to client: the rename was accepted.
    NameChangeApproval,
    /// Server to client: the rename was rejected (reason code).
    NameChangeDenial(u8),
    /// Both ways: the connection ends.
    Disconnect,
}

/// The mathematical value of a `Message`: its text fields as characters.
pub enum MessageView {
    NameAssignment(Seq<char>),
    ChatMessage(Seq<char>),
    ChatMessageError(u8),
    NameChangeRequest(Seq<char>),
    NameChangeApproval,
    NameChangeDenial(u8),
    Disconnect,
}

impl View for Message {
    type V = MessageView;

    open spec fn view(&self) -> MessageView {
        match self {
            Message::NameAssignment(s) => MessageView::NameAssignment(s@),
            Message::ChatMessage(s) => MessageView::ChatMessage(s@),
            Message::ChatMessageError(e) => MessageView::ChatMessageError(*e),
            Message::NameChangeRequest(s) => MessageView::NameChangeRequest(s@),
            Message::NameChangeApproval => MessageView::NameChangeApproval,
            Message::NameChangeDenial(r) => MessageView::NameChangeDenial(*r),
            Message::Disconnect => MessageView::Disconnect,
        }
    }
}

/// The tag byte of each variant.
pub open spec fn tag_of(m: MessageView) -> u8 {
    match m {
        MessageView::NameAssignment(_) => TAG_NAME_ASSIGNMENT,
        MessageView::ChatMessage(_) => TAG_CHAT_MESSAGE,
        MessageView::ChatMessageError(_) => TAG_CHAT_MESSAGE_ERROR,
        MessageView::NameChangeRequest(_) => TAG_NAME_CHANGE_REQUEST,
        MessageView::NameChangeApproval => TAG_NAME_CHANGE_APPROVAL,
        MessageView::NameChangeDenial(_) => TAG_NAME_CHANGE_DENIAL,
        MessageView::Disconnect => TAG_DISCONNECT,
    }
}

/// The bytes after the tag: UTF-8 text with no terminator, one code byte, or nothing.
pub open spec fn body_of(m: MessageView) -> Seq<u8> {
    match m {
        MessageView::NameAssignment(s) => encode_utf8(s),
        MessageView::ChatMessage(s) => encode_utf8(s),
        MessageView::ChatMessageError(e) => seq![e],
        MessageView::NameChangeRequest(s) => encode_utf8(s),
        MessageView::NameChangeApproval => Seq::empty(),
        MessageView::NameChangeDenial(r) => seq![r],
        MessageView::Disconnect => Seq::empty(),
    }
}

/// The encoding of a message: its tag, then its body.
pub open spec fn encode(m: MessageView) -> Seq<u8> {
    seq![tag_of(m)] + body_of(m)
}

/// Whether `t` is the tag of a variant whose body is text.
pub open spec fn is_text_tag(t: u8) -> bool {
    t == TAG_NAME_ASSIGNMENT || t == TAG_CHAT_MESSAGE || t == TAG_NAME_CHANGE_REQUEST
}

/// Whether `t` is the tag of a variant whose body is one code byte.
pub open spec fn is_code_tag(t: u8) -> bool {
    t == TAG_CHAT_MESSAGE_ERROR || t == TAG_NAME_CHANGE_DENIAL
}

/// Whether `t` is the tag of a variant with an empty body.
pub open spec fn is_empty_tag(t: u8) -> bool {
    t == TAG_NAME_CHANGE_APPROVAL || t == TAG_DISCONNECT
}

/// Whether `t` is the tag of some variant.
pub open spec fn is_known_tag(t: u8) -> bool {
    is_text_tag(t) || is_code_tag(t) || is_empty_tag(t)
}

/// The message that a payload holds, or `None` when the payload is malformed:
/// empty, an unknown tag, a text body that is not UTF-8, or a body of the
/// wrong length for its variant.
pub open spec fn decode(b: Seq<u8>) -> Option<MessageView> {
    if b.len() == 0 {
        None
    } else {
        let t = b[0];
        let body = b.drop_first();
        if is_text_tag(t) {
            if !valid_utf8(body) {
                None
            } else if t == TAG_NAME_ASSIGNMENT {
                Some(MessageView::NameAssignment(decode_utf8(body)))
            } else if t == TAG_CHAT_MESSAGE {
                Some(MessageView::ChatMessage(decode_utf8(body)))
            } else {
                Some(MessageView::NameChangeRequest(decode_utf8(body)))
            }
        } else if is_code_tag(t) {
            if body.len() != 1 {
                None
            } else if t == TAG_CHAT_MESSAGE_ERROR {
                Some(MessageView::ChatMessageError(body[0]))
            } else {
                Some(MessageView::NameChangeDenial(body[0]))
            }
        } else if is_empty_tag(t) {
            if body.len() != 0 {
                None
            } else if t == TAG_NAME_CHANGE_APPROVAL {
                Some(MessageView::NameChangeApproval)
            } else {
                Some(MessageView::Disconnect)
            }
        } else {
            None
        }
    }
}

/// Relies on `std::str::from_utf8`: it succeeds exactly on well-formed UTF-8,
/// and the text it returns is made of those very bytes.
#[verifier::external_body]
fn utf8_text<'a>(b: &'a [u8]) -> (r: Option<&'a str>)
    ensures
        r is Some <==> valid_utf8(b@),
        r is Some ==> encode_utf8(r->Some_0@) == b@,
{
    match std::str::from_utf8(b) {
        Ok(s) => Some(s),
        Err(_) => None,
    }
}

/// Decodes a text body into an owned string.
fn text_body(b: &[u8]) -> (r: Option<String>)
    ensures
        r is Some <==> valid_utf8(b@),
        r is Some ==> r->Some_0@ == decode_utf8(b@),
{
    match utf8_text(b) {
        Some(s) => {
            proof {
                encode_utf8_decode_utf8(s@);
            }
            Some(String::from_str(s))
        },
        None => None,
    }
}

/// Appends every byte of `src` to `dst`.
fn push_all(dst: &mut Vec<u8>, src: &[u8])
    ensures
        final(dst)@ == old(dst)@ + src@,
{
    let mut i: usize = 0;
    while i < src.len()
        invariant
            0 <= i <= src@.len(),
            dst@ == old(dst)@ + src@.subrange(0, i as int),
        decreases src@.len() - i,
    {
        dst.push(src[i]);
        i = i + 1;
        assert(src@.subrange(0, i as int) == src@.subrange(0, i - 1) + seq![src@[i - 1]]);
    }
    assert(src@.subrange(0, src@.len() as int) == src@);
}

impl Message {
    /// The tag byte of this message's variant.
    pub fn message_type(&self) -> (r: u8)
        ensures
            r == tag_of(self@),
    {
        match self {
            Message::NameAssignment(_) => TAG_NAME_ASSIGNMENT,
            Message::ChatMessage(_) => TAG_CHAT_MESSAGE,
            Message::ChatMessageError(_) => TAG_CHAT_MESSAGE_ERROR,
            Message::NameChangeRequest(_) => TAG_NAME_CHANGE_REQUEST,
            Message::NameChangeApproval => TAG_NAME_CHANGE_APPROVAL,
            Message::NameChangeDenial(_) => TAG_NAME_CHANGE_DENIAL,
            Message::Disconnect => TAG_DISCONNECT,
        }
    }

    /// Decodes one payload; `None` exactly when the payload is malformed.
    pub fn from_bytes(msg: &[u8]) -> (r: Option<Message>)
        ensures
            r is None <==> decode(msg@) is None,
            r is Some ==> decode(msg@) == Some(r->Some_0@),
    {
        if msg.len() == 0 {
            return None;
        }
        let t = msg[0];
        let body = slice_subrange(msg, 1, msg.len());
        assert(body@ == msg@.drop_first());
        if t == TAG_NAME_ASSIGNMENT {
            match text_body(body) {
                Some(s) => Some(Message::NameAssignment(s)),
                None => None,
            }
        } else if t == TAG_CHAT_MESSAGE {
            match text_body(body) {
                Some(s) => Some(Message::ChatMessage(s)),
                None => None,
            }
        } else if t == TAG_NAME_CHANGE_REQUEST {
            match text_body(body) {
                Some(s) => Some(Message::NameChangeRequest(s)),
                None => None,
            }
        } else if t == TAG_CHAT_MESSAGE_ERROR {
            if body.len() == 1 {
                Some(Message::ChatMessageError(body[0]))
            } else {
                None
            }
        } else if t == TAG_NAME_CHANGE_DENIAL {
            if body.len() == 1 {
                Some(Message::NameChangeDenial(body[0]))
            } else {
                None
            }
        } else if t == TAG_NAME_CHANGE_APPROVAL {
            if body.len() == 0 {
                Some(Message::NameChangeApproval)
            } else {
                None
            }
        } else if t == TAG_DISCONNECT {
            if body.len() == 0 {
                Some(Message::Disconnect)
            } else {
                None
            }
        } else {
            None
        }
    }

    /// Encodes this message as one payload.
    pub fn to_bytes(&self) -> (r: Vec<u8>)
        ensures
            r@ == encode(self@),
    {
        let mut bytes: Vec<u8> = Vec::new();
        bytes.push(self.message_type());
        match self {
            Message::NameAssignment(s) => push_all(&mut bytes, s.as_str().as_bytes()),
            Message::ChatMessage(s) => push_all(&mut bytes, s.as_str().as_bytes()),
            Message::ChatMessageError(e) => bytes.push(*e),
            Message::NameChangeRequest(s) => push_all(&mut bytes, s.as_str().as_bytes()),
            Message::NameChangeApproval => {},
            Message::NameChangeDenial(r) => bytes.push(*r),
            Message::Disconnect => {},
        }
        assert(bytes@ =~= encode(self@));
        bytes
    }
}

/// Decoding an encoded message gives the message back, for every variant.
pub proof fn lemma_decode_encode(m: MessageView)
    ensures
        decode(encode(m)) == Some(m),
{
    broadcast use encode_utf8_valid_utf8, encode_utf8_decode_utf8;

    assert(encode(m).drop_first() =~= body_of(m));
}

/// Malformed payloads decode to nothing: an empty one, an unknown tag, text
/// that is not UTF-8, and a body of the wrong length for a code-byte or an
/// empty variant.
pub proof fn lemma_decode_rejects(b: Seq<u8>)
    ensures
        b.len() == 0 ==> decode(b) is None,
        b.len() > 0 && !is_known_tag(b[0]) ==> decode(b) is None,
        b.len() > 0 && is_text_tag(b[0]) && !valid_utf8(b.drop_first()) ==> decode(b) is None,
        b.len() > 0 && is_code_tag(b[0]) && b.len() != 2 ==> decode(b) is None,
        b.len() > 0 && is_empty_tag(b[0]) && b.len() != 1 ==> decode(b) is None,
{
}

} // verus!
