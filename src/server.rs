//! The relay's rules: what the server does when a client connects, sends a
//! frame, or is lost. Each step updates the registry and returns the messages
//! to send; the caller performs the sends.

use vstd::prelude::*;
use vstd::string::*;
use crate::messages::{Message, MessageView, decode};
use crate::registry::{
    Delivery,
    Registry,
    deliveries_view,
    is_broadcast,
    taken_by_other,
    validity,
};

verus! {

/// Why a client's frame was refused.
#[derive(Debug, Clone, Copy, PartialEq, Eq, Structural)]
pub enum ProtocolError {
    /// The payload does not decode.
    Malformed,
    /// The payload decodes to a message that clients do not send.
    Unexpected,
}

/// How many refused frames a client may send before it is dropped.
pub const MAX_VIOLATIONS: u32 = 3;

/// Counts one more refused frame from a client that had sent `count`: the
/// new count, and whether the client is now to be dropped.
pub fn note_violation(count: u32) -> (r: (u32, bool))
    ensures
        r.0 == if count < u32::MAX { count + 1 } else { count as int },
        r.1 == (r.0 >= MAX_VIOLATIONS),
{
    let n = if count < u32::MAX { count + 1 } else { count };
    (n, n >= MAX_VIOLATIONS)
}

/// The announcement that `name` joined.
pub open spec fn joined_text(name: Seq<char>) -> Seq<char> {
    name + " joined"@
}

/// The announcement that `name` left.
pub open spec fn left_text(name: Seq<char>) -> Seq<char> {
    name + " disconnected"@
}

/// A chat line as relayed: the sender's name, then the text.
pub open spec fn chat_text(name: Seq<char>, text: Seq<char>) -> Seq<char> {
    name + ": "@ + text
}

/// The announcement of a rename.
pub open spec fn renamed_text(before: Seq<char>, after: Seq<char>) -> Seq<char> {
    before + " is now known as "@ + after
}

/// A client connects as `id` with the default name `name`. It is told its
/// name, every client already registered is told that it joined, and it is
/// registered. When `id` is registered already or `name` is held, the
/// connection is told to disconnect and the registry stays as it was.
pub fn handle_connect(clients: &mut Registry, id: u64, name: String) -> (r: Vec<Delivery>)
    requires
        old(clients).wf(),
    ensures
        final(clients).wf(),
        !old(clients)@.contains_key(id) && !taken_by_other(old(clients)@, id, name@) ==> {
            &&& final(clients)@ == old(clients)@.insert(id, name@)
            &&& deliveries_view(r@).len() >= 1
            &&& deliveries_view(r@)[0] == (id, MessageView::NameAssignment(name@))
            &&& is_broadcast(
                deliveries_view(r@).drop_first(),
                old(clients)@,
                MessageView::ChatMessage(joined_text(name@)),
                None,
            )
        },
        old(clients)@.contains_key(id) || taken_by_other(old(clients)@, id, name@) ==> {
            &&& final(clients)@ == old(clients)@
            &&& deliveries_view(r@) == seq![(id, MessageView::Disconnect)]
        },
{
    if clients.contains(id) || clients.name_taken(id, &name) {
        let r = vec![Delivery { to: id, message: Message::Disconnect }];
        assert(deliveries_view(r@) =~= seq![(id, MessageView::Disconnect)]);
        return r;
    }
    let mut r = vec![Delivery { to: id, message: Message::NameAssignment(name.clone()) }];
    let joined = Message::ChatMessage(name.clone().concat(" joined"));
    let mut others = clients.broadcast(&joined, None);
    let ghost ov = deliveries_view(others@);
    r.append(&mut others);
    assert(deliveries_view(r@).drop_first() =~= ov);
    let registered = clients.register(id, name);
    assert(registered is Ok);
    r
}

/// The client `id` is gone (it disconnected, or its connection failed): it
/// is removed, and the others are told that it left.
pub fn handle_lost(clients: &mut Registry, id: u64) -> (r: Vec<Delivery>)
    requires
        old(clients).wf(),
    ensures
        final(clients).wf(),
        final(clients)@ == old(clients)@.remove(id),
        old(clients)@.contains_key(id) ==> is_broadcast(
            deliveries_view(r@),
            final(clients)@,
            MessageView::ChatMessage(left_text(old(clients)@[id])),
            None,
        ),
        !old(clients)@.contains_key(id) ==> r@.len() == 0,
{
    match clients.remove(id) {
        Some(name) => {
            let left = Message::ChatMessage(name.concat(" disconnected"));
            clients.broadcast(&left, None)
        },
        None => Vec::new(),
    }
}

/// The client `from` sent the frame payload `payload`.
/// - `Disconnect`: it is removed and the others are told that it left.
/// - `ChatMessage`: the others get the text behind the sender's name.
/// - `NameChangeRequest`: on approval the sender is told so and the others
///   learn the new name; on denial the sender alone gets the reason.
/// - Anything else is refused, and the registry stays as it was.
pub fn handle_frame(clients: &mut Registry, from: u64, payload: &[u8]) -> (r: Result<
    Vec<Delivery>,
    ProtocolError,
>)
    requires
        old(clients).wf(),
        old(clients)@.contains_key(from),
    ensures
        final(clients).wf(),
        match decode(payload@) {
            None => {
                &&& r == Err::<Vec<Delivery>, ProtocolError>(ProtocolError::Malformed)
                &&& final(clients)@ == old(clients)@
            },
            Some(MessageView::Disconnect) => {
                &&& r is Ok
                &&& final(clients)@ == old(clients)@.remove(from)
                &&& is_broadcast(
                    deliveries_view(r->Ok_0@),
                    final(clients)@,
                    MessageView::ChatMessage(left_text(old(clients)@[from])),
                    None,
                )
            },
            Some(MessageView::ChatMessage(text)) => {
                &&& r is Ok
                &&& final(clients)@ == old(clients)@
                &&& is_broadcast(
                    deliveries_view(r->Ok_0@),
                    old(clients)@,
                    MessageView::ChatMessage(chat_text(old(clients)@[from], text)),
                    Some(from),
                )
            },
            Some(MessageView::NameChangeRequest(name)) => {
                &&& r is Ok
                &&& match validity(old(clients)@, from, name) {
                    Ok(_) => {
                        &&& final(clients)@ == old(clients)@.insert(from, name)
                        &&& deliveries_view(r->Ok_0@).len() >= 1
                        &&& deliveries_view(r->Ok_0@)[0] == (from, MessageView::NameChangeApproval)
                        &&& is_broadcast(
                            deliveries_view(r->Ok_0@).drop_first(),
                            final(clients)@,
                            MessageView::ChatMessage(renamed_text(old(clients)@[from], name)),
                            Some(from),
                        )
                    },
                    Err(reason) => {
                        &&& final(clients)@ == old(clients)@
                        &&& deliveries_view(r->Ok_0@) == seq![
                            (from, MessageView::NameChangeDenial(reason)),
                        ]
                    },
                }
            },
            Some(_) => {
                &&& r == Err::<Vec<Delivery>, ProtocolError>(ProtocolError::Unexpected)
                &&& final(clients)@ == old(clients)@
            },
        },
{
    let msg = match Message::from_bytes(payload) {
        Some(m) => m,
        None => {
            return Err(ProtocolError::Malformed);
        },
    };
    match msg {
        Message::Disconnect => Ok(handle_lost(clients, from)),
        Message::ChatMessage(text) => {
            let name = match clients.name_of(from) {
                Some(n) => n,
                None => {
                    return Err(ProtocolError::Unexpected);
                },
            };
            let line = Message::ChatMessage(name.concat(": ").concat(text.as_str()));
            Ok(clients.broadcast(&line, Some(from)))
        },
        Message::NameChangeRequest(name) => {
            match clients.rename(from, name.clone()) {
                Ok(before) => {
                    let mut r = vec![Delivery { to: from, message: Message::NameChangeApproval }];
                    let note = Message::ChatMessage(
                        before.concat(" is now known as ").concat(name.as_str()),
                    );
                    let mut others = clients.broadcast(&note, Some(from));
                    let ghost ov = deliveries_view(others@);
                    r.append(&mut others);
                    assert(deliveries_view(r@).drop_first() =~= ov);
                    Ok(r)
                },
                Err(reason) => {
                    let r = vec![Delivery { to: from, message: Message::NameChangeDenial(reason) }];
                    assert(deliveries_view(r@) =~= seq![(from, MessageView::NameChangeDenial(reason))]);
                    Ok(r)
                },
            }
        },
        _ => Err(ProtocolError::Unexpected),
    }
}

} // verus!
