//! The chat client's session rules: what a typed line does, and what a frame
//! from the server does to the local name state. The caller sends what is to
//! be sent and shows what is to be shown.

use vstd::prelude::*;
use vstd::string::*;
use crate::messages::{Message, MessageView};
use crate::server::ProtocolError;

verus! {

/// `str::trim` of a text: without its leading and trailing whitespace.
pub uninterp spec fn trim_of(s: Seq<char>) -> Seq<char>;

/// Relies on `str::trim`: it drops leading and trailing whitespace, and its
/// result depends on the text alone.
#[verifier::external_body]
fn trimmed(s: &str) -> (r: String)
    ensures
        r@ == trim_of(s@),
{
    s.trim().to_string()
}

/// Whether `s` begins with `p`.
pub open spec fn has_prefix(s: Seq<char>, p: Seq<char>) -> bool {
    p.len() <= s.len() && s.subrange(0, p.len() as int) == p
}

/// Whether `s` begins with `p`.
pub fn starts_with(s: &str, p: &str) -> (r: bool)
    ensures
        r == has_prefix(s@, p@),
{
    let n = p.unicode_len();
    if s.unicode_len() < n {
        return false;
    }
    let mut i: usize = 0;
    while i < n
        invariant
            n == p@.len(),
            n <= s@.len(),
            0 <= i <= n,
            forall|k: int| 0 <= k < i ==> s@[k] == p@[k],
        decreases n - i,
    {
        if s.get_char(i) != p.get_char(i) {
            assert(s@.subrange(0, n as int)[i as int] != p@[i as int]);
            return false;
        }
        i = i + 1;
    }
    assert(s@.subrange(0, n as int) =~= p@);
    true
}

/// The decimal digit `d`.
pub open spec fn digit(d: int) -> char {
    "0123456789"@[d]
}

/// The decimal form of `n`, without leading zeros.
pub open spec fn decimal(n: u8) -> Seq<char> {
    if n < 10 {
        seq![digit(n as int)]
    } else if n < 100 {
        seq![digit(n as int / 10), digit(n as int % 10)]
    } else {
        seq![digit(n as int / 100), digit((n as int / 10) % 10), digit(n as int % 10)]
    }
}

fn digit_text(d: u8) -> (r: String)
    requires
        d < 10,
    ensures
        r@ == seq![digit(d as int)],
{
    let digits = "0123456789";
    proof {
        reveal_strlit("0123456789");
    }
    let s = digits.substring_char(d as usize, d as usize + 1);
    assert(s@ =~= seq![digit(d as int)]);
    String::from_str(s)
}

/// The decimal form of `n`.
pub fn decimal_text(n: u8) -> (r: String)
    ensures
        r@ == decimal(n),
{
    if n < 10 {
        digit_text(n)
    } else if n < 100 {
        let r = digit_text(n / 10).concat(digit_text(n % 10).as_str());
        assert(r@ =~= decimal(n));
        r
    } else {
        let r = digit_text(n / 100).concat(digit_text((n / 10) % 10).as_str()).concat(
            digit_text(n % 10).as_str(),
        );
        assert(r@ =~= decimal(n));
        r
    }
}

/// What the client does in answer to one event.
pub struct Reaction {
    /// A message for the server.
    pub send: Option<Message>,
    /// A line for the user.
    pub show: Option<String>,
    /// Whether the session ends.
    pub quit: bool,
}

/// The view of an optional message.
pub open spec fn message_opt(m: Option<Message>) -> Option<MessageView> {
    match m {
        Some(x) => Some(x@),
        None => None,
    }
}

/// The view of an optional text.
pub open spec fn text_opt(s: Option<String>) -> Option<Seq<char>> {
    match s {
        Some(x) => Some(x@),
        None => None,
    }
}

impl View for Reaction {
    type V = (Option<MessageView>, Option<Seq<char>>, bool);

    open spec fn view(&self) -> (Option<MessageView>, Option<Seq<char>>, bool) {
        (message_opt(self.send), text_opt(self.show), self.quit)
    }
}

/// The client's local state: its current name, and the name it asked for
/// and has no answer about yet.
pub struct Session {
    pub name: String,
    pub pending: Option<String>,
}

/// The text after `/name ` in a line that begins with it, trimmed.
pub open spec fn requested_name(line: Seq<char>) -> Seq<char> {
    trim_of(line.subrange("/name "@.len() as int, line.len() as int))
}

impl Session {
    /// The session after the server's first frame, which must assign a name.
    pub fn start(first: Message) -> (r: Option<Session>)
        ensures
            match first@ {
                MessageView::NameAssignment(name) => r is Some && r->Some_0.name@ == name
                    && r->Some_0.pending is None,
                _ => r is None,
            },
    {
        match first {
            Message::NameAssignment(name) => Some(Session { name, pending: None }),
            _ => None,
        }
    }

    /// Asks the server for the name `requested`, which becomes pending.
    pub fn request_name(&mut self, requested: String) -> (r: Reaction)
        ensures
            final(self).name@ == old(self).name@,
            text_opt(final(self).pending) == Some(requested@),
            r@ == (
                Some(MessageView::NameChangeRequest(requested@)),
                Some("You requested new name: "@ + requested@),
                false,
            ),
    {
        let shown = String::from_str("You requested new name: ").concat(requested.as_str());
        self.pending = Some(requested.clone());
        Reaction { send: Some(Message::NameChangeRequest(requested)), show: Some(shown), quit: false }
    }

    /// A line the user typed:
    /// `/name <x>` asks for the name `x` (trimmed), `/disconnect` ends the
    /// session, another `/` command is reported as not implemented, an empty
    /// line does nothing, and any other line is sent as a chat line.
    pub fn on_line(&mut self, line: &String) -> (r: Reaction)
        ensures
            final(self).name@ == old(self).name@,
            has_prefix(line@, "/name "@) ==> {
                &&& text_opt(final(self).pending) == Some(requested_name(line@))
                &&& r@ == (
                    Some(MessageView::NameChangeRequest(requested_name(line@))),
                    Some("You requested new name: "@ + requested_name(line@)),
                    false,
                )
            },
            !has_prefix(line@, "/name "@) ==> text_opt(final(self).pending) == text_opt(
                old(self).pending,
            ),
            !has_prefix(line@, "/name "@) && has_prefix(line@, "/disconnect"@) ==> r@ == (
                Some(MessageView::Disconnect),
                Some("Disconnecting"@),
                true,
            ),
            !has_prefix(line@, "/name "@) && !has_prefix(line@, "/disconnect"@) && has_prefix(
                line@,
                "/"@,
            ) ==> r@ == (
                None::<MessageView>,
                Some("Command not implemented: "@ + line@),
                false,
            ),
            !has_prefix(line@, "/"@) && line@.len() > 0 ==> r@ == (
                Some(MessageView::ChatMessage(line@)),
                Some("(you): "@ + line@),
                false,
            ),
            line@.len() == 0 ==> r@ == (None::<MessageView>, None::<Seq<char>>, false),
    {
        proof {
            reveal_strlit("/name ");
            reveal_strlit("/disconnect");
            reveal_strlit("/");
            if has_prefix(line@, "/name "@) || has_prefix(line@, "/disconnect"@) {
                assert(line@.subrange(0, 1) =~= "/"@);
            }
        }
        let text = line.as_str();
        if starts_with(text, "/name ") {
            let rest = text.substring_char("/name ".unicode_len(), text.unicode_len());
            self.request_name(trimmed(rest))
        } else if starts_with(text, "/disconnect") {
            Reaction {
                send: Some(Message::Disconnect),
                show: Some(String::from_str("Disconnecting")),
                quit: true,
            }
        } else if starts_with(text, "/") {
            Reaction {
                send: None,
                show: Some(String::from_str("Command not implemented: ").concat(text)),
                quit: false,
            }
        } else if text.unicode_len() > 0 {
            Reaction {
                send: Some(Message::ChatMessage(line.clone())),
                show: Some(String::from_str("(you): ").concat(text)),
                quit: false,
            }
        } else {
            Reaction { send: None, show: None, quit: false }
        }
    }

    /// A message from the server, after the first. A chat line is shown; an
    /// approval makes the pending name current; a denial drops it and shows
    /// the reason; a disconnect ends the session. Anything else, and an
    /// answer with no request pending, is a protocol violation.
    pub fn on_message(&mut self, msg: Message) -> (r: Result<Reaction, ProtocolError>)
        ensures
            match (msg@, old(self).pending) {
                (MessageView::ChatMessage(s), _) => {
                    &&& r is Ok && r->Ok_0@ == (None::<MessageView>, Some(s), false)
                    &&& final(self).name@ == old(self).name@
                    &&& text_opt(final(self).pending) == text_opt(old(self).pending)
                },
                (MessageView::NameChangeApproval, Some(p)) => {
                    &&& r is Ok && r->Ok_0@ == (None::<MessageView>, Some("New name: "@ + p@), false)
                    &&& final(self).name@ == p@
                    &&& final(self).pending is None
                },
                (MessageView::NameChangeDenial(reason), Some(p)) => {
                    &&& r is Ok && r->Ok_0@ == (
                        None::<MessageView>,
                        Some("Name request ("@ + p@ + ") denied: "@ + decimal(reason) + "."@),
                        false,
                    )
                    &&& final(self).name@ == old(self).name@
                    &&& final(self).pending is None
                },
                (MessageView::Disconnect, _) => {
                    &&& r is Ok && r->Ok_0@ == (None::<MessageView>, Some("Disconnected"@), true)
                    &&& final(self).name@ == old(self).name@
                    &&& text_opt(final(self).pending) == text_opt(old(self).pending)
                },
                _ => {
                    &&& r == Err::<Reaction, ProtocolError>(ProtocolError::Unexpected)
                    &&& final(self).name@ == old(self).name@
                    &&& text_opt(final(self).pending) == text_opt(old(self).pending)
                },
            },
    {
        match msg {
            Message::ChatMessage(s) => Ok(Reaction { send: None, show: Some(s), quit: false }),
            Message::NameChangeApproval => {
                match self.pending.take() {
                    Some(p) => {
                        let shown = String::from_str("New name: ").concat(p.as_str());
                        self.name = p;
                        Ok(Reaction { send: None, show: Some(shown), quit: false })
                    },
                    None => Err(ProtocolError::Unexpected),
                }
            },
            Message::NameChangeDenial(reason) => {
                match self.pending.take() {
                    Some(p) => {
                        let shown = String::from_str("Name request (").concat(p.as_str()).concat(
                            ") denied: ",
                        ).concat(decimal_text(reason).as_str()).concat(".");
                        Ok(Reaction { send: None, show: Some(shown), quit: false })
                    },
                    None => Err(ProtocolError::Unexpected),
                }
            },
            Message::Disconnect => Ok(
                Reaction { send: None, show: Some(String::from_str("Disconnected")), quit: true },
            ),
            _ => Err(ProtocolError::Unexpected),
        }
    }
}

} // verus!
