//! The payload sum type carried between client and server, and the rule that
//! renders a payload into the display string kept in the message history.

use vstd::prelude::*;

verus! {

/// One chat payload. The declaration order is the wire discriminator order.
pub enum Message {
    /// UTF-8 chat text.
    Text(String),
    /// Named binary attachment; the name is the sender's originating path.
    File(String, Vec<u8>),
    /// Unnamed binary image; the recipient assigns a name.
    Image(Vec<u8>),
    /// Authentication request: username, password.
    Login(String, String),
    /// Account creation request: username, password.
    Signup(String, String),
    /// Change the caller's own password.
    Passwd(String),
    /// Client-initiated session termination.
    Quit,
}

/// The mathematical value of a [`Message`]: the same variants over sequences.
#[verifier::ext_equal]
pub enum MsgView {
    Text(Seq<char>),
    File(Seq<char>, Seq<u8>),
    Image(Seq<u8>),
    Login(Seq<char>, Seq<char>),
    Signup(Seq<char>, Seq<char>),
    Passwd(Seq<char>),
    Quit,
}

impl View for Message {
    type V = MsgView;

    open spec fn view(&self) -> MsgView {
        match self {
            Message::Text(t) => MsgView::Text(t@),
            Message::File(n, b) => MsgView::File(n@, b@),
            Message::Image(b) => MsgView::Image(b@),
            Message::Login(u, p) => MsgView::Login(u@, p@),
            Message::Signup(u, p) => MsgView::Signup(u@, p@),
            Message::Passwd(p) => MsgView::Passwd(p@),
            Message::Quit => MsgView::Quit,
        }
    }
}

impl MsgView {
    /// A content payload is one that an authenticated session persists and
    /// broadcasts; the remaining variants are control messages.
    pub open spec fn is_content(self) -> bool {
        self matches MsgView::Text(_) || self matches MsgView::File(_, _) || self
            matches MsgView::Image(_)
    }

    /// The display string under which a content payload enters the history.
    pub open spec fn display_string(self) -> Seq<char>
        recommends
            self.is_content(),
    {
        match self {
            MsgView::Text(t) => t,
            MsgView::File(n, _) => "[Shared file "@ + n + "]"@,
            MsgView::Image(_) => "[Shared an image]"@,
            _ => Seq::empty(),
        }
    }
}

impl Message {
    /// Whether this payload is persisted and broadcast when an authenticated
    /// user sends it.
    pub fn is_content(&self) -> (r: bool)
        ensures
            r == self@.is_content(),
    {
        match self {
            Message::Text(_) => true,
            Message::File(_, _) => true,
            Message::Image(_) => true,
            _ => false,
        }
    }

    /// A field-wise copy with the same value.
    pub fn duplicate(&self) -> (r: Message)
        ensures
            r@ == self@,
    {
        match self {
            Message::Text(t) => Message::Text(t.clone()),
            Message::File(n, b) => {
                let b2 = b.clone();
                proof {
                    assert(b2@ =~= b@);
                }
                Message::File(n.clone(), b2)
            },
            Message::Image(b) => {
                let b2 = b.clone();
                proof {
                    assert(b2@ =~= b@);
                }
                Message::Image(b2)
            },
            Message::Login(u, p) => Message::Login(u.clone(), p.clone()),
            Message::Signup(u, p) => Message::Signup(u.clone(), p.clone()),
            Message::Passwd(p) => Message::Passwd(p.clone()),
            Message::Quit => Message::Quit,
        }
    }

    /// Render a content payload into the display string stored in the history;
    /// control payloads render to `None` and are never persisted.
    pub fn render(&self) -> (r: Option<String>)
        ensures
            r is Some <==> self@.is_content(),
            r matches Some(s) ==> s@ == self@.display_string(),
    {
        match self {
            Message::Text(t) => Some(t.clone()),
            Message::File(n, _) => {
                let mut s = String::from_str("[Shared file ");
                s.append(n.as_str());
                s.append("]");
                Some(s)
            },
            Message::Image(_) => Some(String::from_str("[Shared an image]")),
            _ => None,
        }
    }
}

} // verus!
