//! The per-connection session state machine. A session is unauthenticated
//! until a successful login or signup and authenticated afterwards; each
//! inbound frame maps to an exact reaction — a reply on the session's own
//! socket, a payload to publish on the bus, a state change in the store, a
//! transition of the session, or the end of the session. Envelopes received
//! from the bus are forwarded to the peer exactly when the session is
//! authenticated and did not publish them itself.

use vstd::prelude::*;

use crate::bus::EnvelopeV;
use crate::bus::Envelope;
use crate::message::{Message, MsgView};
use crate::store::{
    auth_decision, spec_digest, spec_user_by_id, spec_user_by_name, public_view, User, UserError,
    UserStore, UserV,
};

verus! {

/// What the runtime must do after one inbound frame was handled.
pub struct Reaction {
    /// Send this payload back to the session's own peer.
    pub reply: Option<Message>,
    /// Publish this payload on the bus, tagged with the session's endpoint.
    pub publish: Option<Message>,
    /// End the session.
    pub end: bool,
}

/// The value of a session: its endpoint and, once authenticated, its user.
#[verifier::ext_equal]
pub struct SessionV {
    pub peer: u64,
    pub logged_user: Option<UserV>,
}

/// One session's state.
pub struct UserSession {
    /// The token under which the runtime knows this connection's peer.
    pub peer: u64,
    /// Present exactly in the authenticated state.
    pub logged_user: Option<User>,
}

impl View for UserSession {
    type V = SessionV;

    open spec fn view(&self) -> SessionV {
        SessionV {
            peer: self.peer,
            logged_user: match self.logged_user {
                Some(u) => Some(u@),
                None => None,
            },
        }
    }
}

/// The reply carries exactly the given text.
pub open spec fn reply_is(r: Reaction, t: Seq<char>) -> bool {
    &&& r.reply matches Some(m) && m@ == MsgView::Text(t)
}

/// What a session forwards to its peer when an envelope arrives from the
/// bus: the payload, exactly when the session is authenticated and the
/// envelope came from some other endpoint.
pub open spec fn spec_deliver(s: SessionV, env: EnvelopeV) -> Option<MsgView> {
    if s.logged_user is Some && env.from != s.peer {
        Some(env.message)
    } else {
        None
    }
}

fn text_msg(s: &str) -> (r: Message)
    ensures
        r@ == MsgView::Text(s@),
{
    Message::Text(String::from_str(s))
}

impl UserSession {
    /// A fresh, unauthenticated session for a connection.
    pub fn new(peer: u64) -> (r: UserSession)
        ensures
            r@ == (SessionV { peer, logged_user: None }),
    {
        UserSession { peer, logged_user: None }
    }

    /// React to one inbound frame. Unauthenticated sessions accept only
    /// `Login` and `Signup` and refuse everything else with a permission
    /// reply; authenticated sessions are handled by
    /// [`UserSession::process_message_from_authenticated_client`].
    pub fn handle_frame(&mut self, store: &mut UserStore, msg: Message, sent_at: i64) -> (r:
        Reaction)
        requires
            old(store).wf(),
        ensures
            final(store).wf(),
            final(self)@.peer == old(self)@.peer,
            // --- unauthenticated: login ---
            old(self)@.logged_user is None ==> (msg@ matches MsgView::Login(u, p) ==> final(store)@
                == old(store)@ && r.publish is None && !r.end && match auth_decision(
                old(store)@.users,
                u,
                p,
            ) {
                Some(uv) => final(self)@.logged_user == Some(uv) && reply_is(r, "Welcome, "@ + u),
                None => final(self)@.logged_user is None && reply_is(r, "Authentication failure"@),
            }),
            // --- unauthenticated: signup ---
            old(self)@.logged_user is None ==> (msg@ matches MsgView::Signup(u, p) ==> r.publish
                is None && !r.end && final(store)@.messages == old(store)@.messages && if
            spec_user_by_name(old(store)@.users, u) is Some {
                final(store)@ == old(store)@ && final(self)@.logged_user is None && reply_is(
                    r,
                    "Username "@ + u + " already exists!"@,
                )
            } else {
                (final(self)@.logged_user matches Some(uv) && reply_is(r, "Welcome, "@ + u)
                    && final(store)@.users == old(store)@.users.push(final(store)@.users.last())
                    && {
                    let du = final(store)@.users.last();
                    du.name == u && du.active && !du.admin && du.password == spec_digest(
                        p,
                        du.salt,
                    ) && uv == public_view(du)
                }) || (final(self)@.logged_user is None && r.reply is None && final(store)@ == old(
                    store,
                )@)
            }),
            // --- unauthenticated: everything else is refused ---
            old(self)@.logged_user is None && !(msg@ matches MsgView::Login(_, _)) && !(msg@
                matches MsgView::Signup(_, _)) ==> final(store)@ == old(store)@ && final(self)@
                == old(self)@ && r.publish is None && !r.end && reply_is(
                r,
                "Permission denied, login first using .login <username> <password>"@,
            ),
            // --- authenticated ---
            old(self)@.logged_user matches Some(user) ==> authenticated_reaction(
                old(self)@,
                final(self)@,
                old(store)@,
                final(store)@,
                msg@,
                sent_at,
                r,
            ),
    {
        if self.logged_user.is_none() {
            match msg {
                Message::Login(u, p) => {
                    match store.authenticate(u.as_str(), p.as_str()) {
                        Ok(user) => {
                            self.logged_user = Some(user);
                            let mut w = String::from_str("Welcome, ");
                            w.append(u.as_str());
                            Reaction { reply: Some(Message::Text(w)), publish: None, end: false }
                        },
                        Err(_) => Reaction {
                            reply: Some(text_msg("Authentication failure")),
                            publish: None,
                            end: false,
                        },
                    }
                },
                Message::Signup(u, p) => {
                    match store.signup(u.as_str(), p.as_str()) {
                        Ok(user) => {
                            self.logged_user = Some(user);
                            let mut w = String::from_str("Welcome, ");
                            w.append(u.as_str());
                            Reaction { reply: Some(Message::Text(w)), publish: None, end: false }
                        },
                        Err(e) => match e {
                            UserError::UserAlreadyExists(_) => {
                                let mut t = String::from_str("Username ");
                                t.append(u.as_str());
                                t.append(" already exists!");
                                Reaction {
                                    reply: Some(Message::Text(t)),
                                    publish: None,
                                    end: false,
                                }
                            },
                            _ => Reaction { reply: None, publish: None, end: false },
                        },
                    }
                },
                _ => Reaction {
                    reply: Some(
                        text_msg("Permission denied, login first using .login <username> <password>"),
                    ),
                    publish: None,
                    end: false,
                },
            }
        } else {
            self.process_message_from_authenticated_client(store, msg, sent_at)
        }
    }

    /// React to one frame from an authenticated client: repeated logins are
    /// refused, `Passwd` rotates the credential, `Quit` ends the session,
    /// and content payloads are persisted and then handed out for broadcast.
    pub fn process_message_from_authenticated_client(
        &mut self,
        store: &mut UserStore,
        msg: Message,
        sent_at: i64,
    ) -> (r: Reaction)
        requires
            old(store).wf(),
            old(self)@.logged_user is Some,
        ensures
            final(store).wf(),
            authenticated_reaction(
                old(self)@,
                final(self)@,
                old(store)@,
                final(store)@,
                msg@,
                sent_at,
                r,
            ),
            final(self)@.peer == old(self)@.peer,
    {
        match msg {
            Message::Login(_, _) => Reaction {
                reply: Some(text_msg("Already logged in!")),
                publish: None,
                end: false,
            },
            Message::Signup(_, _) => Reaction {
                reply: Some(text_msg("Already logged in!")),
                publish: None,
                end: false,
            },
            Message::Passwd(p) => {
                let user = self.logged_user.as_ref().unwrap();
                match store.change_password(user, p.as_str()) {
                    Ok(_) => Reaction {
                        reply: Some(text_msg("Password updated successfully")),
                        publish: None,
                        end: false,
                    },
                    Err(_) => Reaction { reply: None, publish: None, end: true },
                }
            },
            Message::Quit => Reaction { reply: None, publish: None, end: true },
            m => {
                let user = self.logged_user.as_ref().unwrap();
                let _ = store.save_user_message(user, &m, sent_at);
                Reaction { reply: None, publish: Some(m), end: false }
            },
        }
    }

    /// Forward an envelope from the bus to this session's peer, exactly when
    /// authenticated and not the publisher itself.
    pub fn handle_broadcast(&self, env: Envelope) -> (r: Option<Message>)
        ensures
            r matches Some(m) ==> spec_deliver(self@, env@) == Some(m@),
            r is None ==> spec_deliver(self@, env@) is None,
    {
        if self.logged_user.is_some() && env.from != self.peer {
            Some(env.message)
        } else {
            None
        }
    }
}

/// The exact reaction of an authenticated session to one inbound payload.
pub open spec fn authenticated_reaction(
    s0: SessionV,
    s1: SessionV,
    st0: crate::store::StoreV,
    st1: crate::store::StoreV,
    m: MsgView,
    sent_at: i64,
    r: Reaction,
) -> bool
    recommends
        s0.logged_user is Some,
{
    let user = s0.logged_user->Some_0;
    &&& s1 == s0
    &&& (m is Login || m is Signup ==> st1 == st0 && r.publish is None && !r.end && reply_is(
        r,
        "Already logged in!"@,
    ))
    &&& (m matches MsgView::Passwd(p) ==> r.publish is None && st1.messages == st0.messages
        && st1.users.len() == st0.users.len() && if spec_user_by_id(st0.users, user.id) is Some {
        &&& !r.end
        &&& reply_is(r, "Password updated successfully"@)
        &&& forall|i: int|
            0 <= i < st0.users.len() && (#[trigger] st0.users[i]).id != user.id ==> st1.users[i]
                == st0.users[i]
        &&& forall|i: int|
            0 <= i < st0.users.len() && (#[trigger] st0.users[i]).id == user.id ==> {
                let du = st1.users[i];
                du.password == spec_digest(p, du.salt) && du == (crate::store::DbUserV {
                    password: du.password,
                    salt: du.salt,
                    ..st0.users[i]
                })
            }
    } else {
        r.end && r.reply is None && st1 == st0
    })
    &&& (m is Quit ==> st1 == st0 && r.reply is None && r.publish is None && r.end)
    &&& (m.is_content() ==> {
        &&& !r.end
        &&& r.reply is None
        &&& r.publish matches Some(pm) && pm@ == m
        &&& st1.users == st0.users
        &&& st1.messages.len() == st0.messages.len() + 1
        &&& st1.messages == st0.messages.push(st1.messages.last())
        &&& st1.messages.last().author_id == user.id
        &&& st1.messages.last().message == m.display_string()
        &&& st1.messages.last().sent_at == sent_at
    })
}

/// Law (fan-out): when an authenticated session publishes a payload, every
/// other authenticated session forwards it to its peer, and the publisher
/// itself never does.
pub proof fn lemma_fan_out(a: SessionV, b: SessionV, m: MsgView)
    requires
        a.logged_user is Some,
        b.logged_user is Some,
        a.peer != b.peer,
    ensures
        spec_deliver(b, EnvelopeV { from: a.peer, message: m }) == Some(m),
        spec_deliver(a, EnvelopeV { from: a.peer, message: m }) is None,
{
}

/// Law (unauthenticated isolation): a session that has not authenticated
/// forwards no envelope, whatever arrives on the bus.
pub proof fn lemma_unauthenticated_isolation(s: SessionV, env: EnvelopeV)
    requires
        s.logged_user is None,
    ensures
        spec_deliver(s, env) is None,
{
}

} // verus!
