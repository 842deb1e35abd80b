//! The per-connection session machine behind the WebSocket endpoint. A
//! connection is inert until its auth handshake resolves a bearer token to a
//! user; afterwards, signaling frames are stamped with the sender and
//! forwarded to their target's live handles, and anything else is ignored.
//! The caller runs the socket loop, resolves tokens, performs the returned
//! actions, and reports the close.

use vstd::prelude::*;

verus! {

/// The signaling frame kinds the relay forwards.
#[derive(Clone, Copy, Debug, PartialEq, Eq, Structural)]
pub enum SignalKind {
    CallOffer,
    CallAnswer,
    IceCandidate,
    Typing,
}

/// One inbound frame, after the caller has parsed it and resolved any bearer
/// token: an auth attempt carries the resolution outcome, a signaling frame
/// its kind and target, and anything else is noise.
pub enum ClientFrame {
    Auth { resolved: Option<u64> },
    Signal { kind: SignalKind, to: u64 },
    Other,
}

/// What the caller must do after a frame: register the connection under a
/// user, confirm the handshake, or forward a stamped frame to a target. A
/// call offer additionally carries the caller's display name.
pub enum SessionAction {
    Register { user_id: u64 },
    ReplyAuthSuccess { user_id: u64 },
    Forward { to: u64, kind: SignalKind, from: u64, include_caller_name: bool },
}

/// The state of one connection: who it is authenticated as, if anyone.
pub struct SessionState {
    pub authed: Option<u64>,
}

impl SessionState {
    /// A fresh, inert connection.
    pub fn new() -> (s: SessionState)
        ensures
            s.authed is None,
    {
        SessionState { authed: None }
    }

    /// Handles one inbound frame. A successful auth registers and confirms;
    /// a failed auth leaves the connection inert with no reply. A signaling
    /// frame from an authenticated connection is forwarded to its target,
    /// stamped with the sender, the caller's name included only on a call
    /// offer; from an unauthenticated connection it is dropped silently, as
    /// is any other frame.
    pub fn on_frame(self, frame: ClientFrame) -> (r: (SessionState, Vec<SessionAction>))
        ensures
            match frame {
                ClientFrame::Auth { resolved } => match resolved {
                    Some(uid) => {
                        &&& r.0.authed == Some(uid)
                        &&& r.1@.len() == 2
                        &&& r.1@[0] == (SessionAction::Register { user_id: uid })
                        &&& r.1@[1] == (SessionAction::ReplyAuthSuccess { user_id: uid })
                    },
                    None => r.0 == self && r.1@.len() == 0,
                },
                ClientFrame::Signal { kind, to } => {
                    &&& r.0 == self
                    &&& match self.authed {
                        Some(me) => {
                            &&& r.1@.len() == 1
                            &&& r.1@[0] == (SessionAction::Forward {
                                to,
                                kind,
                                from: me,
                                include_caller_name: kind == SignalKind::CallOffer,
                            })
                        },
                        None => r.1@.len() == 0,
                    }
                },
                ClientFrame::Other => r.0 == self && r.1@.len() == 0,
            },
    {
        let mut actions: Vec<SessionAction> = Vec::new();
        match frame {
            ClientFrame::Auth { resolved } => match resolved {
                Some(uid) => {
                    actions.push(SessionAction::Register { user_id: uid });
                    actions.push(SessionAction::ReplyAuthSuccess { user_id: uid });
                    (SessionState { authed: Some(uid) }, actions)
                },
                None => (self, actions),
            },
            ClientFrame::Signal { kind, to } => {
                match self.authed {
                    Some(me) => {
                        let include_caller_name = match kind {
                            SignalKind::CallOffer => true,
                            _ => false,
                        };
                        actions.push(
                            SessionAction::Forward { to, kind, from: me, include_caller_name },
                        );
                        (self, actions)
                    },
                    None => (self, actions),
                }
            },
            ClientFrame::Other => (self, actions),
        }
    }

    /// What cleanup a closing connection owes: its handle must be taken out
    /// of the registry when it was registered, so nothing stale leaks.
    pub fn must_unregister(&self) -> (r: Option<u64>)
        ensures
            r == self.authed,
    {
        self.authed
    }
}

} // verus!
