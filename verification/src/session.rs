//! The server-side streaming session: one per authenticated client
//! connection.  It forwards broker events of its own organization, accepts
//! `ack` and `auth_token` frames, re-validates the credential on a timer,
//! and closes with an error frame when the identity expires or the broker
//! dropped buffered events for this session.

use vstd::prelude::*;

use crate::broker::BrokerPoll;
use crate::model::ActivityEvent;
use crate::replica::Replica;

verus! {

/// What a bearer credential resolves to: user, organization and expiry.
#[derive(Debug)]
pub struct ClerkIdentity {
    pub user_id: u128,
    pub org_id: Option<String>,
    pub session_id: u128,
    pub expires_at: i64,
}

impl Clone for ClerkIdentity {
    fn clone(&self) -> (res: Self)
        ensures
            res == *self,
    {
        ClerkIdentity {
            user_id: self.user_id,
            org_id: crate::model::clone_opt_string(&self.org_id),
            session_id: self.session_id,
            expires_at: self.expires_at,
        }
    }
}

/// A frame the client sends over the streaming channel.
#[derive(Debug)]
pub enum ClientMessage {
    Ack { cursor: i64 },
    AuthToken { token: String },
}

/// A frame the server sends over the streaming channel.
#[derive(Debug)]
pub enum ServerMessage {
    Activity(ActivityEvent),
    Error { message: String },
}

/// Why a refreshed credential was rejected.
#[derive(Clone, Copy, PartialEq, Eq, Structural, Debug)]
pub enum AuthRefreshError {
    Verify,
    UserMismatch,
    OrgMismatch,
}

/// Why the periodic re-validation closed the session.
#[derive(Clone, Copy, PartialEq, Eq, Structural, Debug)]
pub enum AuthVerifyError {
    Refresh(AuthRefreshError),
    Expired,
}

/// Re-authentication state of one streaming session: the identity the
/// session was opened with, the grace window past expiry, and a client
/// supplied refresh token awaiting the next timer tick.
pub struct WsAuthState {
    pub expected_user_id: u128,
    pub expected_org_id: String,
    pub latest_identity: ClerkIdentity,
    pub expiry_grace: i64,
    pub pending_token: Option<String>,
}

impl WsAuthState {
    /// A fresh session's re-authentication state.
    pub fn new(
        expected_user_id: u128,
        expected_org_id: String,
        initial_identity: ClerkIdentity,
        expiry_grace: i64,
    ) -> (r: WsAuthState)
        ensures
            r.expected_user_id == expected_user_id,
            r.expected_org_id@ == expected_org_id@,
            r.latest_identity == initial_identity,
            r.expiry_grace == expiry_grace,
            r.pending_token is None,
    {
        WsAuthState {
            expected_user_id,
            expected_org_id,
            latest_identity: initial_identity,
            expiry_grace,
            pending_token: None,
        }
    }

    /// Remembers a refreshed token for the next re-validation tick.
    pub fn store_token(&mut self, token: String)
        ensures
            final(self).pending_token == Some(token),
            final(self).expected_user_id == old(self).expected_user_id,
            final(self).expected_org_id == old(self).expected_org_id,
            final(self).latest_identity == old(self).latest_identity,
            final(self).expiry_grace == old(self).expiry_grace,
    {
        self.pending_token = Some(token);
    }

    /// Takes the pending refresh token, if one was supplied.
    pub fn take_pending_token(&mut self) -> (r: Option<String>)
        ensures
            r == old(self).pending_token,
            final(self).pending_token is None,
            final(self).expected_user_id == old(self).expected_user_id,
            final(self).expected_org_id == old(self).expected_org_id,
            final(self).latest_identity == old(self).latest_identity,
            final(self).expiry_grace == old(self).expiry_grace,
    {
        let mut t: Option<String> = None;
        core::mem::swap(&mut t, &mut self.pending_token);
        t
    }

    /// Whether a refreshed credential's identity matches this session: it
    /// must name the same user and the same organization the session was
    /// opened for.
    pub open spec fn refresh_check_v(&self, identity: ClerkIdentity) -> Result<
        (),
        AuthRefreshError,
    > {
        if identity.user_id != self.expected_user_id {
            Err(AuthRefreshError::UserMismatch)
        } else if !(match identity.org_id {
            Some(o) => o@ == self.expected_org_id@,
            None => false,
        }) {
            Err(AuthRefreshError::OrgMismatch)
        } else {
            Ok(())
        }
    }

    /// Accepts or rejects the identity a refreshed token resolved to.  The
    /// token-to-identity resolution itself is the identity service's work;
    /// this is the decision taken on its result.  On acceptance the session
    /// adopts the refreshed identity.
    pub fn apply_refreshed_identity(&mut self, identity: ClerkIdentity) -> (r: Result<
        (),
        AuthRefreshError,
    >)
        ensures
            r == old(self).refresh_check_v(identity),
            final(self).expected_user_id == old(self).expected_user_id,
            final(self).expected_org_id == old(self).expected_org_id,
            final(self).expiry_grace == old(self).expiry_grace,
            final(self).pending_token == old(self).pending_token,
            final(self).latest_identity == (if r is Ok {
                identity
            } else {
                old(self).latest_identity
            }),
    {
        if identity.user_id != self.expected_user_id {
            return Err(AuthRefreshError::UserMismatch);
        }
        let org_matches = match &identity.org_id {
            Some(o) => *o == self.expected_org_id,
            None => false,
        };
        if !org_matches {
            return Err(AuthRefreshError::OrgMismatch);
        }
        self.latest_identity = identity;
        Ok(())
    }

    /// Whether the active identity's expiry plus the grace window has
    /// elapsed at time `now`.
    pub fn is_expired(&self, now: i64) -> (r: bool)
        requires
            self.latest_identity.expires_at + self.expiry_grace <= i64::MAX,
            self.latest_identity.expires_at + self.expiry_grace >= i64::MIN,
        ensures
            r == (now > self.latest_identity.expires_at + self.expiry_grace),
    {
        now > self.latest_identity.expires_at + self.expiry_grace
    }

    /// Whether an identity's expiry plus the grace window has elapsed at
    /// time `now` (a window that leaves the 64-bit range never elapses).
    pub open spec fn expiry_elapsed(expires_at: i64, grace: i64, now: i64) -> bool {
        &&& i64::MIN <= expires_at + grace <= i64::MAX
        &&& now > expires_at + grace
    }

    /// One re-validation tick.  A refreshed token, if one was supplied, has
    /// been resolved by the identity service to `refreshed` (`None` there
    /// means the service rejected the token).  Independent of refresh, an
    /// expired identity closes the session.
    pub fn verify(&mut self, refreshed: Option<Option<ClerkIdentity>>, now: i64) -> (r: Result<
        (),
        AuthVerifyError,
    >)
        ensures
            final(self).expected_user_id == old(self).expected_user_id,
            final(self).expected_org_id == old(self).expected_org_id,
            final(self).expiry_grace == old(self).expiry_grace,
            match refreshed {
                Some(Some(identity)) => match old(self).refresh_check_v(identity) {
                    Ok(()) => final(self).latest_identity == identity && r == (if
                    Self::expiry_elapsed(identity.expires_at, old(self).expiry_grace, now) {
                        Err::<(), AuthVerifyError>(AuthVerifyError::Expired)
                    } else {
                        Ok::<(), AuthVerifyError>(())
                    }),
                    Err(e) => r == Err::<(), AuthVerifyError>(AuthVerifyError::Refresh(e))
                        && final(self).latest_identity == old(self).latest_identity,
                },
                Some(None) => r == Err::<(), AuthVerifyError>(
                    AuthVerifyError::Refresh(AuthRefreshError::Verify),
                ) && final(self).latest_identity == old(self).latest_identity,
                None => final(self).latest_identity == old(self).latest_identity && r == (if
                Self::expiry_elapsed(
                    old(self).latest_identity.expires_at,
                    old(self).expiry_grace,
                    now,
                ) {
                    Err::<(), AuthVerifyError>(AuthVerifyError::Expired)
                } else {
                    Ok::<(), AuthVerifyError>(())
                }),
            },
    {
        match refreshed {
            Some(maybe_identity) => {
                match maybe_identity {
                    Some(identity) => {
                        match self.apply_refreshed_identity(identity) {
                            Ok(()) => {},
                            Err(e) => {
                                return Err(AuthVerifyError::Refresh(e));
                            },
                        }
                    },
                    None => {
                        return Err(AuthVerifyError::Refresh(AuthRefreshError::Verify));
                    },
                }
            },
            None => {},
        }
        let hi = self.latest_identity.expires_at.checked_add(self.expiry_grace);
        match hi {
            Some(bound) => {
                if now > bound {
                    Err(AuthVerifyError::Expired)
                } else {
                    Ok(())
                }
            },
            None => Ok(()),
        }
    }
}

/// Where one streaming session stands: backfill since the client's cursor
/// goes out first, live pushes only after it, and a closed session stays
/// closed.
#[derive(Clone, Copy, PartialEq, Eq, Structural, Debug)]
pub enum SessionPhase {
    Backfilling,
    Streaming,
    Closed,
}

/// Why a session sends an error frame before closing.
#[derive(Clone, Copy, PartialEq, Eq, Structural, Debug)]
pub enum SessionCloseReason {
    Lagged,
    AuthExpired,
    AuthRejected,
}

/// What the session observes at its suspension points.
#[derive(Debug)]
pub enum SessionInput {
    BackfillPage { done: bool },
    Broker(BrokerPoll),
    Frame(ClientMessage),
    AuthOutcome(Result<(), AuthVerifyError>),
    PeerClosed,
}

/// What the surrounding runtime must do next with the socket.
#[derive(Debug)]
pub enum SessionDirective {
    ReadBackfill,
    AwaitInput,
    ForwardActivity(ActivityEvent),
    StoreToken(String),
    SendErrorAndClose(SessionCloseReason),
    Close,
}

/// The sequencing of one streaming session: history since the client's
/// cursor is sent before anything live is relied on, so no window of
/// events is missed during hand-off; a broker that dropped events on this
/// session closes it at once, since its stream has a known hole; an
/// expired or rejected credential closes it with an error frame.
pub struct SessionFlow {
    pub phase: SessionPhase,
    pub organization_id: String,
}

impl SessionFlow {
    /// A fresh session: backfill comes first.
    pub fn attach(organization_id: String) -> (r: SessionFlow)
        ensures
            r.phase == SessionPhase::Backfilling,
            r.organization_id@ == organization_id@,
    {
        SessionFlow { phase: SessionPhase::Backfilling, organization_id }
    }

    /// The next directive of the session.  The broker is polled only while
    /// streaming: during backfill its slot buffers live events, so none is
    /// missed during hand-off.
    pub fn step(&mut self, input: SessionInput) -> (d: SessionDirective)
        requires
            (old(self).phase == SessionPhase::Backfilling ==> !(input is Broker)),
        ensures
            final(self).organization_id == old(self).organization_id,
            match input {
                SessionInput::PeerClosed => final(self).phase == SessionPhase::Closed && d
                    is Close,
                SessionInput::AuthOutcome(outcome) => match outcome {
                    Ok(()) => final(self).phase == old(self).phase && d is AwaitInput,
                    Err(AuthVerifyError::Expired) => final(self).phase == SessionPhase::Closed
                        && d == SessionDirective::SendErrorAndClose(
                        SessionCloseReason::AuthExpired,
                    ),
                    Err(AuthVerifyError::Refresh(_)) => final(self).phase == SessionPhase::Closed
                        && d == SessionDirective::SendErrorAndClose(
                        SessionCloseReason::AuthRejected,
                    ),
                },
                SessionInput::Frame(frame) => final(self).phase == old(self).phase && match frame {
                    ClientMessage::Ack { .. } => d is AwaitInput,
                    ClientMessage::AuthToken { token } => d == SessionDirective::StoreToken(token),
                },
                SessionInput::BackfillPage { done } => match old(self).phase {
                    SessionPhase::Backfilling => if done {
                        // hand-off: only now do live pushes carry the stream
                        final(self).phase == SessionPhase::Streaming && d is AwaitInput
                    } else {
                        final(self).phase == SessionPhase::Backfilling && d is ReadBackfill
                    },
                    _ => final(self).phase == old(self).phase && d is AwaitInput,
                },
                SessionInput::Broker(poll) => match old(self).phase {
                    SessionPhase::Streaming => match poll {
                        BrokerPoll::Lagged => final(self).phase == SessionPhase::Closed && d
                            == SessionDirective::SendErrorAndClose(SessionCloseReason::Lagged),
                        BrokerPoll::Delivered(event) => final(self).phase
                            == SessionPhase::Streaming && (if event.organization_id@ == old(
                            self,
                        ).organization_id@ {
                            d == SessionDirective::ForwardActivity(event)
                        } else {
                            d is AwaitInput
                        }),
                        BrokerPoll::Empty => final(self).phase == SessionPhase::Streaming && d
                            is AwaitInput,
                    },
                    _ => final(self).phase == old(self).phase && d is Close,
                },
            },
    {
        match input {
            SessionInput::PeerClosed => {
                self.phase = SessionPhase::Closed;
                SessionDirective::Close
            },
            SessionInput::AuthOutcome(outcome) => {
                match outcome {
                    Ok(()) => SessionDirective::AwaitInput,
                    Err(AuthVerifyError::Expired) => {
                        self.phase = SessionPhase::Closed;
                        SessionDirective::SendErrorAndClose(SessionCloseReason::AuthExpired)
                    },
                    Err(AuthVerifyError::Refresh(_)) => {
                        self.phase = SessionPhase::Closed;
                        SessionDirective::SendErrorAndClose(SessionCloseReason::AuthRejected)
                    },
                }
            },
            SessionInput::Frame(frame) => {
                match frame {
                    ClientMessage::Ack { cursor: _ } => SessionDirective::AwaitInput,
                    ClientMessage::AuthToken { token } => SessionDirective::StoreToken(token),
                }
            },
            SessionInput::BackfillPage { done } => {
                match self.phase {
                    SessionPhase::Backfilling => {
                        if done {
                            self.phase = SessionPhase::Streaming;
                            SessionDirective::AwaitInput
                        } else {
                            SessionDirective::ReadBackfill
                        }
                    },
                    _ => SessionDirective::AwaitInput,
                }
            },
            SessionInput::Broker(poll) => {
                match self.phase {
                    SessionPhase::Streaming => {
                        match poll {
                            BrokerPoll::Lagged => {
                                self.phase = SessionPhase::Closed;
                                SessionDirective::SendErrorAndClose(SessionCloseReason::Lagged)
                            },
                            BrokerPoll::Delivered(event) => {
                                if event.organization_id == self.organization_id {
                                    SessionDirective::ForwardActivity(event)
                                } else {
                                    SessionDirective::AwaitInput
                                }
                            },
                            BrokerPoll::Empty => SessionDirective::AwaitInput,
                        }
                    },
                    _ => SessionDirective::Close,
                }
            },
        }
    }
}

/// A broker event is forwarded only when it belongs to the session's
/// organization.
pub fn session_should_forward(session_org: &String, event: &ActivityEvent) -> (r: bool)
    ensures
        r == (event.organization_id@ == session_org@),
{
    event.organization_id == *session_org
}

/// What the streaming client does with one server frame: fold an activity
/// event into the replica, or treat an error frame as a stream with a known
/// hole — the caller must reconnect and reconcile via catch-up.
pub fn handle_server_message(replica: &mut Replica, msg: &ServerMessage) -> (r: Result<(), ()>)
    requires
        old(replica).wf(),
        old(replica)@.next_local_id < u128::MAX,
    ensures
        final(replica).wf(),
        match msg {
            ServerMessage::Activity(event) => r is Ok && final(replica)@
                == crate::replica::apply_event_v(old(replica)@, event@),
            ServerMessage::Error { .. } => r is Err && final(replica)@ == old(replica)@,
        },
{
    match msg {
        ServerMessage::Activity(event) => {
            replica.apply_event(event);
            Ok(())
        },
        ServerMessage::Error { message: _ } => Err(()),
    }
}

} // verus!