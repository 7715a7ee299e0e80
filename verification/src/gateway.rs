//! Session manager: the connection-lifecycle state machine. It owns the
//! session identity (session id, last-seen sequence number) and decides, on
//! each event, the next lifecycle state and the one action its driver must
//! perform — open a bus, wait on the router, start the heartbeat and send an
//! identify or resume, tear down and reconnect, or stop. The driver performs
//! I/O and scheduling; every decision stands here.

use vstd::prelude::*;

use crate::error::Error;

verus! {

/// Capability the session manager hands each steady-state dispatch envelope
/// to. The application implements it; dispatch handling itself is outside
/// the core.
pub trait GatewayEventHandler {
}

/// Where the connection lifecycle stands.
#[derive(Clone, Copy, Debug, PartialEq, Eq, Structural)]
pub enum ConnState {
    Disconnected,
    Connecting,
    AwaitingHello,
    Identifying,
    Resuming,
    AwaitingReady,
    Steady,
    Closing,
}

/// Session identity and per-connection parameters, owned and mutated only by
/// the session manager.
#[derive(Clone, Debug, PartialEq, Eq)]
pub struct Session {
    /// Absent until the session-confirming dispatch arrives.
    pub session_id: Option<String>,
    /// Highest dispatch sequence number observed; absent until the first
    /// dispatch. Never decremented; the value sent in a resume.
    pub seq_num: Option<usize>,
    /// Interval from the most recent Hello, in milliseconds; re-read per
    /// connection.
    pub heartbeat_interval: Option<usize>,
    /// Whether the last teardown left the session resumable.
    pub resumable: bool,
}

/// What reaches the session manager: handshake progress, envelopes routed to
/// it, and failure signals.
#[derive(Clone, Debug, PartialEq, Eq)]
pub enum GatewayEvent {
    /// The caller asked the run loop to begin.
    StartRequested,
    /// The transport bus opened.
    ConnectOk,
    /// The transport bus could not open.
    ConnectFailed,
    /// Hello arrived, carrying the heartbeat interval in milliseconds.
    HelloReceived(usize),
    /// The identify frame left the writer.
    IdentifySent,
    /// The resume frame left the writer.
    ResumeSent,
    /// The session-confirming dispatch arrived: session id and its sequence
    /// number.
    ReadyReceived(String, Option<usize>),
    /// A steady-state dispatch envelope arrived with this sequence number.
    DispatchReceived(Option<usize>),
    /// The server declared the session invalid; the flag says whether it may
    /// still be resumed.
    InvalidSession(bool),
    /// The server asked for a reconnect; always treated as resumable.
    ReconnectRequested,
    /// The transport bus reported a connection-lost condition.
    ConnectionLost,
    /// The heartbeat monitor signalled a liveness failure.
    LivenessTimeout,
    /// The caller asked for shutdown.
    ShutdownRequested,
    /// Teardown on the closing path finished.
    CloseComplete,
}

/// The one thing the driver must do after a step.
#[derive(Clone, Debug, PartialEq, Eq)]
pub enum GatewayAction {
    /// Open a fresh transport bus against the gateway URL.
    OpenBus,
    /// Wait on the router for the Hello envelope.
    WaitHello,
    /// Start the heartbeat monitor with this interval, then send an identify
    /// frame.
    StartHeartbeatAndIdentify(usize),
    /// Start the heartbeat monitor with this interval, then send a resume
    /// frame carrying exactly this session id and sequence number.
    StartHeartbeatAndResume(usize, String, usize),
    /// Send a fresh identify frame on the live connection.
    SendIdentify,
    /// Wait on the router for the session-confirming dispatch.
    WaitReady,
    /// Hand the dispatch envelope to the application's handler.
    DispatchToHandler,
    /// Tear down the bus and monitor, then reconnect.
    Teardown,
    /// Tear down the bus and monitor and stop for good.
    TeardownAndStop,
    /// Nothing to do.
    Nothing,
}

/// The stored sequence number after observing a dispatch carrying `s`: the
/// highest value seen, never decremented.
pub open spec fn upd_seq(cur: Option<usize>, s: Option<usize>) -> Option<usize> {
    match s {
        Option::None => cur,
        Option::Some(n) => match cur {
            Option::None => Option::Some(n),
            Option::Some(m) => if n > m {
                Option::Some(n)
            } else {
                Option::Some(m)
            },
        },
    }
}

/// Whether the stored identity allows a resume: a session id and a sequence
/// number are held and the last teardown did not invalidate them.
pub open spec fn can_resume(sess: Session) -> bool {
    sess.session_id is Some && sess.seq_num is Some && sess.resumable
}

/// One step of the lifecycle state machine: the next state, the session
/// state after it, and the action the driver owes.
pub open spec fn spec_step(st: ConnState, sess: Session, ev: GatewayEvent) -> (
    ConnState,
    Session,
    GatewayAction,
) {
    match ev {
        GatewayEvent::StartRequested => if st == ConnState::Disconnected {
            (ConnState::Connecting, sess, GatewayAction::OpenBus)
        } else {
            (st, sess, GatewayAction::Nothing)
        },
        GatewayEvent::ConnectOk => if st == ConnState::Connecting {
            (ConnState::AwaitingHello, sess, GatewayAction::WaitHello)
        } else {
            (st, sess, GatewayAction::Nothing)
        },
        GatewayEvent::ConnectFailed => if st == ConnState::Connecting {
            (ConnState::Connecting, sess, GatewayAction::OpenBus)
        } else {
            (st, sess, GatewayAction::Nothing)
        },
        GatewayEvent::HelloReceived(iv) => if st == ConnState::AwaitingHello {
            let sess2 = Session { heartbeat_interval: Option::Some(iv), ..sess };
            if can_resume(sess) {
                (
                    ConnState::Resuming,
                    sess2,
                    GatewayAction::StartHeartbeatAndResume(
                        iv,
                        sess.session_id.unwrap(),
                        sess.seq_num.unwrap(),
                    ),
                )
            } else {
                (ConnState::Identifying, sess2, GatewayAction::StartHeartbeatAndIdentify(iv))
            }
        } else {
            (st, sess, GatewayAction::Nothing)
        },
        GatewayEvent::IdentifySent => if st == ConnState::Identifying {
            (ConnState::AwaitingReady, sess, GatewayAction::WaitReady)
        } else {
            (st, sess, GatewayAction::Nothing)
        },
        GatewayEvent::ResumeSent => (st, sess, GatewayAction::Nothing),
        GatewayEvent::ReadyReceived(sid, s) => if st == ConnState::AwaitingReady {
            (
                ConnState::Steady,
                Session {
                    session_id: Option::Some(sid),
                    seq_num: s,
                    resumable: true,
                    ..sess
                },
                GatewayAction::Nothing,
            )
        } else {
            (st, sess, GatewayAction::Nothing)
        },
        GatewayEvent::DispatchReceived(s) => {
            let sess2 = Session { seq_num: upd_seq(sess.seq_num, s), ..sess };
            if st == ConnState::Resuming {
                // The server began replaying missed dispatches: the resume
                // took hold.
                (ConnState::Steady, sess2, GatewayAction::DispatchToHandler)
            } else if st == ConnState::Steady {
                (ConnState::Steady, sess2, GatewayAction::DispatchToHandler)
            } else {
                (st, sess, GatewayAction::Nothing)
            }
        },
        GatewayEvent::InvalidSession(resumable) => if resumable {
            if st == ConnState::Resuming || st == ConnState::AwaitingReady || st
                == ConnState::Steady {
                (ConnState::Connecting, Session { resumable: true, ..sess }, GatewayAction::Teardown)
            } else {
                (st, sess, GatewayAction::Nothing)
            }
        } else {
            let cleared = Session {
                session_id: Option::None,
                seq_num: Option::None,
                resumable: false,
                ..sess
            };
            if st == ConnState::Resuming || st == ConnState::AwaitingReady {
                // Re-identify on the same connection: the heartbeat is
                // already running.
                (ConnState::Identifying, cleared, GatewayAction::SendIdentify)
            } else if st == ConnState::Steady {
                (ConnState::Connecting, cleared, GatewayAction::Teardown)
            } else {
                (st, sess, GatewayAction::Nothing)
            }
        },
        GatewayEvent::ReconnectRequested => if st == ConnState::Steady {
            (ConnState::Connecting, Session { resumable: true, ..sess }, GatewayAction::Teardown)
        } else {
            (st, sess, GatewayAction::Nothing)
        },
        GatewayEvent::ConnectionLost => if st == ConnState::Disconnected || st
            == ConnState::Closing {
            (st, sess, GatewayAction::Nothing)
        } else {
            (ConnState::Connecting, sess, GatewayAction::Teardown)
        },
        GatewayEvent::LivenessTimeout => if st == ConnState::Disconnected || st
            == ConnState::Closing {
            (st, sess, GatewayAction::Nothing)
        } else {
            (ConnState::Connecting, sess, GatewayAction::Teardown)
        },
        GatewayEvent::ShutdownRequested => if st == ConnState::Disconnected {
            (st, sess, GatewayAction::Nothing)
        } else {
            (ConnState::Closing, sess, GatewayAction::TeardownAndStop)
        },
        GatewayEvent::CloseComplete => if st == ConnState::Closing {
            (ConnState::Disconnected, sess, GatewayAction::Nothing)
        } else {
            (st, sess, GatewayAction::Nothing)
        },
    }
}

/// The websocket URL of one connect attempt: the bootstrap URL with the
/// protocol version and the frame encoding appended as query parameters.
pub fn gateway_url(base: &str, v: &str, enc: &str) -> (r: String)
    ensures
        r@ == base@ + "/?v="@ + v@ + "&encoding="@ + enc@,
{
    let mut url = base.to_owned();
    url.append("/?v=");
    url.append(v);
    url.append("&encoding=");
    url.append(enc);
    proof {
        assert(url@ =~= base@ + "/?v="@ + v@ + "&encoding="@ + enc@);
    }
    url
}

/// The gateway client: lifecycle state, session identity, the bootstrap URL,
/// and the application's dispatch capability.
pub struct Client<T: GatewayEventHandler> {
    pub gateway_url: String,
    pub token: String,
    pub event_handler: T,
    pub state: ConnState,
    pub session: Session,
}

impl<T: GatewayEventHandler> Client<T> {
    /// A fresh client, disconnected, with an empty session. The token and
    /// the bootstrap URL must be non-empty; a missing one is a configuration
    /// fault, fatal at startup.
    pub fn try_new(event_handler: T, token: String, gateway_url: String) -> (r: Result<
        Client<T>,
        Error,
    >)
        ensures
            token@.len() > 0 && gateway_url@.len() > 0 ==> (r matches Ok(c) && c.token == token
                && c.gateway_url == gateway_url && c.state == ConnState::Disconnected && c.session
                == (Session {
                session_id: Option::None,
                seq_num: Option::None,
                heartbeat_interval: Option::None,
                resumable: false,
            })),
            !(token@.len() > 0 && gateway_url@.len() > 0) ==> r == Result::<Client<T>, Error>::Err(
                Error::ConfigurationError,
            ),
    {
        if token.as_str().unicode_len() == 0 || gateway_url.as_str().unicode_len() == 0 {
            return Result::Err(Error::ConfigurationError);
        }
        Result::Ok(
            Client {
                gateway_url,
                token,
                event_handler,
                state: ConnState::Disconnected,
                session: Session {
                    session_id: Option::None,
                    seq_num: Option::None,
                    heartbeat_interval: Option::None,
                    resumable: false,
                },
            },
        )
    }

    /// Feed the state machine one event; the client moves exactly as the
    /// transition function says, and the driver owes the returned action.
    pub fn step(&mut self, ev: GatewayEvent) -> (a: GatewayAction)
        ensures
            (final(self).state, final(self).session, a) == spec_step(
                old(self).state,
                old(self).session,
                ev,
            ),
            final(self).gateway_url == old(self).gateway_url,
            final(self).token == old(self).token,
    {
        let st = self.state;
        match ev {
            GatewayEvent::StartRequested => {
                if matches!(st, ConnState::Disconnected) {
                    self.state = ConnState::Connecting;
                    GatewayAction::OpenBus
                } else {
                    GatewayAction::Nothing
                }
            },
            GatewayEvent::ConnectOk => {
                if matches!(st, ConnState::Connecting) {
                    self.state = ConnState::AwaitingHello;
                    GatewayAction::WaitHello
                } else {
                    GatewayAction::Nothing
                }
            },
            GatewayEvent::ConnectFailed => {
                if matches!(st, ConnState::Connecting) {
                    GatewayAction::OpenBus
                } else {
                    GatewayAction::Nothing
                }
            },
            GatewayEvent::HelloReceived(iv) => {
                if matches!(st, ConnState::AwaitingHello) {
                    let resume_now = self.session.session_id.is_some()
                        && self.session.seq_num.is_some() && self.session.resumable;
                    self.session.heartbeat_interval = Option::Some(iv);
                    if resume_now {
                        let sid = match &self.session.session_id {
                            Option::Some(sid) => sid.clone(),
                            Option::None => {
                                proof {
                                    assert(false);
                                }
                                String::new()
                            },
                        };
                        let n = match self.session.seq_num {
                            Option::Some(n) => n,
                            Option::None => {
                                proof {
                                    assert(false);
                                }
                                0
                            },
                        };
                        self.state = ConnState::Resuming;
                        GatewayAction::StartHeartbeatAndResume(iv, sid, n)
                    } else {
                        self.state = ConnState::Identifying;
                        GatewayAction::StartHeartbeatAndIdentify(iv)
                    }
                } else {
                    GatewayAction::Nothing
                }
            },
            GatewayEvent::IdentifySent => {
                if matches!(st, ConnState::Identifying) {
                    self.state = ConnState::AwaitingReady;
                    GatewayAction::WaitReady
                } else {
                    GatewayAction::Nothing
                }
            },
            GatewayEvent::ResumeSent => GatewayAction::Nothing,
            GatewayEvent::ReadyReceived(sid, s) => {
                if matches!(st, ConnState::AwaitingReady) {
                    self.session.session_id = Option::Some(sid);
                    self.session.seq_num = s;
                    self.session.resumable = true;
                    self.state = ConnState::Steady;
                    GatewayAction::Nothing
                } else {
                    GatewayAction::Nothing
                }
            },
            GatewayEvent::DispatchReceived(s) => {
                if matches!(st, ConnState::Resuming) || matches!(st, ConnState::Steady) {
                    let cur = self.session.seq_num;
                    let upd = match (cur, s) {
                        (_, Option::None) => cur,
                        (Option::None, Option::Some(n)) => Option::Some(n),
                        (Option::Some(m), Option::Some(n)) => if n > m {
                            Option::Some(n)
                        } else {
                            Option::Some(m)
                        },
                    };
                    self.session.seq_num = upd;
                    self.state = ConnState::Steady;
                    GatewayAction::DispatchToHandler
                } else {
                    GatewayAction::Nothing
                }
            },
            GatewayEvent::InvalidSession(resumable) => {
                if resumable {
                    if matches!(st, ConnState::Resuming) || matches!(st, ConnState::AwaitingReady)
                        || matches!(st, ConnState::Steady) {
                        self.session.resumable = true;
                        self.state = ConnState::Connecting;
                        GatewayAction::Teardown
                    } else {
                        GatewayAction::Nothing
                    }
                } else {
                    if matches!(st, ConnState::Resuming) || matches!(st, ConnState::AwaitingReady) {
                        self.session.session_id = Option::None;
                        self.session.seq_num = Option::None;
                        self.session.resumable = false;
                        self.state = ConnState::Identifying;
                        GatewayAction::SendIdentify
                    } else if matches!(st, ConnState::Steady) {
                        self.session.session_id = Option::None;
                        self.session.seq_num = Option::None;
                        self.session.resumable = false;
                        self.state = ConnState::Connecting;
                        GatewayAction::Teardown
                    } else {
                        GatewayAction::Nothing
                    }
                }
            },
            GatewayEvent::ReconnectRequested => {
                if matches!(st, ConnState::Steady) {
                    self.session.resumable = true;
                    self.state = ConnState::Connecting;
                    GatewayAction::Teardown
                } else {
                    GatewayAction::Nothing
                }
            },
            GatewayEvent::ConnectionLost => {
                if matches!(st, ConnState::Disconnected) || matches!(st, ConnState::Closing) {
                    GatewayAction::Nothing
                } else {
                    self.state = ConnState::Connecting;
                    GatewayAction::Teardown
                }
            },
            GatewayEvent::LivenessTimeout => {
                if matches!(st, ConnState::Disconnected) || matches!(st, ConnState::Closing) {
                    GatewayAction::Nothing
                } else {
                    self.state = ConnState::Connecting;
                    GatewayAction::Teardown
                }
            },
            GatewayEvent::ShutdownRequested => {
                if matches!(st, ConnState::Disconnected) {
                    GatewayAction::Nothing
                } else {
                    self.state = ConnState::Closing;
                    GatewayAction::TeardownAndStop
                }
            },
            GatewayEvent::CloseComplete => {
                if matches!(st, ConnState::Closing) {
                    self.state = ConnState::Disconnected;
                    GatewayAction::Nothing
                } else {
                    GatewayAction::Nothing
                }
            },
        }
    }
}

/// Resume decision: with a session id and sequence number stored and still
/// valid, a fresh Hello leads to a resume carrying exactly those — never an
/// identify; without them (or after an invalidation) it leads to an
/// identify.
pub proof fn lemma_resume_decision(sess: Session, iv: usize)
    ensures
        can_resume(sess) ==> spec_step(
            ConnState::AwaitingHello,
            sess,
            GatewayEvent::HelloReceived(iv),
        ) == (
            ConnState::Resuming,
            Session { heartbeat_interval: Option::Some(iv), ..sess },
            GatewayAction::StartHeartbeatAndResume(
                iv,
                sess.session_id.unwrap(),
                sess.seq_num.unwrap(),
            ),
        ),
        !can_resume(sess) ==> spec_step(
            ConnState::AwaitingHello,
            sess,
            GatewayEvent::HelloReceived(iv),
        ) == (
            ConnState::Identifying,
            Session { heartbeat_interval: Option::Some(iv), ..sess },
            GatewayAction::StartHeartbeatAndIdentify(iv),
        ),
{
}

/// A non-resumable invalid-session clears the stored identity, and the next
/// handshake therefore sends an identify, not a resume.
pub proof fn lemma_invalid_session_forces_identify(st: ConnState, sess: Session, iv: usize)
    requires
        st == ConnState::Resuming || st == ConnState::AwaitingReady || st == ConnState::Steady,
    ensures
        ({
            let cleared = spec_step(st, sess, GatewayEvent::InvalidSession(false)).1;
            &&& cleared.session_id is None
            &&& cleared.seq_num is None
            &&& !can_resume(cleared)
            &&& spec_step(ConnState::AwaitingHello, cleared, GatewayEvent::HelloReceived(iv)).2
                == GatewayAction::StartHeartbeatAndIdentify(iv)
        }),
{
}

/// Sequence monotonicity: the stored sequence number never decreases on a
/// dispatch, whatever order or duplication the delivery shows, and it never
/// falls back to absent once set.
pub proof fn lemma_seq_monotonic(cur: Option<usize>, s: Option<usize>)
    ensures
        cur matches Some(m) ==> upd_seq(cur, s) matches Some(r) && r >= m,
        s matches Some(n) ==> upd_seq(cur, s) matches Some(r) && r >= n,
        upd_seq(cur, s) == upd_seq(upd_seq(cur, s), s),
{
}

} // verus!
