//! Protocol opcodes and their fixed numeric wire assignment.

use vstd::prelude::*;

verus! {

/// The closed set of gateway control opcodes, plus `Unknown` for forward
/// compatibility: an unrecognized numeric code decodes to `Unknown` rather
/// than failing.
#[derive(Clone, Copy, Debug, PartialEq, Eq, Structural)]
pub enum Op {
    Dispatch,
    Heartbeat,
    Identify,
    PUpd,
    VSUpd,
    Resume,
    Reconnect,
    ReqGuildMembers,
    InvSession,
    Hello,
    HbACK,
    Unknown,
}

/// The protocol's fixed numeric assignment of each opcode.
pub open spec fn spec_to_code(op: Op) -> u8 {
    match op {
        Op::Dispatch => 0,
        Op::Heartbeat => 1,
        Op::Identify => 2,
        Op::PUpd => 3,
        Op::VSUpd => 4,
        Op::Resume => 6,
        Op::Reconnect => 7,
        Op::ReqGuildMembers => 8,
        Op::InvSession => 9,
        Op::Hello => 10,
        Op::HbACK => 11,
        Op::Unknown => 255,
    }
}

/// The opcode a numeric wire code decodes to; codes outside the fixed
/// assignment decode to `Unknown`.
pub open spec fn spec_from_code(c: u8) -> Op {
    match c {
        0u8 => Op::Dispatch,
        1u8 => Op::Heartbeat,
        2u8 => Op::Identify,
        3u8 => Op::PUpd,
        4u8 => Op::VSUpd,
        6u8 => Op::Resume,
        7u8 => Op::Reconnect,
        8u8 => Op::ReqGuildMembers,
        9u8 => Op::InvSession,
        10u8 => Op::Hello,
        11u8 => Op::HbACK,
        _ => Op::Unknown,
    }
}

impl Op {
    /// Decode a numeric wire code; unrecognized codes give `Unknown`.
    pub fn from_code(c: u8) -> (op: Op)
        ensures
            op == spec_from_code(c),
    {
        match c {
            0u8 => Op::Dispatch,
            1u8 => Op::Heartbeat,
            2u8 => Op::Identify,
            3u8 => Op::PUpd,
            4u8 => Op::VSUpd,
            6u8 => Op::Resume,
            7u8 => Op::Reconnect,
            8u8 => Op::ReqGuildMembers,
            9u8 => Op::InvSession,
            10u8 => Op::Hello,
            11u8 => Op::HbACK,
            _ => Op::Unknown,
        }
    }

    /// Encode an opcode as its numeric wire code. Re-encoding `Unknown` is a
    /// programming error, excluded by the precondition.
    pub fn to_code(&self) -> (c: u8)
        requires
            *self != Op::Unknown,
        ensures
            c == spec_to_code(*self),
    {
        match self {
            Op::Dispatch => 0,
            Op::Heartbeat => 1,
            Op::Identify => 2,
            Op::PUpd => 3,
            Op::VSUpd => 4,
            Op::Resume => 6,
            Op::Reconnect => 7,
            Op::ReqGuildMembers => 8,
            Op::InvSession => 9,
            Op::Hello => 10,
            Op::HbACK => 11,
            Op::Unknown => unreached(),
        }
    }
}

/// The numeric assignment is self-inverse: every opcode other than `Unknown`
/// survives an encode/decode round trip, and every assigned code survives a
/// decode/encode round trip.
pub proof fn lemma_code_round_trip(op: Op, c: u8)
    ensures
        op != Op::Unknown ==> spec_from_code(spec_to_code(op)) == op,
        spec_from_code(c) != Op::Unknown ==> spec_to_code(spec_from_code(c)) == c,
{
}

/// Marker for the body types an envelope may carry.
pub trait PayloadData {
}

/// Connection properties sent inside `Identify`.
#[derive(Clone, Debug, PartialEq, Eq)]
pub struct IdentifyProperties {
    pub os: String,
    pub browser: String,
    pub device: String,
}

/// Body of a fresh-handshake `Identify` envelope.
#[derive(Clone, Debug, PartialEq, Eq)]
pub struct Identify {
    pub token: String,
    pub properties: IdentifyProperties,
    pub intents: usize,
}

/// Body of a `Resume` envelope: replay a prior session from a sequence number.
#[derive(Clone, Debug, PartialEq, Eq)]
pub struct Resume {
    pub token: String,
    pub session_id: String,
    pub seq: usize,
}

/// Body of a client voice-state update.
#[derive(Clone, Debug, PartialEq, Eq)]
pub struct UpdVState {
    pub guild_id: String,
    pub channel_id: Option<String>,
    pub self_mute: bool,
    pub self_deaf: bool,
}

/// Body of the server's `Hello`: the heartbeat interval in milliseconds.
#[derive(Clone, Debug, PartialEq, Eq)]
pub struct Hello {
    pub heartbeat_interval: usize,
}

/// Body of the session-confirming dispatch event.
#[derive(Clone, Debug, PartialEq, Eq)]
pub struct Ready {
    pub session_id: String,
}

impl PayloadData for Identify {
}

impl PayloadData for Resume {
}

impl PayloadData for UpdVState {
}

impl PayloadData for Hello {
}

impl PayloadData for Ready {
}

/// Tagged union of every body shape an envelope can carry, keyed by opcode
/// (and, for dispatch envelopes, by event name).
#[derive(Clone, Debug, PartialEq, Eq)]
pub enum Body {
    /// Heartbeat: the last-seen sequence number, or none before any dispatch.
    Heartbeat(Option<usize>),
    Identify(Identify),
    Resume(Resume),
    UpdVState(UpdVState),
    Hello(Hello),
    /// Invalid-session: whether the session may still be resumed.
    InvSession(bool),
    /// Heartbeat acknowledgment.
    HbACK(Option<bool>),
    /// Dispatch body of the session-confirming event.
    Ready(crate::events::Ready),
    /// Dispatch body of an application chat message event.
    Message(crate::events::Message),
    /// The `null` body of envelopes that carry no data.
    Empty,
}

/// One opcode-tagged message unit exchanged over the gateway.
#[derive(Clone, Debug, PartialEq, Eq)]
pub struct Payload {
    pub op: Op,
    pub d: Body,
    pub s: Option<usize>,
    pub t: Option<String>,
}

/// Just the opcode of a raw frame, extracted before committing to a full
/// typed decode.
#[derive(Clone, Copy, Debug, PartialEq, Eq, Structural)]
pub struct PartialPayload {
    pub op: Op,
}

/// Event name under which the session-confirming dispatch arrives.
pub open spec fn ready_event() -> Seq<char> {
    "READY"@
}

/// Event name under which a chat message dispatch arrives.
pub open spec fn message_event() -> Seq<char> {
    "MESSAGE_CREATE"@
}

/// The body shape an envelope must carry, determined by its opcode and, for
/// dispatch envelopes, its event name.
pub open spec fn body_matches(op: Op, t: Option<String>, d: Body) -> bool {
    match op {
        Op::Dispatch => match d {
            Body::Ready(_) => t matches Some(n) && n@ == ready_event(),
            Body::Message(_) => t matches Some(n) && n@ == message_event(),
            _ => false,
        },
        Op::Heartbeat => d matches Body::Heartbeat(_),
        Op::Identify => d matches Body::Identify(_),
        Op::PUpd => d == Body::Empty,
        Op::VSUpd => d matches Body::UpdVState(_),
        Op::Resume => d matches Body::Resume(_),
        Op::Reconnect => d == Body::Empty,
        Op::ReqGuildMembers => d == Body::Empty,
        Op::InvSession => d matches Body::InvSession(_),
        Op::Hello => d matches Body::Hello(_),
        Op::HbACK => d matches Body::HbACK(_),
        Op::Unknown => false,
    }
}

impl Payload {
    /// A representable envelope: the body shape agrees with the opcode, a
    /// sequence number stands only on dispatch envelopes, and an event name
    /// only where it selects the dispatch body shape.
    pub open spec fn wf(self) -> bool {
        &&& body_matches(self.op, self.t, self.d)
        &&& self.s is Some ==> self.op == Op::Dispatch
        &&& self.t is Some ==> self.op == Op::Dispatch
    }

    /// Assemble an envelope from its four fields.
    pub fn new(d: Body, s: Option<usize>, t: Option<String>, op: Op) -> (p: Payload)
        ensures
            p == (Payload { op, d, s, t }),
    {
        Payload { d, s, t, op }
    }

    /// The checked form of the well-formedness invariant, for callers that
    /// assemble envelopes from unchecked parts.
    pub fn is_wf(&self) -> (r: bool)
        ensures
            r == self.wf(),
    {
        let shape: bool = match (&self.d, self.op) {
            (Body::Ready(_), Op::Dispatch) => opt_str_is(&self.t, "READY"),
            (Body::Message(_), Op::Dispatch) => opt_str_is(&self.t, "MESSAGE_CREATE"),
            (Body::Heartbeat(_), Op::Heartbeat) => true,
            (Body::Identify(_), Op::Identify) => true,
            (Body::Empty, Op::PUpd) => true,
            (Body::UpdVState(_), Op::VSUpd) => true,
            (Body::Resume(_), Op::Resume) => true,
            (Body::Empty, Op::Reconnect) => true,
            (Body::Empty, Op::ReqGuildMembers) => true,
            (Body::InvSession(_), Op::InvSession) => true,
            (Body::Hello(_), Op::Hello) => true,
            (Body::HbACK(_), Op::HbACK) => true,
            _ => false,
        };
        let s_ok = !self.s.is_some() || matches!(self.op, Op::Dispatch);
        let t_ok = !self.t.is_some() || matches!(self.op, Op::Dispatch);
        shape && s_ok && t_ok
    }
}

/// Whether an optional string holds exactly the characters of a literal.
fn opt_str_is(o: &Option<String>, lit: &str) -> (r: bool)
    ensures
        r == (o matches Some(n) && n@ == lit@),
{
    match o {
        Option::Some(n) => str_eq(n.as_str(), lit),
        Option::None => false,
    }
}

/// Whether two text fragments hold the same characters.
fn str_eq(a: &str, b: &str) -> (r: bool)
    ensures
        r == (a@ == b@),
{
    let n = a.unicode_len();
    if b.unicode_len() != n {
        proof {
            assert(a@.len() != b@.len());
        }
        return false;
    }
    let mut k: usize = 0;
    while k < n
        invariant
            k <= n,
            n == a@.len() == b@.len(),
            forall|j: int| 0 <= j < k ==> a@[j] == b@[j],
        decreases n - k,
    {
        if a.get_char(k) != b.get_char(k) {
            return false;
        }
        k = k + 1;
    }
    proof {
        assert(a@ =~= b@);
    }
    true
}

} // verus!
