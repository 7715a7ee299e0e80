//! Heartbeat monitor: the liveness state machine. On each tick it owes the
//! server one heartbeat and then waits; an acknowledgment re-arms it, and a
//! tick that beats the acknowledgment is a liveness failure, signalled
//! exactly once, after which the monitor stops. The timer and the race
//! between tick and acknowledgment are scheduling, owned by the caller; the
//! monitor itself is pure state.

use vstd::prelude::*;

verus! {

/// Where the monitor stands.
#[derive(Clone, Copy, Debug, PartialEq, Eq, Structural)]
pub enum HbState {
    /// Waiting for the next tick.
    Armed,
    /// Sent a heartbeat, waiting for the acknowledgment or the next tick,
    /// whichever comes first.
    AwaitingAck,
    /// Signalled a liveness failure; does nothing ever after.
    Stopped,
}

/// What reaches the monitor: the interval timer fired, or the
/// acknowledgment envelope arrived via the router.
#[derive(Clone, Copy, Debug, PartialEq, Eq, Structural)]
pub enum HbEvent {
    Tick,
    AckReceived,
}

/// What the monitor asks its owner to do.
#[derive(Clone, Copy, Debug, PartialEq, Eq, Structural)]
pub enum HbAction {
    /// Send a heartbeat envelope carrying the last-seen sequence number.
    SendHeartbeat(Option<usize>),
    /// Liveness failure: tell the session manager to tear the connection
    /// down; the monitor stops.
    SignalFailure,
    Nothing,
}

/// The heartbeat monitor of one connection: interval as the server's Hello
/// delivered it, and a snapshot of the last-seen sequence number.
pub struct Monitor {
    pub state: HbState,
    pub interval_ms: usize,
    pub last_seq: Option<usize>,
}

/// One step of the monitor: a tick while armed sends one heartbeat; an
/// acknowledgment re-arms; a tick while still waiting is the liveness
/// failure, signalled once; a stopped monitor stays silent.
pub open spec fn spec_hb_step(m: Monitor, ev: HbEvent) -> (Monitor, HbAction) {
    match (m.state, ev) {
        (HbState::Armed, HbEvent::Tick) => (
            Monitor { state: HbState::AwaitingAck, ..m },
            HbAction::SendHeartbeat(m.last_seq),
        ),
        (HbState::Armed, HbEvent::AckReceived) => (m, HbAction::Nothing),
        (HbState::AwaitingAck, HbEvent::AckReceived) => (
            Monitor { state: HbState::Armed, ..m },
            HbAction::Nothing,
        ),
        (HbState::AwaitingAck, HbEvent::Tick) => (
            Monitor { state: HbState::Stopped, ..m },
            HbAction::SignalFailure,
        ),
        (HbState::Stopped, _) => (m, HbAction::Nothing),
    }
}

impl Monitor {
    /// A fresh monitor for one connection, armed, with the interval the
    /// server's Hello delivered and the sequence snapshot at start.
    pub fn new(interval_ms: usize, last_seq: Option<usize>) -> (m: Monitor)
        ensures
            m == (Monitor { state: HbState::Armed, interval_ms, last_seq }),
    {
        Monitor { state: HbState::Armed, interval_ms, last_seq }
    }

    /// Take a newer sequence snapshot for the next heartbeat.
    pub fn set_last_seq(&mut self, s: Option<usize>)
        ensures
            final(self).state == old(self).state,
            final(self).interval_ms == old(self).interval_ms,
            final(self).last_seq == s,
    {
        self.last_seq = s;
    }

    /// Feed the monitor one event and learn what to do.
    pub fn step(&mut self, ev: HbEvent) -> (a: HbAction)
        ensures
            (*final(self), a) == spec_hb_step(*old(self), ev),
    {
        match (self.state, ev) {
            (HbState::Armed, HbEvent::Tick) => {
                self.state = HbState::AwaitingAck;
                HbAction::SendHeartbeat(self.last_seq)
            },
            (HbState::Armed, HbEvent::AckReceived) => HbAction::Nothing,
            (HbState::AwaitingAck, HbEvent::AckReceived) => {
                self.state = HbState::Armed;
                HbAction::Nothing
            },
            (HbState::AwaitingAck, HbEvent::Tick) => {
                self.state = HbState::Stopped;
                HbAction::SignalFailure
            },
            (HbState::Stopped, _) => HbAction::Nothing,
        }
    }
}

/// The monitor run over a whole event history: the final monitor and every
/// action it asked for, in order.
pub open spec fn spec_hb_run(m: Monitor, evs: Seq<HbEvent>) -> (Monitor, Seq<HbAction>)
    decreases evs.len(),
{
    if evs.len() == 0 {
        (m, Seq::empty())
    } else {
        let first = spec_hb_step(m, evs[0]);
        let rest = spec_hb_run(first.0, evs.drop_first());
        (rest.0, seq![first.1] + rest.1)
    }
}

/// How many failure signals stand in a run of actions.
pub open spec fn count_failures(actions: Seq<HbAction>) -> nat
    decreases actions.len(),
{
    if actions.len() == 0 {
        0
    } else {
        (if actions[0] == HbAction::SignalFailure {
            1nat
        } else {
            0nat
        }) + count_failures(actions.drop_first())
    }
}

/// How many heartbeats stand in a run of actions.
pub open spec fn count_heartbeats(actions: Seq<HbAction>) -> nat
    decreases actions.len(),
{
    if actions.len() == 0 {
        0
    } else {
        (if actions[0] matches HbAction::SendHeartbeat(_) {
            1nat
        } else {
            0nat
        }) + count_heartbeats(actions.drop_first())
    }
}

/// A stopped monitor stays stopped and never sends or signals again.
pub proof fn lemma_stopped_silent(m: Monitor, evs: Seq<HbEvent>)
    requires
        m.state == HbState::Stopped,
    ensures
        count_failures(spec_hb_run(m, evs).1) == 0,
        count_heartbeats(spec_hb_run(m, evs).1) == 0,
        spec_hb_run(m, evs).0.state == HbState::Stopped,
    decreases evs.len(),
{
    if evs.len() > 0 {
        lemma_stopped_silent(m, evs.drop_first());
        assert((seq![HbAction::Nothing] + spec_hb_run(m, evs.drop_first()).1).drop_first()
            =~= spec_hb_run(m, evs.drop_first()).1);
    }
}

/// Liveness failure is signalled at most once over any event history, and
/// once signalled the monitor is stopped for good.
pub proof fn lemma_failure_at_most_once(m: Monitor, evs: Seq<HbEvent>)
    ensures
        count_failures(spec_hb_run(m, evs).1) <= 1,
        m.state == HbState::Stopped ==> count_failures(spec_hb_run(m, evs).1) == 0,
    decreases evs.len(),
{
    if evs.len() == 0 {
    } else {
        let first = spec_hb_step(m, evs[0]);
        let rest = spec_hb_run(first.0, evs.drop_first());
        assert((seq![first.1] + rest.1).drop_first() =~= rest.1);
        if m.state == HbState::Stopped {
            lemma_stopped_silent(m, evs);
        } else if first.1 == HbAction::SignalFailure {
            lemma_stopped_silent(first.0, evs.drop_first());
        } else {
            lemma_failure_at_most_once(first.0, evs.drop_first());
        }
    }
}

/// An event history where every heartbeat is acknowledged before the next
/// tick: tick and acknowledgment alternate.
pub open spec fn acks_in_time(evs: Seq<HbEvent>) -> bool
    decreases evs.len(),
{
    if evs.len() == 0 {
        true
    } else {
        evs.len() >= 2 && evs[0] == HbEvent::Tick && evs[1] == HbEvent::AckReceived
            && acks_in_time(evs.skip(2))
    }
}

/// While every acknowledgment arrives before the next tick, the monitor
/// never signals failure, sends exactly one heartbeat per interval, and
/// stays armed — indefinitely.
pub proof fn lemma_ack_in_time_keeps_alive(m: Monitor, evs: Seq<HbEvent>)
    requires
        m.state == HbState::Armed,
        acks_in_time(evs),
    ensures
        count_failures(spec_hb_run(m, evs).1) == 0,
        count_heartbeats(spec_hb_run(m, evs).1) == evs.len() / 2,
        spec_hb_run(m, evs).0.state == HbState::Armed,
    decreases evs.len(),
{
    if evs.len() == 0 {
    } else {
        let m1 = spec_hb_step(m, evs[0]).0;
        let m2 = spec_hb_step(m1, evs[1]).0;
        assert(evs.drop_first()[0] == evs[1]);
        assert(evs.drop_first().drop_first() =~= evs.skip(2));
        lemma_ack_in_time_keeps_alive(m2, evs.skip(2));
        let tail1 = spec_hb_run(m1, evs.drop_first());
        let tail2 = spec_hb_run(m2, evs.skip(2));
        let a0 = spec_hb_run(m, evs).1;
        assert(a0 == seq![HbAction::SendHeartbeat(m.last_seq)] + tail1.1);
        assert(tail1.1 == seq![HbAction::Nothing] + tail2.1);
        assert((seq![HbAction::SendHeartbeat(m.last_seq)] + tail1.1).drop_first() =~= tail1.1);
        assert((seq![HbAction::Nothing] + tail2.1).drop_first() =~= tail2.1);
        assert(count_failures(a0) == count_failures(tail1.1));
        assert(count_failures(tail1.1) == count_failures(tail2.1));
        assert(count_heartbeats(a0) == 1 + count_heartbeats(tail1.1));
        assert(count_heartbeats(tail1.1) == count_heartbeats(tail2.1));
        assert(evs.len() / 2 == 1 + (evs.len() - 2) / 2);
    }
}

} // verus!
