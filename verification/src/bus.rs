//! Transport-bus core: the single-writer outbound queue with its FIFO
//! ordering guarantee, the idempotent teardown guard, and the reader and
//! writer tasks' failure policies. The socket itself and the broadcast
//! plumbing are I/O and live outside the library; they feed frames in and
//! drain frames out of these verified pieces.

use vstd::prelude::*;

verus! {

/// The outbound frame queue: many logical senders enqueue, one writer task
/// drains, strictly in submission order, so that identify/resume frames are
/// never reordered relative to heartbeats.
pub struct OutboundQueue {
    frames: Vec<String>,
}

impl OutboundQueue {
    /// The frames now waiting, oldest first.
    pub closed spec fn view(&self) -> Seq<String> {
        self.frames@
    }

    /// An empty queue.
    pub fn new() -> (q: OutboundQueue)
        ensures
            q@ == Seq::<String>::empty(),
    {
        OutboundQueue { frames: Vec::new() }
    }

    /// Enqueue one frame for the writer; it joins the back of the queue and
    /// everything already waiting keeps its place.
    pub fn send(&mut self, frame: String)
        ensures
            final(self)@ == old(self)@.push(frame),
    {
        self.frames.push(frame);
    }

    /// The writer takes the oldest frame, or nothing when the queue is
    /// empty; the rest move up unchanged.
    pub fn pop_next(&mut self) -> (r: Option<String>)
        ensures
            match r {
                Option::Some(f) => old(self)@.len() > 0 && f == old(self)@[0] && final(self)@
                    == old(self)@.drop_first(),
                Option::None => old(self)@.len() == 0 && final(self)@ == old(self)@,
            },
    {
        if self.frames.len() == 0 {
            return Option::None;
        }
        let f = self.frames.remove(0);
        proof {
            assert(self.frames@ =~= old(self).frames@.drop_first());
        }
        Option::Some(f)
    }

    /// How many frames wait.
    pub fn len(&self) -> (n: usize)
        ensures
            n == self@.len(),
    {
        self.frames.len()
    }

    /// What the writer transmits, in order: exactly the queued frames,
    /// oldest first; the queue is left empty.
    pub fn drain(&mut self) -> (out: Vec<String>)
        ensures
            out@ == old(self)@,
            final(self)@ == Seq::<String>::empty(),
    {
        let mut out: Vec<String> = Vec::new();
        std::mem::swap(&mut out, &mut self.frames);
        out
    }
}

/// Ordering law of the bus: whoever sends `a` and then `b`, in whatever
/// queue state, leaves `a` standing strictly before `b`, and the writer
/// (which drains from the front) therefore transmits `a` first.
pub proof fn lemma_send_order(q: Seq<String>, a: String, b: String)
    ensures
        q.push(a).push(b)[q.len() as int] == a,
        q.push(a).push(b)[q.len() as int + 1] == b,
{
}

/// Teardown guard of one connection's background tasks: closing is
/// idempotent, and the teardown actions (close frame, task cancellation) are
/// owed exactly on the first close.
pub struct CloseGuard {
    closed: bool,
}

impl CloseGuard {
    /// Whether this connection was already torn down.
    pub closed spec fn is_closed(&self) -> bool {
        self.closed
    }

    /// A guard over a freshly opened connection.
    pub fn new() -> (g: CloseGuard)
        ensures
            !g.is_closed(),
    {
        CloseGuard { closed: false }
    }

    /// Mark the connection closed. Returns whether the teardown actions must
    /// run now: true on the first call, false ever after.
    pub fn close(&mut self) -> (r: bool)
        ensures
            final(self).is_closed(),
            r == !old(self).is_closed(),
    {
        if self.closed {
            return false;
        }
        self.closed = true;
        true
    }
}

/// What one attempt to read from the socket came to, as the reader task sees
/// it after the transport layer is done with it.
#[derive(Clone, Debug, PartialEq, Eq)]
pub enum ReadOutcome {
    /// A whole text frame arrived.
    Frame(String),
    /// A frame exceeded the negotiated capacity: a transient, recoverable
    /// condition.
    CapacityExceeded,
    /// Any other socket error.
    TransportFailure,
}

/// What the reader task does with one read outcome.
#[derive(Clone, Debug, PartialEq, Eq)]
pub enum ReadDecision {
    /// Publish the frame to every subscriber and keep reading.
    Publish(String),
    /// Swallow the condition and keep reading.
    KeepReading,
    /// Stop: surface a connection-lost condition to the session manager.
    ConnectionLost,
}

/// What one write attempt on the live socket came to.
#[derive(Clone, Copy, Debug, PartialEq, Eq, Structural)]
pub enum WriteOutcome {
    /// The frame reached the socket.
    Sent,
    /// The socket refused the write.
    WriteFailed,
}

/// What the writer task does after one write attempt.
#[derive(Clone, Copy, Debug, PartialEq, Eq, Structural)]
pub enum WriteDecision {
    /// Take the next frame from the queue.
    KeepWriting,
    /// Stop: surface a connection-lost condition to the session manager.
    ConnectionLost,
}

/// The writer task's failure policy: a write failure on the live socket is
/// fatal to this connection and is surfaced as a connection loss — the frame
/// is never silently retried, since resubmission would break the outbound
/// order.
pub fn writer_policy(o: WriteOutcome) -> (r: WriteDecision)
    ensures
        r == (match o {
            WriteOutcome::Sent => WriteDecision::KeepWriting,
            WriteOutcome::WriteFailed => WriteDecision::ConnectionLost,
        }),
{
    match o {
        WriteOutcome::Sent => WriteDecision::KeepWriting,
        WriteOutcome::WriteFailed => WriteDecision::ConnectionLost,
    }
}

/// The reader task's failure policy: frames are published, an over-capacity
/// frame is swallowed and reading continues, and any other socket error ends
/// the reader as a connection loss — never as a crash.
pub fn reader_policy(o: ReadOutcome) -> (r: ReadDecision)
    ensures
        match o {
            ReadOutcome::Frame(f) => r == ReadDecision::Publish(f),
            ReadOutcome::CapacityExceeded => r == ReadDecision::KeepReading,
            ReadOutcome::TransportFailure => r == ReadDecision::ConnectionLost,
        },
{
    match o {
        ReadOutcome::Frame(f) => ReadDecision::Publish(f),
        ReadOutcome::CapacityExceeded => ReadDecision::KeepReading,
        ReadOutcome::TransportFailure => ReadDecision::ConnectionLost,
    }
}

} // verus!
