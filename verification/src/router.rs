//! Envelope router: an opcode-filtered waiter. Each waiter holds its own
//! subscription to the bus, discards every envelope whose opcode is not the
//! one awaited, and returns the first match — so concurrent waiters for
//! different opcodes never steal each other's envelopes.

use vstd::prelude::*;

use crate::payload::{Op, Payload, PartialPayload};

verus! {

/// The index of the first envelope with the wanted opcode among those a
/// subscription has delivered, oldest first.
pub open spec fn spec_first_match(frames: Seq<Payload>, op: Op) -> Option<int>
    decreases frames.len(),
{
    if frames.len() == 0 {
        Option::None
    } else if frames[0].op == op {
        Option::Some(0)
    } else {
        match spec_first_match(frames.drop_first(), op) {
            Option::Some(i) => Option::Some(i + 1),
            Option::None => Option::None,
        }
    }
}

/// Router correctness: a waiter for an opcode never returns an envelope
/// whose opcode differs, it returns the earliest match, and it returns
/// nothing only where nothing matches.
pub proof fn lemma_router_correct(frames: Seq<Payload>, op: Op)
    ensures
        match spec_first_match(frames, op) {
            Option::Some(i) => 0 <= i < frames.len() && frames[i].op == op && (forall|j: int|
                0 <= j < i ==> frames[j].op != op),
            Option::None => forall|j: int| 0 <= j < frames.len() ==> frames[j].op != op,
        },
    decreases frames.len(),
{
    if frames.len() == 0 {
    } else if frames[0].op == op {
    } else {
        lemma_router_correct(frames.drop_first(), op);
        assert forall|j: int| 1 <= j < frames.len() implies frames[j]
            == frames.drop_first()[j - 1] by {
        }
    }
}

/// One step of a waiter's filter: whether a frame, classified by its partial
/// decode, is the one this waiter is blocked on.
pub fn accepts(op: Op, pp: &PartialPayload) -> (r: bool)
    ensures
        r == (pp.op == op),
{
    pp.op == op
}

/// What a waiter for `op` returns once the frames up to the first match have
/// been delivered: the index of that match, every earlier frame discarded.
pub fn wait_for(op: Op, frames: &Vec<Payload>) -> (r: Option<usize>)
    ensures
        match r {
            Option::Some(i) => spec_first_match(frames@, op) == Option::Some(i as int),
            Option::None => spec_first_match(frames@, op) is None,
        },
{
    let n = frames.len();
    let mut k: usize = 0;
    while k < n
        invariant
            k <= n,
            n == frames@.len(),
            forall|j: int| 0 <= j < k ==> frames@[j].op != op,
        decreases n - k,
    {
        if accepts(op, &PartialPayload { op: frames[k].op }) {
            proof {
                lemma_first_match_at(frames@, op, k as int);
            }
            return Option::Some(k);
        }
        k = k + 1;
    }
    proof {
        lemma_first_match_none(frames@, op);
    }
    Option::None
}

/// Where every frame before `i` mismatches and the frame at `i` matches, the
/// first match stands exactly at `i`.
proof fn lemma_first_match_at(frames: Seq<Payload>, op: Op, i: int)
    requires
        0 <= i < frames.len(),
        frames[i].op == op,
        forall|j: int| 0 <= j < i ==> frames[j].op != op,
    ensures
        spec_first_match(frames, op) == Option::Some(i),
    decreases i,
{
    if i == 0 {
    } else {
        assert(frames[0].op != op);
        lemma_first_match_at(frames.drop_first(), op, i - 1);
    }
}

/// Where every frame mismatches, there is no first match.
proof fn lemma_first_match_none(frames: Seq<Payload>, op: Op)
    requires
        forall|j: int| 0 <= j < frames.len() ==> frames[j].op != op,
    ensures
        spec_first_match(frames, op) is None,
    decreases frames.len(),
{
    if frames.len() > 0 {
        lemma_first_match_none(frames.drop_first(), op);
    }
}

} // verus!
