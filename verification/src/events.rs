//! Application-level dispatch event bodies.

use vstd::prelude::*;
use crate::payload::PayloadData;

verus! {

/// Session-confirming dispatch event: carries the session id to store for
/// later resume attempts.
#[derive(Clone, Debug, PartialEq, Eq)]
pub struct Ready {
    pub session_id: String,
}

/// A chat message dispatch event.
#[derive(Clone, Debug, PartialEq, Eq)]
pub struct Message {
    pub channel_id: String,
}

impl PayloadData for Ready {
}

impl PayloadData for Message {
}

} // verus!
