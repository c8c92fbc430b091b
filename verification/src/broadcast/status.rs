//! The broadcast status of one proof and its transitions.
use vstd::prelude::*;
use crate::clock::unix_time_millis;

verus! {

/// Status of proof broadcasting to the network
#[derive(Clone, Copy, PartialEq, Eq, Structural, Debug)]
pub enum BroadcastStatus {
    /// Proof has not been broadcast yet
    NotBroadcast,
    /// Proof is currently being broadcast
    Broadcasting,
    /// Proof has been successfully broadcast
    Broadcast,
    /// Proof broadcasting failed after retries
    Failed,
}

impl Default for BroadcastStatus {
    fn default() -> (r: Self)
        ensures
            r == BroadcastStatus::NotBroadcast,
    {
        BroadcastStatus::NotBroadcast
    }
}

/// Broadcast state for a specific execution proof
#[derive(Clone, Copy, PartialEq, Eq, Structural, Debug)]
pub struct ProofBroadcastState {
    /// Current broadcast status of this proof
    pub status: BroadcastStatus,
    /// Number of broadcast attempts made
    pub attempts: u32,
    /// When the last broadcast attempt was made (milliseconds since the UNIX
    /// epoch)
    pub last_attempt: Option<u64>,
}

/// The state of a proof never broadcast.
pub open spec fn fresh_state() -> ProofBroadcastState {
    ProofBroadcastState { status: BroadcastStatus::NotBroadcast, attempts: 0, last_attempt: None }
}

impl ProofBroadcastState {
    /// Whether the proof may be broadcast: never broadcast, or failed.
    pub open spec fn spec_ready(&self) -> bool {
        self.status == BroadcastStatus::NotBroadcast || self.status == BroadcastStatus::Failed
    }

    /// Whether a failed broadcast may be retried: it failed and fewer than
    /// `max_attempts` attempts were made.
    pub open spec fn spec_should_retry(&self, max_attempts: u32) -> bool {
        self.status == BroadcastStatus::Failed && self.attempts < max_attempts
    }

    /// The state after one more broadcast attempt starts, whenever it starts.
    pub open spec fn spec_broadcasting(&self, r: ProofBroadcastState) -> bool {
        &&& r.status == BroadcastStatus::Broadcasting
        &&& r.attempts == self.attempts + 1
        &&& r.last_attempt is Some
    }

    /// A state that has not been broadcast, with no attempts.
    pub fn new() -> (r: Self)
        ensures
            r == fresh_state(),
    {
        ProofBroadcastState { status: BroadcastStatus::NotBroadcast, attempts: 0, last_attempt: None }
    }

    /// Whether this proof is ready to be broadcast.
    pub fn is_ready_to_broadcast(&self) -> (r: bool)
        ensures
            r == self.spec_ready(),
    {
        match self.status {
            BroadcastStatus::NotBroadcast | BroadcastStatus::Failed => true,
            _ => false,
        }
    }

    /// Marks the proof as being broadcast: one more attempt, made now (the
    /// clock reading in milliseconds since the UNIX epoch).
    pub fn mark_broadcasting(&mut self)
        requires
            old(self).attempts < u32::MAX,
        ensures
            old(self).spec_broadcasting(*final(self)),
    {
        self.mark_broadcasting_at(unix_time_millis());
    }

    /// Marks the proof as being broadcast: one more attempt, made at `now`
    /// (milliseconds since the UNIX epoch).
    pub fn mark_broadcasting_at(&mut self, now: u64)
        requires
            old(self).attempts < u32::MAX,
        ensures
            old(self).spec_broadcasting(*final(self)),
            *final(self) == (ProofBroadcastState {
                status: BroadcastStatus::Broadcasting,
                attempts: (old(self).attempts + 1) as u32,
                last_attempt: Some(now),
            }),
    {
        self.status = BroadcastStatus::Broadcasting;
        self.attempts = self.attempts + 1;
        self.last_attempt = Some(now);
    }

    /// Marks the proof as successfully broadcast.
    pub fn mark_broadcast_success(&mut self)
        ensures
            *final(self) == (ProofBroadcastState { status: BroadcastStatus::Broadcast, ..*old(self) }),
    {
        self.status = BroadcastStatus::Broadcast;
    }

    /// Marks the proof broadcast as failed.
    pub fn mark_broadcast_failed(&mut self)
        ensures
            *final(self) == (ProofBroadcastState { status: BroadcastStatus::Failed, ..*old(self) }),
    {
        self.status = BroadcastStatus::Failed;
    }

    /// Whether the broadcast should be retried.
    pub fn should_retry_broadcast(&self, max_attempts: u32) -> (r: bool)
        ensures
            r == self.spec_should_retry(max_attempts),
    {
        match self.status {
            BroadcastStatus::Failed => self.attempts < max_attempts,
            _ => false,
        }
    }
}

impl Default for ProofBroadcastState {
    fn default() -> (r: Self)
        ensures
            r == fresh_state(),
    {
        Self::new()
    }
}

/// A proof whose attempts keep failing is retried until `max_attempts`
/// attempts were made, and not after: after `n` failed attempts from a fresh
/// state, a retry is due exactly when `n < max_attempts`.
pub proof fn retries_stop_at_max_attempts(s: ProofBroadcastState, max_attempts: u32)
    requires
        s.status == BroadcastStatus::Failed,
    ensures
        s.spec_should_retry(max_attempts) <==> s.attempts < max_attempts,
        s.spec_ready(),
{
}

/// Starting a broadcast makes a proof not ready; a failure makes it ready
/// again; a success leaves it not ready and never due for retry.
pub proof fn broadcast_cycle(
    s: ProofBroadcastState,
    b: ProofBroadcastState,
    max_attempts: u32,
)
    requires
        s.spec_broadcasting(b),
    ensures
        !b.spec_ready(),
        (ProofBroadcastState { status: BroadcastStatus::Failed, ..b }).spec_ready(),
        !(ProofBroadcastState { status: BroadcastStatus::Broadcast, ..b }).spec_ready(),
        !(ProofBroadcastState { status: BroadcastStatus::Broadcast, ..b }).spec_should_retry(
            max_attempts,
        ),
        b.attempts == s.attempts + 1,
{
}

} // verus!
