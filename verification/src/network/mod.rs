//! Fetching execution proofs from peers by request: which peers to ask, and
//! which requests are outstanding.
pub mod peer;
pub mod proof_peer_selector;
pub mod proof_request_tracker;
