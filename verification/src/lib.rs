//! A verified poker table and the coordinator logic around it.
//!
//! [`table`] is the contract of a poker table: who sits where, what may happen
//! next in a hand, which chips move, and which proofs a hand has to bring. The
//! other modules are what the coordinator of the multi-party computation behind
//! the deck decides: which nodes are alive ([`mpc_heartbeat`]) and reliable
//! ([`node_reliability`]), which circuits a session is bound to
//! ([`circuit_pins`]), and which proofs need not be submitted again
//! ([`proof_cache`]).
//!
//! [`guarantees`] says of every operation, over its inputs and results alone, what
//! it gives.
//!
//! Nothing here reads a file, a socket or a ledger: whatever was read comes in
//! as an argument, and whatever is to be written goes out as a result.
use vstd::prelude::*;

pub mod circuit_pins;
pub mod clock;
pub mod constant_time;
pub mod guarantees;
pub mod hashing;
pub mod mpc_heartbeat;
pub mod node_reliability;
pub mod proof_cache;
pub mod sequences;
pub mod string_map;
pub mod table;
pub mod text;

verus! {

} // verus!
