//! The verified core of ngenrs, a flat C-compatible bridge to embedded
//! script engines and a handful of storage, network, codec and crypto
//! collaborators: generation-checked handles, the cooperative timer queue,
//! the name-indexed registry of host callbacks, the error channel of the
//! script bridges, and the logic of the collaborators around the outside
//! crates they call.

use vstd::prelude::*;

pub mod crypto;
pub mod exports;
pub mod handles;
pub mod net;
pub mod outcome;
pub mod rows;
pub mod timers;
pub mod zip;

verus! {

} // verus!
