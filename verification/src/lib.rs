//! Storage-reservation ("SRD") bookkeeping of a Crust sWorker enclave:
//! the pending-task counter, the list of sealed SRD directories, the
//! step-by-step job that fills one directory, and the path and hex
//! formatting those steps rely on.
use vstd::prelude::*;

pub mod digest;
pub mod hashes;
pub mod host;
pub mod increase;
pub mod paths;
pub mod random;
pub mod status;
pub mod task;
pub mod text;

verus! {

} // verus!
