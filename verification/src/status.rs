//! Status codes exchanged with the host, as the numbers of `sgx_status_t`.
use vstd::prelude::*;

verus! {

/// `SGX_SUCCESS`.
pub const SGX_SUCCESS: u32 = 0;

/// `SGX_ERROR_UNEXPECTED`.
pub const SGX_ERROR_UNEXPECTED: u32 = 1;

/// `SGX_ERROR_INVALID_PARAMETER`.
pub const SGX_ERROR_INVALID_PARAMETER: u32 = 2;

} // verus!
