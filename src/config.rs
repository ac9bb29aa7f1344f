//! Launch parameters of the worker.
use vstd::prelude::*;

verus! {

/// The user's configuration of the worker, fixed for one session.
#[allow(non_snake_case)]
#[derive(Clone, Debug)]
pub struct TrinConfig {
    /// Port of the worker's JSON-RPC endpoint.
    pub httpPort: usize,
    /// Storage budget in megabytes.
    pub storage: usize,
    /// The trusted checkpoint the worker starts from.
    pub trustedBlockRoot: String,
}

} // verus!
