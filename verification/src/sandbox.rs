//! The sandbox context that one plugin instance runs in.

use vstd::prelude::*;
use wasmtime_wasi::WasiCtx;

verus! {

/// The engine's description of what a guest may reach of the outside world.
#[verifier::external_type_specification]
#[verifier::external_body]
pub struct ExWasiCtx(WasiCtx);

/// `WasiCtx::default`: a context of its own for one instance, as the engine
/// makes it when nothing is granted. Nothing is claimed of the value.
#[verifier::external_body]
pub(crate) fn sandbox_default() -> (ctx: WasiCtx) {
    WasiCtx::default()
}

} // verus!
