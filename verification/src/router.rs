//! The capability bundle the scheduler dispatches through: a verifier query
//! and a fetcher (RPC) query behind one uniform trait, so the scheduler can
//! be driven by a real network binding or by a deterministic in-memory mock.

use vstd::prelude::*;

use crate::scheduler::VerificationOptions;
use crate::types::Height;
use crate::types::LightBlock;
use crate::types::TrustedState;
use crate::types::Error;
use crate::types::light_block_wf;

verus! {

/// Why the fetcher could not return a block for a requested height.
#[derive(Copy, Clone, Debug, PartialEq, Eq, Structural)]
pub enum FetchError {
    /// The call was cancelled, for instance by a per-RPC deadline.
    Cancelled,
    /// The fetcher has no block to offer at the requested height.
    Unavailable,
}

/// A query to the verifier: can `trusted_state` be extended to trust
/// `light_block` under `options`?
#[derive(Copy, Clone, Debug, PartialEq, Eq, Structural)]
pub enum VerifierRequest {
    VerifyLightBlock {
        trusted_state: TrustedState,
        light_block: LightBlock,
        options: VerificationOptions,
    },
}

/// The verifier's decision.
#[derive(Copy, Clone, Debug, PartialEq, Eq, Structural)]
pub enum VerifierResponse {
    VerificationSucceeded(TrustedState),
    VerificationFailed(Error),
}

/// A query to the fetcher: retrieve the light block at a height.
#[derive(Copy, Clone, Debug, PartialEq, Eq, Structural)]
pub enum RpcRequest {
    FetchLightBlock(Height),
}

/// The fetcher's answer.
#[derive(Copy, Clone, Debug, PartialEq, Eq, Structural)]
pub enum RpcResponse {
    FetchedLightBlock(LightBlock),
    FetchFailed(FetchError),
}

/// Uniform dispatch surface over the verifier and the fetcher.
///
/// A router is deterministic: what each query returns is fixed by the two
/// spec functions, so one `verify` invocation is a pure function of its
/// inputs. What those answers are allowed to be is a separate, quantified
/// soundness condition, [`router_wf`].
pub trait Router {
    /// The verifier's decision on `(trusted_state, light_block, options)`.
    spec fn verifier_response(
        &self,
        trusted_state: TrustedState,
        light_block: LightBlock,
        options: VerificationOptions,
    ) -> VerifierResponse;

    /// The fetcher's answer for `height`.
    spec fn rpc_response(&self, height: Height) -> RpcResponse;

    /// Dispatch a verifier query.
    fn query_verifier(&self, request: VerifierRequest) -> (response: VerifierResponse)
        ensures
            (match request {
                VerifierRequest::VerifyLightBlock { trusted_state, light_block, options } =>
                    response == self.verifier_response(trusted_state, light_block, options),
            }),
    ;

    /// Dispatch a fetcher query.
    fn query_rpc(&self, request: RpcRequest) -> (response: RpcResponse)
        ensures
            (match request {
                RpcRequest::FetchLightBlock(height) => response == self.rpc_response(height),
            }),
    ;
}

/// The verifier's external contract: on success it hands back exactly the
/// candidate block's header and validator set as the new trusted state.
pub open spec fn verifier_sound<R: Router>(router: R) -> bool {
    forall|trusted_state: TrustedState, light_block: LightBlock, options: VerificationOptions|
        (#[trigger] router.verifier_response(trusted_state, light_block, options)) matches
            VerifierResponse::VerificationSucceeded(new_state) ==> {
            &&& new_state.header == light_block.signed_header.header
            &&& new_state.validators == light_block.validator_set
        }
}

/// The fetcher's external contract: a fetched block is at the requested
/// height and internally consistent.
pub open spec fn fetcher_sound<R: Router>(router: R) -> bool {
    forall|height: Height|
        (#[trigger] router.rpc_response(height)) matches RpcResponse::FetchedLightBlock(block)
            ==> block.height == height && light_block_wf(block)
}

/// Everything the scheduler relies on of its collaborators.
pub open spec fn router_wf<R: Router>(router: R) -> bool {
    verifier_sound(router) && fetcher_sound(router)
}

} // verus!
