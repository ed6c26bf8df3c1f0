//! The scheduler: the recursive-bisection driver of skipping verification.
//!
//! Given a trusted state at height `H_t` and a candidate light block at
//! height `H_u > H_t`, the scheduler asks the verifier for a direct jump.
//! When the verifier reports `InsufficientVotingPower` — the one recoverable
//! failure — it fetches the block at the midpoint height, recursively trusts
//! that pivot, and then recursively closes the remaining upper gap. Every
//! other verifier failure, and every fetcher failure, is fatal.
//!
//! The whole algorithm is mirrored by the spec function [`verify_spec`];
//! [`Scheduler::verify_light_block`] returns exactly what `verify_spec`
//! denotes, so two invocations on equal inputs agree, and the shape of every
//! successful chain follows from [`lemma_verify_spec_chain`].

use vstd::prelude::*;

use crate::router::Router;
use crate::router::RpcRequest;
use crate::router::RpcResponse;
use crate::router::VerifierRequest;
use crate::router::VerifierResponse;
use crate::router::FetchError;
use crate::router::router_wf;
use crate::store::TrustedStore;
use crate::store::store_lookup;
use crate::store::lemma_store_lookup_height;
use crate::types::Duration;
use crate::types::Error;
use crate::types::LightBlock;
use crate::types::Timestamp;
use crate::types::TrustThreshold;
use crate::types::TrustedState;
use crate::types::light_block_wf;

verus! {

/// Options governing one verification run: how much of the old voting power
/// must sign a skipped header, and how old a trusted header may be (relative
/// to `now`) while still serving as an anchor.
#[derive(Copy, Clone, Debug, PartialEq, Eq, Structural)]
pub struct VerificationOptions {
    pub trust_threshold: TrustThreshold,
    pub trusting_period: Duration,
    pub now: Timestamp,
}

/// The scheduler's error taxonomy. Every variant is fatal: the recoverable
/// verifier failure (`InsufficientVotingPower`) is consumed internally to
/// trigger bisection and never surfaces.
#[derive(Copy, Clone, Debug, PartialEq, Eq, Structural)]
pub enum SchedulerError {
    /// The verifier rejected a block for a reason bisection cannot mend; the
    /// verifier's kind is carried along.
    InvalidLightBlock(Error),
    /// The fetcher could not return a block for a requested pivot height.
    FetchFailed(FetchError),
    /// Arithmetic overflow while computing a pivot height.
    HeightOverflow,
    /// The caller supplied a trusted height at or above the target height,
    /// or an internally inconsistent light block.
    InvalidInput,
}

/// Requests a client may address to the scheduler.
#[derive(Clone, Debug, PartialEq, Eq)]
pub enum SchedulerInput {
    VerifyUntrustedLightBlock(LightBlock),
}

/// What a successful run yields: the verified chain of trusted states,
/// ascending by height.
#[derive(Clone, Debug, PartialEq, Eq)]
pub enum SchedulerOutput {
    ValidLightBlock(Vec<TrustedState>),
}

/// What `verify_light_block` denotes, level by level.
///
/// The three spec functions below mirror the three stages of one recursion
/// level — the direct attempt, the classification of a failure, and the
/// bisection — and decrease lexicographically on (height gap, stage).
pub open spec fn verify_spec<R: Router>(
    router: R,
    store: Seq<TrustedState>,
    trusted_state: TrustedState,
    light_block: LightBlock,
    options: VerificationOptions,
) -> Result<Seq<TrustedState>, SchedulerError>
    decreases light_block.height - trusted_state.header.height, 2int,
{
    if trusted_state.header.height >= light_block.height || !light_block_wf(light_block) {
        Err(SchedulerError::InvalidInput)
    } else {
        match store_lookup(store, light_block.height) {
            Some(stored_state) => Ok(seq![stored_state]),
            None => match router.verifier_response(trusted_state, light_block, options) {
                VerifierResponse::VerificationSucceeded(new_state) => Ok(seq![new_state]),
                VerifierResponse::VerificationFailed(err) => verification_failed_spec(
                    router,
                    store,
                    err,
                    trusted_state,
                    light_block,
                    options,
                ),
            },
        }
    }
}

/// Classification of a direct-verification failure: only
/// `InsufficientVotingPower` over a gap of at least 2 warrants bisection;
/// over a unit gap no pivot remains, so even that kind is fatal.
pub open spec fn verification_failed_spec<R: Router>(
    router: R,
    store: Seq<TrustedState>,
    err: Error,
    trusted_state: TrustedState,
    light_block: LightBlock,
    options: VerificationOptions,
) -> Result<Seq<TrustedState>, SchedulerError>
    decreases light_block.height - trusted_state.header.height, 1int,
{
    if !(err is InsufficientVotingPower) {
        Err(SchedulerError::InvalidLightBlock(err))
    } else if light_block.height - trusted_state.header.height <= 1 {
        Err(SchedulerError::InvalidLightBlock(err))
    } else {
        bisection_spec(router, store, trusted_state, light_block, options)
    }
}

/// One bisection step: fetch the midpoint block, trust it from below, then
/// trust the target from the pivot, and concatenate the two sub-chains. The
/// left chain ends at the pivot and the right chain stays above it, so the
/// concatenation is already ascending by height.
///
/// The two guards on the fetched block's height and on the left chain's last
/// height never fire under `router_wf`; they keep the recursion well-founded
/// for arbitrary routers.
pub open spec fn bisection_spec<R: Router>(
    router: R,
    store: Seq<TrustedState>,
    trusted_state: TrustedState,
    light_block: LightBlock,
    options: VerificationOptions,
) -> Result<Seq<TrustedState>, SchedulerError>
    decreases light_block.height - trusted_state.header.height, 0int,
{
    let trusted_height = trusted_state.header.height;
    let untrusted_height = light_block.height;
    if trusted_height + 2 > untrusted_height {
        Err(SchedulerError::InvalidInput)
    } else if trusted_height + untrusted_height > u64::MAX {
        Err(SchedulerError::HeightOverflow)
    } else {
        let pivot_height = ((trusted_height + untrusted_height) / 2) as u64;
        match router.rpc_response(pivot_height) {
            RpcResponse::FetchFailed(fetch_error) => Err(SchedulerError::FetchFailed(fetch_error)),
            RpcResponse::FetchedLightBlock(pivot_block) => {
                if pivot_block.height != pivot_height {
                    Err(SchedulerError::InvalidInput)
                } else {
                    match verify_spec(router, store, trusted_state, pivot_block, options) {
                        Err(e) => Err(e),
                        Ok(left_chain) => {
                            if left_chain.len() == 0 || left_chain.last().header.height
                                != pivot_height {
                                Err(SchedulerError::InvalidInput)
                            } else {
                                match verify_spec(
                                    router,
                                    store,
                                    left_chain.last(),
                                    light_block,
                                    options,
                                ) {
                                    Err(e) => Err(e),
                                    Ok(right_chain) => Ok(left_chain + right_chain),
                                }
                            }
                        },
                    }
                }
            },
        }
    }
}

/// One chain element is justified: it either sits in the trusted store at its
/// own height, or the verifier accepted it from `anchor` on some block at its
/// height.
pub open spec fn link_ok<R: Router>(
    router: R,
    store: Seq<TrustedState>,
    anchor: TrustedState,
    options: VerificationOptions,
    state: TrustedState,
) -> bool {
    ||| store_lookup(store, state.header.height) == Some(state)
    ||| exists|block: LightBlock|
        block.height == state.header.height
            && #[trigger] router.verifier_response(anchor, block, options)
            == VerifierResponse::VerificationSucceeded(state)
}

/// Every element of `chain` is justified with its immediate predecessor as
/// anchor (`anchor` itself for the first element).
pub open spec fn chain_linked<R: Router>(
    router: R,
    store: Seq<TrustedState>,
    anchor: TrustedState,
    options: VerificationOptions,
    chain: Seq<TrustedState>,
) -> bool
    decreases chain.len(),
{
    chain.len() == 0 || {
        &&& link_ok(router, store, anchor, options, chain[0])
        &&& chain_linked(router, store, chain[0], options, chain.drop_first())
    }
}

/// Justification composes: a chain from `anchor` to its last element,
/// followed by a chain anchored at that last element, is one justified chain.
pub proof fn lemma_chain_linked_concat<R: Router>(
    router: R,
    store: Seq<TrustedState>,
    anchor: TrustedState,
    options: VerificationOptions,
    left_chain: Seq<TrustedState>,
    right_chain: Seq<TrustedState>,
)
    requires
        left_chain.len() >= 1,
        chain_linked(router, store, anchor, options, left_chain),
        chain_linked(router, store, left_chain.last(), options, right_chain),
    ensures
        chain_linked(router, store, anchor, options, left_chain + right_chain),
    decreases left_chain.len(),
{
    if left_chain.len() == 1 {
        assert((left_chain + right_chain).drop_first() =~= right_chain);
        assert(left_chain[0] == left_chain.last());
    } else {
        assert(left_chain.drop_first().last() == left_chain.last());
        lemma_chain_linked_concat(
            router,
            store,
            left_chain[0],
            options,
            left_chain.drop_first(),
            right_chain,
        );
        assert((left_chain + right_chain).drop_first() =~= left_chain.drop_first() + right_chain);
    }
}

/// Shape and soundness of every successful run (the scheduler's
/// postcondition): the chain is non-empty, strictly ascending by height,
/// starts above the anchor's height, ends exactly at the target height, and
/// every element is justified by the store or by a verifier acceptance from
/// its predecessor.
pub proof fn lemma_verify_spec_chain<R: Router>(
    router: R,
    store: Seq<TrustedState>,
    trusted_state: TrustedState,
    light_block: LightBlock,
    options: VerificationOptions,
)
    requires
        router_wf(router),
        verify_spec(router, store, trusted_state, light_block, options) is Ok,
    ensures
        ({
            let chain = verify_spec(router, store, trusted_state, light_block, options)->Ok_0;
            &&& chain.len() >= 1
            &&& chain.last().header.height == light_block.height
            &&& forall|i: int|
                0 <= i < chain.len() ==> trusted_state.header.height
                    < (#[trigger] chain[i]).header.height
            &&& forall|i: int, j: int|
                0 <= i < j < chain.len() ==> (#[trigger] chain[i]).header.height
                    < (#[trigger] chain[j]).header.height
            &&& chain_linked(router, store, trusted_state, options, chain)
        }),
    decreases light_block.height - trusted_state.header.height,
{
    let chain = verify_spec(router, store, trusted_state, light_block, options)->Ok_0;
    assert(trusted_state.header.height < light_block.height && light_block_wf(light_block));
    if store_lookup(store, light_block.height) is Some {
        lemma_store_lookup_height(store, light_block.height);
        assert(chain =~= seq![store_lookup(store, light_block.height)->Some_0]);
        assert(chain.drop_first() =~= Seq::<TrustedState>::empty());
        assert(chain_linked(router, store, chain[0], options, Seq::<TrustedState>::empty()));
    } else {
        match router.verifier_response(trusted_state, light_block, options) {
            VerifierResponse::VerificationSucceeded(new_state) => {
                assert(new_state.header == light_block.signed_header.header);
                assert(chain =~= seq![new_state]);
                assert(chain.drop_first() =~= Seq::<TrustedState>::empty());
                assert(chain_linked(router, store, chain[0], options, Seq::<TrustedState>::empty()));
                assert(link_ok(router, store, trusted_state, options, new_state));
            },
            VerifierResponse::VerificationFailed(err) => {
                let trusted_height = trusted_state.header.height;
                let untrusted_height = light_block.height;
                assert(err is InsufficientVotingPower);
                assert(trusted_height + 2 <= untrusted_height);
                assert(trusted_height + untrusted_height <= u64::MAX);
                let pivot_height = ((trusted_height + untrusted_height) / 2) as u64;
                assert(trusted_height < pivot_height < untrusted_height);
                let pivot_block = router.rpc_response(pivot_height)->FetchedLightBlock_0;
                assert(pivot_block.height == pivot_height);
                let left_chain = verify_spec(
                    router,
                    store,
                    trusted_state,
                    pivot_block,
                    options,
                )->Ok_0;
                assert(verify_spec(router, store, trusted_state, pivot_block, options) is Ok);
                lemma_verify_spec_chain(router, store, trusted_state, pivot_block, options);
                let mid_state = left_chain.last();
                assert(left_chain.len() >= 1 && mid_state.header.height == pivot_height);
                assert(verify_spec(router, store, mid_state, light_block, options) is Ok);
                let right_chain = verify_spec(router, store, mid_state, light_block, options)->Ok_0;
                lemma_verify_spec_chain(router, store, mid_state, light_block, options);
                assert(chain =~= left_chain + right_chain);
                assert(right_chain.len() >= 1);
                assert(chain.last() == right_chain.last());
                assert forall|i: int|
                    0 <= i < left_chain.len() implies (#[trigger] left_chain[i]).header.height
                    <= pivot_height by {
                    if i < left_chain.len() - 1 {
                        assert(left_chain[i].header.height < left_chain[left_chain.len()
                            - 1].header.height);
                    }
                }
                assert forall|i: int, j: int|
                    0 <= i < j < chain.len() implies (#[trigger] chain[i]).header.height < (
                #[trigger] chain[j]).header.height by {
                    if j < left_chain.len() {
                        assert(chain[i] == left_chain[i] && chain[j] == left_chain[j]);
                    } else if i >= left_chain.len() {
                        assert(chain[i] == right_chain[i - left_chain.len()]);
                        assert(chain[j] == right_chain[j - left_chain.len()]);
                    } else {
                        assert(chain[i] == left_chain[i]);
                        assert(chain[j] == right_chain[j - left_chain.len()]);
                        assert(chain[i].header.height <= pivot_height);
                        assert(pivot_height < chain[j].header.height);
                    }
                }
                assert forall|i: int|
                    0 <= i < chain.len() implies trusted_state.header.height < (
                #[trigger] chain[i]).header.height by {
                    if i >= left_chain.len() {
                        assert(chain[i] == right_chain[i - left_chain.len()]);
                        assert(pivot_height < chain[i].header.height);
                    } else {
                        assert(chain[i] == left_chain[i]);
                    }
                }
                lemma_chain_linked_concat(
                    router,
                    store,
                    trusted_state,
                    options,
                    left_chain,
                    right_chain,
                );
            },
        }
    }
}

/// The depth of the recursion one run performs: 1 for a level that answers
/// directly (shortcut, direct success, or any abort), and one more than the
/// deeper of the two sub-runs for a level that bisects.
pub open spec fn verify_depth<R: Router>(
    router: R,
    store: Seq<TrustedState>,
    trusted_state: TrustedState,
    light_block: LightBlock,
    options: VerificationOptions,
) -> nat
    decreases light_block.height - trusted_state.header.height,
{
    let trusted_height = trusted_state.header.height;
    let untrusted_height = light_block.height;
    if trusted_height >= untrusted_height || !light_block_wf(light_block) {
        1
    } else if store_lookup(store, untrusted_height) is Some {
        1
    } else {
        match router.verifier_response(trusted_state, light_block, options) {
            VerifierResponse::VerificationSucceeded(new_state) => 1,
            VerifierResponse::VerificationFailed(err) => {
                if !(err is InsufficientVotingPower) || untrusted_height - trusted_height <= 1 {
                    1
                } else if trusted_height + untrusted_height > u64::MAX {
                    1
                } else {
                    let pivot_height = ((trusted_height + untrusted_height) / 2) as u64;
                    match router.rpc_response(pivot_height) {
                        RpcResponse::FetchFailed(fetch_error) => 1,
                        RpcResponse::FetchedLightBlock(pivot_block) => {
                            if pivot_block.height != pivot_height {
                                1
                            } else {
                                let left_depth = verify_depth(
                                    router,
                                    store,
                                    trusted_state,
                                    pivot_block,
                                    options,
                                );
                                match verify_spec(router, store, trusted_state, pivot_block, options) {
                                    Err(e) => 1 + left_depth,
                                    Ok(left_chain) => {
                                        if left_chain.len() == 0 || left_chain.last().header.height
                                            != pivot_height {
                                            1 + left_depth
                                        } else {
                                            let right_depth = verify_depth(
                                                router,
                                                store,
                                                left_chain.last(),
                                                light_block,
                                                options,
                                            );
                                            1 + (if left_depth >= right_depth {
                                                left_depth
                                            } else {
                                                right_depth
                                            })
                                        }
                                    },
                                }
                            }
                        },
                    }
                }
            },
        }
    }
}

/// The ceiling of the base-2 logarithm: 0 for 0 and 1, one more than the
/// logarithm of the halved (rounded up) argument otherwise.
pub open spec fn log2_ceil(n: nat) -> nat
    decreases n,
{
    if n <= 1 {
        0
    } else {
        1 + log2_ceil(((n + 1) / 2) as nat)
    }
}

/// `log2_ceil` is monotonic.
pub proof fn lemma_log2_ceil_mono(smaller: nat, larger: nat)
    requires
        smaller <= larger,
    ensures
        log2_ceil(smaller) <= log2_ceil(larger),
    decreases larger,
{
    if larger > 1 && smaller > 1 {
        lemma_log2_ceil_mono(((smaller + 1) / 2) as nat, ((larger + 1) / 2) as nat);
    }
}

/// Termination, quantified: against any router meeting its contracts, the
/// recursion is never deeper than the ceiling of log2 of the height gap,
/// plus one — each bisection level at least halves the gap. (That the
/// recursion terminates at all is checked by its decreasing measure.)
pub proof fn lemma_verify_depth_bound<R: Router>(
    router: R,
    store: Seq<TrustedState>,
    trusted_state: TrustedState,
    light_block: LightBlock,
    options: VerificationOptions,
)
    requires
        trusted_state.header.height < light_block.height,
    ensures
        verify_depth(router, store, trusted_state, light_block, options) <= log2_ceil(
            (light_block.height - trusted_state.header.height) as nat,
        ) + 1,
    decreases light_block.height - trusted_state.header.height,
{
    let trusted_height = trusted_state.header.height;
    let untrusted_height = light_block.height;
    let gap = (untrusted_height - trusted_height) as nat;
    if light_block_wf(light_block) && store_lookup(store, untrusted_height) is None {
        match router.verifier_response(trusted_state, light_block, options) {
            VerifierResponse::VerificationSucceeded(new_state) => {},
            VerifierResponse::VerificationFailed(err) => {
                if err is InsufficientVotingPower && untrusted_height - trusted_height > 1
                    && trusted_height + untrusted_height <= u64::MAX {
                    let pivot_height = ((trusted_height + untrusted_height) / 2) as u64;
                    assert(pivot_height - trusted_height == gap / 2);
                    assert(untrusted_height - pivot_height == (gap + 1) / 2);
                    match router.rpc_response(pivot_height) {
                        RpcResponse::FetchFailed(fetch_error) => {},
                        RpcResponse::FetchedLightBlock(pivot_block) => {
                            if pivot_block.height == pivot_height {
                                lemma_verify_depth_bound(
                                    router,
                                    store,
                                    trusted_state,
                                    pivot_block,
                                    options,
                                );
                                lemma_log2_ceil_mono((gap / 2) as nat, ((gap + 1) / 2) as nat);
                                match verify_spec(
                                    router,
                                    store,
                                    trusted_state,
                                    pivot_block,
                                    options,
                                ) {
                                    Err(e) => {},
                                    Ok(left_chain) => {
                                        if left_chain.len() > 0 && left_chain.last().header.height
                                            == pivot_height {
                                            lemma_verify_depth_bound(
                                                router,
                                                store,
                                                left_chain.last(),
                                                light_block,
                                                options,
                                            );
                                        }
                                    },
                                }
                            }
                        },
                    }
                }
            },
        }
    }
}

/// Store shortcut: when the store already holds a state at the target height
/// (and the input is admissible), the run denotes exactly that singleton
/// chain. The denoted value mentions only the store, so no verifier or
/// fetcher answer can influence it.
pub proof fn lemma_store_shortcut<R: Router>(
    router: R,
    store: Seq<TrustedState>,
    trusted_state: TrustedState,
    light_block: LightBlock,
    options: VerificationOptions,
)
    requires
        trusted_state.header.height < light_block.height,
        light_block_wf(light_block),
        store_lookup(store, light_block.height) is Some,
    ensures
        verify_spec(router, store, trusted_state, light_block, options) == Ok::<
            Seq<TrustedState>,
            SchedulerError,
        >(seq![store_lookup(store, light_block.height)->Some_0]),
{
}

/// Error classification: a direct-verify failure of any fatal kind — that
/// is, anything but `InsufficientVotingPower` — denotes exactly
/// `InvalidLightBlock` carrying that kind; bisection (and with it any fetch)
/// never enters into the result.
pub proof fn lemma_error_classification<R: Router>(
    router: R,
    store: Seq<TrustedState>,
    trusted_state: TrustedState,
    light_block: LightBlock,
    options: VerificationOptions,
    err: Error,
)
    requires
        trusted_state.header.height < light_block.height,
        light_block_wf(light_block),
        store_lookup(store, light_block.height) is None,
        router.verifier_response(trusted_state, light_block, options)
            == VerifierResponse::VerificationFailed(err),
        !(err is InsufficientVotingPower),
    ensures
        verify_spec(router, store, trusted_state, light_block, options) == Err::<
            Seq<TrustedState>,
            SchedulerError,
        >(SchedulerError::InvalidLightBlock(err)),
{
}

/// Two executable results that agree: the same error, or vectors holding the
/// same states.
pub open spec fn outputs_agree(
    first: Result<SchedulerOutput, SchedulerError>,
    second: Result<SchedulerOutput, SchedulerError>,
) -> bool {
    match (first, second) {
        (
            Ok(SchedulerOutput::ValidLightBlock(first_states)),
            Ok(SchedulerOutput::ValidLightBlock(second_states)),
        ) => first_states@ == second_states@,
        (Err(first_error), Err(second_error)) => first_error == second_error,
        _ => false,
    }
}

/// Idempotence: `verify_light_block` is pure with respect to its inputs.
/// Each invocation returns something that matches the one denotation of its
/// inputs, so two invocations on equal inputs agree.
pub proof fn lemma_verify_idempotent(
    first: Result<SchedulerOutput, SchedulerError>,
    second: Result<SchedulerOutput, SchedulerError>,
    denoted: Result<Seq<TrustedState>, SchedulerError>,
)
    requires
        output_matches(first, denoted),
        output_matches(second, denoted),
    ensures
        outputs_agree(first, second),
{
}

/// How an executable result relates to the denotation: equal error, or a
/// vector whose view is the denoted chain.
pub open spec fn output_matches(
    result: Result<SchedulerOutput, SchedulerError>,
    denoted: Result<Seq<TrustedState>, SchedulerError>,
) -> bool {
    match (result, denoted) {
        (Ok(SchedulerOutput::ValidLightBlock(states)), Ok(chain)) => states@ == chain,
        (Err(actual), Err(expected)) => actual == expected,
        _ => false,
    }
}

/// The scheduler: drives skipping verification with recursive bisection,
/// reading (never writing) the trusted store.
pub struct Scheduler {
    trusted_store: TrustedStore,
}

impl Scheduler {
    /// The states the scheduler's store holds.
    pub closed spec fn store(&self) -> Seq<TrustedState> {
        self.trusted_store@
    }

    pub fn new(trusted_store: TrustedStore) -> (scheduler: Self)
        ensures
            scheduler.store() == trusted_store@,
    {
        Self { trusted_store }
    }

    /// Establish trust in `light_block`, starting from `trusted_state`.
    ///
    /// The result is exactly what [`verify_spec`] denotes; on success the
    /// returned states are non-empty, strictly ascending by height, all above
    /// the anchor's height, ending at `light_block.height`, and each one is
    /// justified by the store or by a verifier acceptance from its
    /// predecessor in the chain.
    pub fn verify_light_block<R: Router>(
        &self,
        router: &R,
        trusted_state: TrustedState,
        light_block: LightBlock,
        options: VerificationOptions,
    ) -> (r: Result<SchedulerOutput, SchedulerError>)
        requires
            router_wf(*router),
        ensures
            output_matches(
                r,
                verify_spec(*router, self.store(), trusted_state, light_block, options),
            ),
            r matches Ok(SchedulerOutput::ValidLightBlock(states)) ==> {
                &&& states@.len() >= 1
                &&& states@.last().header.height == light_block.height
                &&& forall|i: int|
                    0 <= i < states@.len() ==> trusted_state.header.height
                        < (#[trigger] states@[i]).header.height
                &&& forall|i: int, j: int|
                    0 <= i < j < states@.len() ==> (#[trigger] states@[i]).header.height
                        < (#[trigger] states@[j]).header.height
                &&& chain_linked(*router, self.store(), trusted_state, options, states@)
            },
        decreases light_block.height - trusted_state.header.height, 2int,
    {
        let r: Result<SchedulerOutput, SchedulerError> = if trusted_state.header.height
            >= light_block.height {
            Err(SchedulerError::InvalidInput)
        } else if !light_block.is_well_formed() {
            Err(SchedulerError::InvalidInput)
        } else {
            match self.trusted_store.get(light_block.height) {
                Some(trusted_state_in_store) => self.verification_succeded(trusted_state_in_store),
                None => {
                    let verifier_result = self.perform_verify_light_block(
                        router,
                        trusted_state,
                        light_block,
                        options,
                    );
                    match verifier_result {
                        VerifierResponse::VerificationSucceeded(new_trusted_state) => self
                            .verification_succeded(new_trusted_state),
                        VerifierResponse::VerificationFailed(err) => self.verification_failed(
                            router,
                            err,
                            trusted_state,
                            light_block,
                            options,
                        ),
                    }
                },
            }
        };
        proof {
            if verify_spec(*router, self.store(), trusted_state, light_block, options) is Ok {
                lemma_verify_spec_chain(
                    *router,
                    self.store(),
                    trusted_state,
                    light_block,
                    options,
                );
            }
        }
        r
    }

    /// Issue the direct verifier query for `(trusted_state, light_block)`.
    fn perform_verify_light_block<R: Router>(
        &self,
        router: &R,
        trusted_state: TrustedState,
        light_block: LightBlock,
        options: VerificationOptions,
    ) -> (response: VerifierResponse)
        ensures
            response == router.verifier_response(trusted_state, light_block, options),
    {
        router.query_verifier(
            VerifierRequest::VerifyLightBlock { trusted_state, light_block, options },
        )
    }

    /// Wrap one newly trusted state as a singleton chain.
    fn verification_succeded(&self, new_trusted_state: TrustedState) -> (r: Result<
        SchedulerOutput,
        SchedulerError,
    >)
        ensures
            r matches Ok(SchedulerOutput::ValidLightBlock(states)) && states@ == seq![
                new_trusted_state,
            ],
    {
        let mut states: Vec<TrustedState> = Vec::new();
        states.push(new_trusted_state);
        proof {
            assert(states@ =~= seq![new_trusted_state]);
        }
        Ok(SchedulerOutput::ValidLightBlock(states))
    }

    /// Classify a direct-verification failure: bisect on
    /// `InsufficientVotingPower` over a gap of at least 2, abort otherwise.
    fn verification_failed<R: Router>(
        &self,
        router: &R,
        err: Error,
        trusted_state: TrustedState,
        light_block: LightBlock,
        options: VerificationOptions,
    ) -> (r: Result<SchedulerOutput, SchedulerError>)
        requires
            router_wf(*router),
            trusted_state.header.height < light_block.height,
        ensures
            output_matches(
                r,
                verification_failed_spec(
                    *router,
                    self.store(),
                    err,
                    trusted_state,
                    light_block,
                    options,
                ),
            ),
        decreases light_block.height - trusted_state.header.height, 1int,
    {
        match err {
            Error::InsufficientVotingPower => {
                if light_block.height - trusted_state.header.height <= 1 {
                    Err(SchedulerError::InvalidLightBlock(err))
                } else {
                    self.perform_bisection(router, trusted_state, light_block, options)
                }
            },
            _ => Err(SchedulerError::InvalidLightBlock(err)),
        }
    }

    /// Fetch the midpoint block, trust it from below, then trust the target
    /// from the pivot. The left chain ends at the pivot and the right chain
    /// stays above it, so appending the right chain to the left one yields
    /// the whole chain already ascending by height.
    fn perform_bisection<R: Router>(
        &self,
        router: &R,
        trusted_state: TrustedState,
        light_block: LightBlock,
        options: VerificationOptions,
    ) -> (r: Result<SchedulerOutput, SchedulerError>)
        requires
            router_wf(*router),
            trusted_state.header.height + 2 <= light_block.height,
        ensures
            output_matches(
                r,
                bisection_spec(*router, self.store(), trusted_state, light_block, options),
            ),
        decreases light_block.height - trusted_state.header.height, 0int,
    {
        let trusted_height = trusted_state.header.height;
        let untrusted_height = light_block.height;
        let sum = match trusted_height.checked_add(untrusted_height) {
            None => {
                return Err(SchedulerError::HeightOverflow);
            },
            Some(sum) => sum,
        };
        let pivot_height = sum / 2;

        let pivot_light_block = match self.request_fetch_light_block(router, pivot_height) {
            Err(e) => {
                return Err(e);
            },
            Ok(block) => block,
        };
        proof {
            assert(pivot_light_block.height == pivot_height);
            assert(trusted_height < pivot_height < untrusted_height);
        }

        let left_result = self.verify_light_block(router, trusted_state, pivot_light_block, options);
        let left_output = match left_result {
            Err(e) => {
                return Err(e);
            },
            Ok(output) => output,
        };
        let mut left_states = match left_output {
            SchedulerOutput::ValidLightBlock(states) => states,
        };
        proof {
            lemma_verify_spec_chain(*router, self.store(), trusted_state, pivot_light_block, options);
        }
        let last_index = left_states.len() - 1;
        let trusted_state_left = left_states[last_index];

        let right_result = self.verify_light_block(router, trusted_state_left, light_block, options);
        let right_output = match right_result {
            Err(e) => {
                return Err(e);
            },
            Ok(output) => output,
        };
        let mut right_states = match right_output {
            SchedulerOutput::ValidLightBlock(states) => states,
        };
        left_states.append(&mut right_states);
        Ok(SchedulerOutput::ValidLightBlock(left_states))
    }

    /// Resolve a pivot height into a light block, surfacing a fetcher failure
    /// as the fatal `FetchFailed`.
    fn request_fetch_light_block<R: Router>(&self, router: &R, height: u64) -> (r: Result<
        LightBlock,
        SchedulerError,
    >)
        ensures
            (match router.rpc_response(height) {
                RpcResponse::FetchedLightBlock(block) => r == Ok::<LightBlock, SchedulerError>(
                    block,
                ),
                RpcResponse::FetchFailed(fetch_error) => r == Err::<LightBlock, SchedulerError>(
                    SchedulerError::FetchFailed(fetch_error),
                ),
            }),
    {
        let rpc_response = router.query_rpc(RpcRequest::FetchLightBlock(height));
        match rpc_response {
            RpcResponse::FetchedLightBlock(light_block) => Ok(light_block),
            RpcResponse::FetchFailed(fetch_error) => Err(SchedulerError::FetchFailed(fetch_error)),
        }
    }
}

} // verus!
