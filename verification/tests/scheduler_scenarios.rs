//! Table-driven scenarios for the bisection scheduler, run against the
//! in-memory mock router.

use light_spike::mock::MockRouter;
use light_spike::router::FetchError;
use light_spike::router::RpcResponse;
use light_spike::router::VerifierResponse;
use light_spike::scheduler::Scheduler;
use light_spike::scheduler::SchedulerError;
use light_spike::scheduler::SchedulerOutput;
use light_spike::scheduler::VerificationOptions;
use light_spike::store::TrustedStore;
use light_spike::types::Commit;
use light_spike::types::Error;
use light_spike::types::HashValue;
use light_spike::types::Header;
use light_spike::types::LightBlock;
use light_spike::types::SignedHeader;
use light_spike::types::TrustThreshold;
use light_spike::types::TrustedState;
use light_spike::types::ValidatorSet;

fn hash(digest: u64) -> HashValue {
    HashValue { digest }
}

/// An internally consistent light block at `height`, with hashes derived
/// from the height so distinct heights give distinct blocks.
fn block(height: u64) -> LightBlock {
    let validators_hash = hash(height.wrapping_mul(7).wrapping_add(1));
    let next_validators_hash = hash(height.wrapping_mul(7).wrapping_add(2));
    let header_hash = hash(height.wrapping_mul(7).wrapping_add(3));
    let header = Header {
        height,
        bft_time: 5,
        validator_set_hash: validators_hash,
        next_validator_set_hash: next_validators_hash,
        hash: header_hash,
    };
    LightBlock {
        height,
        signed_header: SignedHeader {
            header,
            commit: Commit { header_hash },
            validators: ValidatorSet { hash: validators_hash },
            validators_hash,
        },
        validator_set: ValidatorSet { hash: validators_hash },
        next_validator_set: ValidatorSet { hash: next_validators_hash },
    }
}

/// The trusted state the verifier hands back when it accepts `b`.
fn trusted(b: &LightBlock) -> TrustedState {
    TrustedState { header: b.signed_header.header, validators: b.validator_set }
}

fn options() -> VerificationOptions {
    VerificationOptions {
        trust_threshold: TrustThreshold { numerator: 1, denominator: 3 },
        trusting_period: 100,
        now: 10,
    }
}

fn succeeded(b: &LightBlock) -> VerifierResponse {
    VerifierResponse::VerificationSucceeded(trusted(b))
}

fn failed(err: Error) -> VerifierResponse {
    VerifierResponse::VerificationFailed(err)
}

fn ok_chain(states: Vec<TrustedState>) -> Result<SchedulerOutput, SchedulerError> {
    Ok(SchedulerOutput::ValidLightBlock(states))
}

#[test]
fn store_hit() {
    // The store already holds height 20: the stored state comes back as a
    // singleton chain. The router is empty, so any verifier consultation
    // would have failed and any fetch would have failed: the Ok result
    // witnesses that neither was consulted.
    let anchor = trusted(&block(10));
    let target = block(20);
    let stored = trusted(&target);
    let mut store = TrustedStore::new();
    store.insert(stored);
    let scheduler = Scheduler::new(store);
    let router = MockRouter::new();
    let result = scheduler.verify_light_block(&router, anchor, target, options());
    assert_eq!(result, ok_chain(vec![stored]));
}

#[test]
fn store_hit_beats_contradicting_verifier() {
    let anchor = trusted(&block(10));
    let target = block(20);
    let stored = trusted(&target);
    let mut store = TrustedStore::new();
    store.insert(stored);
    let scheduler = Scheduler::new(store);
    let mut router = MockRouter::new();
    router.on_verify(anchor, target, options(), failed(Error::InvalidCommit));
    let result = scheduler.verify_light_block(&router, anchor, target, options());
    assert_eq!(result, ok_chain(vec![stored]));
}

#[test]
fn direct_success() {
    // Unit gap, verifier accepts directly; no fetch is needed (the empty
    // fetcher would have failed one).
    let anchor = trusted(&block(10));
    let target = block(11);
    let scheduler = Scheduler::new(TrustedStore::new());
    let mut router = MockRouter::new();
    router.on_verify(anchor, target, options(), succeeded(&target));
    let result = scheduler.verify_light_block(&router, anchor, target, options());
    assert_eq!(result, ok_chain(vec![trusted(&target)]));
}

#[test]
fn one_level_bisection() {
    // Direct verify of 10 -> 20 lacks voting power; the pivot 15 is fetched
    // and both hops verify. The chain comes back ascending.
    let anchor = trusted(&block(10));
    let target = block(20);
    let pivot = block(15);
    let scheduler = Scheduler::new(TrustedStore::new());
    let mut router = MockRouter::new();
    router.on_verify(anchor, target, options(), failed(Error::InsufficientVotingPower));
    router.on_fetch(15, RpcResponse::FetchedLightBlock(pivot));
    router.on_verify(anchor, pivot, options(), succeeded(&pivot));
    router.on_verify(trusted(&pivot), target, options(), succeeded(&target));
    let result = scheduler.verify_light_block(&router, anchor, target, options());
    assert_eq!(result, ok_chain(vec![trusted(&pivot), trusted(&target)]));
}

#[test]
fn two_level_bisection() {
    // 10 -> 20 and 10 -> 15 both lack voting power; 10 -> 12, 12 -> 15 and
    // 15 -> 20 verify. Fetches at 15 and 12; heights strictly increasing.
    let anchor = trusted(&block(10));
    let target = block(20);
    let mid = block(15);
    let low = block(12);
    let scheduler = Scheduler::new(TrustedStore::new());
    let mut router = MockRouter::new();
    router.on_verify(anchor, target, options(), failed(Error::InsufficientVotingPower));
    router.on_verify(anchor, mid, options(), failed(Error::InsufficientVotingPower));
    router.on_fetch(15, RpcResponse::FetchedLightBlock(mid));
    router.on_fetch(12, RpcResponse::FetchedLightBlock(low));
    router.on_verify(anchor, low, options(), succeeded(&low));
    router.on_verify(trusted(&low), mid, options(), succeeded(&mid));
    router.on_verify(trusted(&mid), target, options(), succeeded(&target));
    let result = scheduler.verify_light_block(&router, anchor, target, options());
    assert_eq!(
        result,
        ok_chain(vec![trusted(&low), trusted(&mid), trusted(&target)])
    );
}

#[test]
fn fatal_abort_on_invalid_commit() {
    // A fatal verifier kind aborts immediately; the empty fetcher shows no
    // fetch was consulted (a fetch would have surfaced as FetchFailed).
    let anchor = trusted(&block(10));
    let target = block(20);
    let scheduler = Scheduler::new(TrustedStore::new());
    let mut router = MockRouter::new();
    router.on_verify(anchor, target, options(), failed(Error::InvalidCommit));
    let result = scheduler.verify_light_block(&router, anchor, target, options());
    assert_eq!(
        result,
        Err(SchedulerError::InvalidLightBlock(Error::InvalidCommit))
    );
}

#[test]
fn recoverable_then_fatal() {
    // Bisection starts, but the left recursion hits a fatal kind: the error
    // surfaces and the right half is never attempted (no entries exist for
    // it).
    let anchor = trusted(&block(10));
    let target = block(20);
    let pivot = block(15);
    let scheduler = Scheduler::new(TrustedStore::new());
    let mut router = MockRouter::new();
    router.on_verify(anchor, target, options(), failed(Error::InsufficientVotingPower));
    router.on_fetch(15, RpcResponse::FetchedLightBlock(pivot));
    router.on_verify(anchor, pivot, options(), failed(Error::InvalidValidatorSet));
    let result = scheduler.verify_light_block(&router, anchor, target, options());
    assert_eq!(
        result,
        Err(SchedulerError::InvalidLightBlock(Error::InvalidValidatorSet))
    );
}

#[test]
fn every_fatal_kind_aborts_with_its_own_kind() {
    let fatal_kinds = vec![
        Error::ImplementationSpecific,
        Error::InsufficientValidatorsOverlap,
        Error::InvalidCommit,
        Error::InvalidCommitValue,
        Error::InvalidNextValidatorSet,
        Error::InvalidValidatorSet,
        Error::NonIncreasingHeight { got: 9, expected: 21 },
        Error::NonMonotonicBftTime,
        Error::NotWithinTrustPeriod,
    ];
    for kind in fatal_kinds {
        let anchor = trusted(&block(10));
        let target = block(20);
        let scheduler = Scheduler::new(TrustedStore::new());
        let mut router = MockRouter::new();
        router.on_verify(anchor, target, options(), failed(kind));
        let result = scheduler.verify_light_block(&router, anchor, target, options());
        assert_eq!(result, Err(SchedulerError::InvalidLightBlock(kind)));
    }
}

#[test]
fn insufficient_power_at_unit_gap_is_fatal() {
    // At a gap of 1 no pivot remains, so even the recoverable kind aborts.
    let anchor = trusted(&block(10));
    let target = block(11);
    let scheduler = Scheduler::new(TrustedStore::new());
    let mut router = MockRouter::new();
    router.on_verify(anchor, target, options(), failed(Error::InsufficientVotingPower));
    let result = scheduler.verify_light_block(&router, anchor, target, options());
    assert_eq!(
        result,
        Err(SchedulerError::InvalidLightBlock(Error::InsufficientVotingPower))
    );
}

#[test]
fn non_increasing_heights_are_invalid_input() {
    let anchor = trusted(&block(20));
    let scheduler = Scheduler::new(TrustedStore::new());
    let router = MockRouter::new();
    let same = scheduler.verify_light_block(&router, anchor, block(20), options());
    assert_eq!(same, Err(SchedulerError::InvalidInput));
    let below = scheduler.verify_light_block(&router, anchor, block(15), options());
    assert_eq!(below, Err(SchedulerError::InvalidInput));
}

#[test]
fn input_check_precedes_store_shortcut() {
    // The height discipline is checked before the store is consulted.
    let anchor = trusted(&block(30));
    let target = block(20);
    let mut store = TrustedStore::new();
    store.insert(trusted(&target));
    let scheduler = Scheduler::new(store);
    let router = MockRouter::new();
    let result = scheduler.verify_light_block(&router, anchor, target, options());
    assert_eq!(result, Err(SchedulerError::InvalidInput));
}

#[test]
fn inconsistent_block_is_invalid_input() {
    let anchor = trusted(&block(10));
    let mut target = block(20);
    // Break the commit: it no longer attests to this header.
    target.signed_header.commit = Commit { header_hash: hash(999) };
    let scheduler = Scheduler::new(TrustedStore::new());
    let router = MockRouter::new();
    let result = scheduler.verify_light_block(&router, anchor, target, options());
    assert_eq!(result, Err(SchedulerError::InvalidInput));
}

#[test]
fn missing_pivot_surfaces_fetch_failure() {
    let anchor = trusted(&block(10));
    let target = block(20);
    let scheduler = Scheduler::new(TrustedStore::new());
    let mut router = MockRouter::new();
    router.on_verify(anchor, target, options(), failed(Error::InsufficientVotingPower));
    let result = scheduler.verify_light_block(&router, anchor, target, options());
    assert_eq!(
        result,
        Err(SchedulerError::FetchFailed(FetchError::Unavailable))
    );
}

#[test]
fn cancelled_fetch_surfaces_as_fatal() {
    let anchor = trusted(&block(10));
    let target = block(20);
    let scheduler = Scheduler::new(TrustedStore::new());
    let mut router = MockRouter::new();
    router.on_verify(anchor, target, options(), failed(Error::InsufficientVotingPower));
    router.on_fetch(15, RpcResponse::FetchFailed(FetchError::Cancelled));
    let result = scheduler.verify_light_block(&router, anchor, target, options());
    assert_eq!(
        result,
        Err(SchedulerError::FetchFailed(FetchError::Cancelled))
    );
}

#[test]
fn pivot_overflow_is_surfaced() {
    // Heights near the top of the range: the additive midpoint overflows
    // and the scheduler reports it rather than panicking.
    let anchor = trusted(&block(u64::MAX - 2));
    let target = block(u64::MAX);
    let scheduler = Scheduler::new(TrustedStore::new());
    let mut router = MockRouter::new();
    router.on_verify(anchor, target, options(), failed(Error::InsufficientVotingPower));
    let result = scheduler.verify_light_block(&router, anchor, target, options());
    assert_eq!(result, Err(SchedulerError::HeightOverflow));
}

#[test]
fn store_hit_at_pivot_is_used_during_bisection() {
    // The store is consulted at every recursion level: the pivot at 15 is
    // served from the store, so only the right hop needs the verifier.
    let anchor = trusted(&block(10));
    let target = block(20);
    let pivot = block(15);
    let stored_pivot = trusted(&pivot);
    let mut store = TrustedStore::new();
    store.insert(stored_pivot);
    let scheduler = Scheduler::new(store);
    let mut router = MockRouter::new();
    router.on_verify(anchor, target, options(), failed(Error::InsufficientVotingPower));
    router.on_fetch(15, RpcResponse::FetchedLightBlock(pivot));
    router.on_verify(stored_pivot, target, options(), succeeded(&target));
    let result = scheduler.verify_light_block(&router, anchor, target, options());
    assert_eq!(result, ok_chain(vec![stored_pivot, trusted(&target)]));
}

#[test]
fn equal_inputs_give_equal_outputs() {
    // Two invocations on equal inputs agree, Ok and Err alike.
    let anchor = trusted(&block(10));
    let target = block(20);
    let pivot = block(15);
    let scheduler = Scheduler::new(TrustedStore::new());
    let mut router = MockRouter::new();
    router.on_verify(anchor, target, options(), failed(Error::InsufficientVotingPower));
    router.on_fetch(15, RpcResponse::FetchedLightBlock(pivot));
    router.on_verify(anchor, pivot, options(), succeeded(&pivot));
    router.on_verify(trusted(&pivot), target, options(), succeeded(&target));
    let first = scheduler.verify_light_block(&router, anchor, target, options());
    let second = scheduler.verify_light_block(&router, anchor, target, options());
    assert_eq!(first, second);

    let failing = Scheduler::new(TrustedStore::new());
    let empty_router = MockRouter::new();
    let third = failing.verify_light_block(&empty_router, anchor, target, options());
    let fourth = failing.verify_light_block(&empty_router, anchor, target, options());
    assert_eq!(third, fourth);
}

#[test]
fn chain_shape_on_success() {
    // Chain-shape invariants on a successful two-level run: non-empty,
    // strictly ascending, all above the anchor, ending at the target height.
    let anchor = trusted(&block(10));
    let target = block(20);
    let mid = block(15);
    let low = block(12);
    let scheduler = Scheduler::new(TrustedStore::new());
    let mut router = MockRouter::new();
    router.on_verify(anchor, target, options(), failed(Error::InsufficientVotingPower));
    router.on_verify(anchor, mid, options(), failed(Error::InsufficientVotingPower));
    router.on_fetch(15, RpcResponse::FetchedLightBlock(mid));
    router.on_fetch(12, RpcResponse::FetchedLightBlock(low));
    router.on_verify(anchor, low, options(), succeeded(&low));
    router.on_verify(trusted(&low), mid, options(), succeeded(&mid));
    router.on_verify(trusted(&mid), target, options(), succeeded(&target));
    let result = scheduler.verify_light_block(&router, anchor, target, options());
    match result {
        Ok(SchedulerOutput::ValidLightBlock(states)) => {
            assert!(states.len() >= 1);
            assert_eq!(states.last().unwrap().header.height, 20);
            for state in &states {
                assert!(state.header.height > anchor.header.height);
            }
            for pair in states.windows(2) {
                assert!(pair[0].header.height < pair[1].header.height);
            }
        }
        other => panic!("expected a verified chain, got {:?}", other),
    }
}
