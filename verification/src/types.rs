//! Core data model: heights, hashes, headers, validator sets, light blocks,
//! trusted states, and the verifier's error taxonomy.

use vstd::prelude::*;

verus! {

/// Position of a block in the chain. Totally ordered.
pub type Height = u64;

/// A point in BFT time, as a non-negative tick count.
pub type Timestamp = u64;

/// A span of BFT time, in the same ticks as [`Timestamp`].
pub type Duration = u64;

/// Opaque fixed-width digest identifying a header or a validator set;
/// equality is by value.
#[derive(Copy, Clone, Debug, PartialEq, Eq, Structural)]
pub struct HashValue {
    pub digest: u64,
}

/// A block header, as far as light verification is concerned. `hash` is the
/// collision-resistant digest of the header's canonical form; it is supplied
/// by the fetcher and not recomputed here.
#[derive(Copy, Clone, Debug, PartialEq, Eq, Structural)]
pub struct Header {
    pub height: Height,
    pub bft_time: Timestamp,
    pub validator_set_hash: HashValue,
    pub next_validator_set_hash: HashValue,
    pub hash: HashValue,
}

/// A validator set, summarized by its canonical hash. Two sets with equal
/// canonical hash are identical for verification purposes.
#[derive(Copy, Clone, Debug, PartialEq, Eq, Structural)]
pub struct ValidatorSet {
    pub hash: HashValue,
}

/// The bundle of signatures attesting to a header, summarized by the hash of
/// the header it commits.
#[derive(Copy, Clone, Debug, PartialEq, Eq, Structural)]
pub struct Commit {
    pub header_hash: HashValue,
}

/// The fraction of previously-trusted voting power that must sign a skipped
/// header. The canonical default is 1/3.
#[derive(Copy, Clone, Debug, PartialEq, Eq, Structural)]
pub struct TrustThreshold {
    pub numerator: u64,
    pub denominator: u64,
}

/// A header together with the commit and validator set that attest to it.
#[derive(Copy, Clone, Debug, PartialEq, Eq, Structural)]
pub struct SignedHeader {
    pub header: Header,
    pub commit: Commit,
    pub validators: ValidatorSet,
    pub validators_hash: HashValue,
}

/// An assertion that the observer trusts `header` at `header.height`, and
/// that `validators` is the verified validator set for that height.
#[derive(Copy, Clone, Debug, PartialEq, Eq, Structural)]
pub struct TrustedState {
    pub header: Header,
    pub validators: ValidatorSet,
}

/// Everything the verifier needs about the block at `height`: the signed
/// header plus the current and next validator sets.
#[derive(Copy, Clone, Debug, PartialEq, Eq, Structural)]
pub struct LightBlock {
    pub height: Height,
    pub signed_header: SignedHeader,
    pub validator_set: ValidatorSet,
    pub next_validator_set: ValidatorSet,
}

/// The verifier's error taxonomy. `InsufficientVotingPower` is the one
/// recoverable kind: it means the skip gap is too wide and bisection may
/// still succeed. Every other kind is fatal.
#[derive(Copy, Clone, Debug, PartialEq, Eq, Structural)]
pub enum Error {
    ImplementationSpecific,
    InsufficientValidatorsOverlap,
    InsufficientVotingPower,
    InvalidCommit,
    InvalidCommitValue,
    InvalidNextValidatorSet,
    InvalidValidatorSet,
    NonIncreasingHeight { got: Height, expected: Height },
    NonMonotonicBftTime,
    NotWithinTrustPeriod,
}

/// A trust threshold is a rational in (0, 1]: `0 < numerator <= denominator`.
pub open spec fn trust_threshold_wf(threshold: TrustThreshold) -> bool {
    0 < threshold.numerator <= threshold.denominator
}

/// Internal consistency of a signed header: the commit attests to this very
/// header, and the carried validator set matches the header's hash of it.
pub open spec fn signed_header_wf(signed_header: SignedHeader) -> bool {
    &&& signed_header.commit.header_hash == signed_header.header.hash
    &&& signed_header.validators.hash == signed_header.header.validator_set_hash
    &&& signed_header.validators_hash == signed_header.header.validator_set_hash
}

/// Internal consistency of a light block: its height is the header's height
/// and the embedded validator sets match the hashes the header announces.
pub open spec fn light_block_wf(light_block: LightBlock) -> bool {
    &&& light_block.signed_header.header.height == light_block.height
    &&& light_block.validator_set.hash == light_block.signed_header.header.validator_set_hash
    &&& light_block.next_validator_set.hash
        == light_block.signed_header.header.next_validator_set_hash
    &&& signed_header_wf(light_block.signed_header)
}

impl TrustThreshold {
    /// Decide `trust_threshold_wf` at run time.
    pub fn is_well_formed(&self) -> (r: bool)
        ensures
            r == trust_threshold_wf(*self),
    {
        0 < self.numerator && self.numerator <= self.denominator
    }
}

impl Default for TrustThreshold {
    /// The canonical default threshold of 1/3.
    fn default() -> (r: Self)
        ensures
            r == (TrustThreshold { numerator: 1, denominator: 3 }),
    {
        TrustThreshold { numerator: 1, denominator: 3 }
    }
}

impl SignedHeader {
    /// Decide `signed_header_wf` at run time.
    pub fn is_well_formed(&self) -> (r: bool)
        ensures
            r == signed_header_wf(*self),
    {
        self.commit.header_hash == self.header.hash
            && self.validators.hash == self.header.validator_set_hash
            && self.validators_hash == self.header.validator_set_hash
    }
}

impl LightBlock {
    /// Decide `light_block_wf` at run time.
    pub fn is_well_formed(&self) -> (r: bool)
        ensures
            r == light_block_wf(*self),
    {
        self.signed_header.header.height == self.height
            && self.validator_set.hash == self.signed_header.header.validator_set_hash
            && self.next_validator_set.hash == self.signed_header.header.next_validator_set_hash
            && self.signed_header.is_well_formed()
    }
}

} // verus!
