//! Well-formedness checks on the data model.

use light_spike::types::Commit;
use light_spike::types::HashValue;
use light_spike::types::Header;
use light_spike::types::LightBlock;
use light_spike::types::SignedHeader;
use light_spike::types::TrustThreshold;
use light_spike::types::ValidatorSet;

fn consistent_block(height: u64) -> LightBlock {
    let validators_hash = HashValue { digest: 41 };
    let next_validators_hash = HashValue { digest: 42 };
    let header_hash = HashValue { digest: 43 };
    let header = Header {
        height,
        bft_time: 7,
        validator_set_hash: validators_hash,
        next_validator_set_hash: next_validators_hash,
        hash: header_hash,
    };
    LightBlock {
        height,
        signed_header: SignedHeader {
            header,
            commit: Commit { header_hash },
            validators: ValidatorSet { hash: validators_hash },
            validators_hash,
        },
        validator_set: ValidatorSet { hash: validators_hash },
        next_validator_set: ValidatorSet { hash: next_validators_hash },
    }
}

#[test]
fn default_threshold_is_one_third() {
    let threshold = TrustThreshold::default();
    assert_eq!(threshold.numerator, 1);
    assert_eq!(threshold.denominator, 3);
    assert!(threshold.is_well_formed());
}

#[test]
fn threshold_well_formedness() {
    assert!(TrustThreshold { numerator: 1, denominator: 1 }.is_well_formed());
    assert!(TrustThreshold { numerator: 2, denominator: 3 }.is_well_formed());
    assert!(!TrustThreshold { numerator: 0, denominator: 3 }.is_well_formed());
    assert!(!TrustThreshold { numerator: 4, denominator: 3 }.is_well_formed());
}

#[test]
fn consistent_block_is_well_formed() {
    assert!(consistent_block(9).is_well_formed());
}

#[test]
fn height_mismatch_is_detected() {
    let mut block = consistent_block(9);
    block.height = 10;
    assert!(!block.is_well_formed());
}

#[test]
fn commit_mismatch_is_detected() {
    let mut block = consistent_block(9);
    block.signed_header.commit = Commit { header_hash: HashValue { digest: 999 } };
    assert!(!block.is_well_formed());
}

#[test]
fn validator_hash_mismatch_is_detected() {
    let mut block = consistent_block(9);
    block.validator_set = ValidatorSet { hash: HashValue { digest: 999 } };
    assert!(!block.is_well_formed());
}

#[test]
fn next_validator_hash_mismatch_is_detected() {
    let mut block = consistent_block(9);
    block.next_validator_set = ValidatorSet { hash: HashValue { digest: 999 } };
    assert!(!block.is_well_formed());
}
