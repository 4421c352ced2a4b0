use uniswap_twap_oracle::error::TwapError;
use uniswap_twap_oracle::observation::observe;
use uniswap_twap_oracle::observation::observe_single;
use uniswap_twap_oracle::observation::Address160;
use uniswap_twap_oracle::observation::SlotValue;
use uniswap_twap_oracle::observation::StorageProofResponse;
use uniswap_twap_oracle::observation::Word256;

const FLAG: u128 = 1u128 << 120;

fn pool() -> Address160 {
    Address160 { hi: 0x88e6a0c2, lo: 0xddd26feeb64f039a2c41296fcb3f5640 }
}

fn response(block_number: u32, address: Address160, value_lo: u128) -> StorageProofResponse {
    StorageProofResponse {
        block_hash: Word256 { hi: 0x1111 + block_number as u128, lo: 0x2222 },
        block_number,
        address,
        slots_values: vec![SlotValue {
            slot: Word256 { hi: 0, lo: 8 },
            value: Word256 { hi: FLAG, lo: value_lo },
        }],
    }
}

#[test]
fn observe_single_carries_fields() {
    let r = response(12345, pool(), 77);
    let obs = observe_single(&r).expect("well-shaped response must decode");
    assert_eq!(obs.block_number, 12345);
    assert_eq!(obs.pool_address, pool());
    assert_eq!(obs.block_hash, r.block_hash);
    assert_eq!(obs.observation.hi, 0);
    assert_eq!(obs.observation.lo, 77);
}

#[test]
fn rejects_wrong_pair_count() {
    let mut r = response(1, pool(), 0);
    r.slots_values = vec![];
    assert_eq!(observe_single(&r).unwrap_err(), TwapError::SlotCountMismatch);
    let mut r2 = response(1, pool(), 0);
    let extra = r2.slots_values[0];
    r2.slots_values.push(extra);
    assert_eq!(observe_single(&r2).unwrap_err(), TwapError::SlotCountMismatch);
}

#[test]
fn rejects_wrong_slot() {
    let mut r = response(1, pool(), 0);
    r.slots_values[0].slot = Word256 { hi: 0, lo: 9 };
    assert_eq!(observe_single(&r).unwrap_err(), TwapError::SlotIndexMismatch);
    let mut r2 = response(1, pool(), 0);
    r2.slots_values[0].slot = Word256 { hi: 1, lo: 8 };
    assert_eq!(observe_single(&r2).unwrap_err(), TwapError::SlotIndexMismatch);
}

#[test]
fn rejects_uninitialized_value() {
    let mut r = response(1, pool(), 0);
    r.slots_values[0].value = Word256 { hi: 0, lo: 3 };
    assert_eq!(observe_single(&r).unwrap_err(), TwapError::ValueNotInitialized);
}

#[test]
fn observe_rejects_empty_input() {
    let resps: Vec<StorageProofResponse> = vec![];
    assert_eq!(observe(&resps).unwrap_err(), TwapError::NoBlockNumbers);
}

#[test]
fn observe_preserves_input_order() {
    let resps = vec![
        response(10, pool(), 1),
        response(20, pool(), 2),
        response(30, pool(), 3),
    ];
    let obs = observe(&resps).expect("consistent responses must build");
    assert_eq!(obs.len(), 3);
    assert_eq!(obs[0].block_number, 10);
    assert_eq!(obs[1].block_number, 20);
    assert_eq!(obs[2].block_number, 30);
    assert_eq!(obs[0].observation.lo, 1);
    assert_eq!(obs[1].observation.lo, 2);
    assert_eq!(obs[2].observation.lo, 3);
}

#[test]
fn observe_rejects_address_mismatch() {
    // Two proofs of one request reporting different contract addresses.
    let other = Address160 { hi: 0x1, lo: 0x2 };
    let resps = vec![response(10, pool(), 1), response(20, other, 2)];
    assert_eq!(observe(&resps).unwrap_err(), TwapError::PoolAddressMismatch);
}

#[test]
fn shape_error_precedes_address_check() {
    // The first ill-shaped response wins over a later address mismatch.
    let other = Address160 { hi: 0x1, lo: 0x2 };
    let mut bad = response(10, pool(), 1);
    bad.slots_values[0].slot = Word256 { hi: 0, lo: 9 };
    let resps = vec![bad, response(20, other, 2)];
    assert_eq!(observe(&resps).unwrap_err(), TwapError::SlotIndexMismatch);
}
