use uniswap_twap_oracle::error::TwapError;
use uniswap_twap_oracle::field_element::FieldElement;
use uniswap_twap_oracle::instance::assemble_instance;
use uniswap_twap_oracle::instance::UniswapV3TwapCircuit;
use uniswap_twap_oracle::observation::Address160;
use uniswap_twap_oracle::observation::OracleObservation;
use uniswap_twap_oracle::observation::SlotValue;
use uniswap_twap_oracle::observation::StorageProofResponse;
use uniswap_twap_oracle::observation::Word256;

const FLAG: u128 = 1u128 << 120;

fn obs(block_number: u32, address: Address160, hash: Word256, packed_lo: u128) -> OracleObservation {
    OracleObservation {
        block_hash: hash,
        block_number,
        pool_address: address,
        observation: FieldElement { hi: 0, lo: packed_lo },
    }
}

fn response(block_number: u32, address: Address160, value_lo: u128) -> StorageProofResponse {
    StorageProofResponse {
        block_hash: Word256 { hi: 0xAA00 + block_number as u128, lo: 0xBB },
        block_number,
        address,
        slots_values: vec![SlotValue {
            slot: Word256 { hi: 0, lo: 8 },
            value: Word256 { hi: FLAG, lo: value_lo },
        }],
    }
}

#[test]
fn seven_elements_in_wire_order() {
    let a = Address160 { hi: 0, lo: 0xABCD };
    let start = obs(3, a, Word256 { hi: 0x10, lo: 0x11 }, 0x50);
    let end = obs(5, a, Word256 { hi: 0x20, lo: 0x21 }, 0x60);
    let v = assemble_instance(&start, &end);
    assert_eq!(v.len(), 7);
    // packedIdentity = address * 2^64 + start * 2^32 + end, here below 2^128.
    assert_eq!(v[0].hi, 0);
    assert_eq!(v[0].lo, 0xABCDu128 * (1u128 << 64) + 3u128 * (1u128 << 32) + 5u128);
    assert_eq!((v[1].hi, v[1].lo), (0, 0x10));
    assert_eq!((v[2].hi, v[2].lo), (0, 0x11));
    assert_eq!((v[3].hi, v[3].lo), (0, 0x20));
    assert_eq!((v[4].hi, v[4].lo), (0, 0x21));
    assert_eq!((v[5].hi, v[5].lo), (0, 0x50));
    assert_eq!((v[6].hi, v[6].lo), (0, 0x60));
}

#[test]
fn packed_identity_wide_address() {
    // An address above 2^128 spills into the high limb of element 0.
    let a = Address160 { hi: 0x12, lo: (1u128 << 127) + 1 };
    let start = obs(7, a, Word256 { hi: 0, lo: 0 }, 0);
    let end = obs(9, a, Word256 { hi: 0, lo: 0 }, 0);
    let v = assemble_instance(&start, &end);
    let tail: u128 = 7u128 * (1u128 << 32) + 9u128;
    let expected_lo: u128 = (a.lo % (1u128 << 64)) * (1u128 << 64) + tail;
    let expected_hi: u128 = (a.hi as u128) * (1u128 << 64) + a.lo / (1u128 << 64);
    assert_eq!(v[0].lo, expected_lo);
    assert_eq!(v[0].hi, expected_hi);
}

#[test]
fn end_block_changes_positions_0_3_4_6() {
    let a = Address160 { hi: 0x12, lo: 0x34 };
    let start = obs(100, a, Word256 { hi: 1, lo: 2 }, 11);
    let end1 = obs(200, a, Word256 { hi: 3, lo: 4 }, 22);
    let end2 = obs(300, a, Word256 { hi: 5, lo: 6 }, 33);
    let v1 = assemble_instance(&start, &end1);
    let v2 = assemble_instance(&start, &end2);
    assert_ne!((v1[0].hi, v1[0].lo), (v2[0].hi, v2[0].lo));
    assert_eq!((v1[1].hi, v1[1].lo), (v2[1].hi, v2[1].lo));
    assert_eq!((v1[2].hi, v1[2].lo), (v2[2].hi, v2[2].lo));
    assert_ne!((v1[3].hi, v1[3].lo), (v2[3].hi, v2[3].lo));
    assert_ne!((v1[4].hi, v1[4].lo), (v2[4].hi, v2[4].lo));
    assert_eq!((v1[5].hi, v1[5].lo), (v2[5].hi, v2[5].lo));
    assert_ne!((v1[6].hi, v1[6].lo), (v2[6].hi, v2[6].lo));
}

#[test]
fn end_block_number_alone_changes_identity() {
    // Even with an identical end-block hash and observation, a different end
    // block number changes the packed identity and nothing else.
    let a = Address160 { hi: 0, lo: 0x99 };
    let start = obs(100, a, Word256 { hi: 1, lo: 2 }, 11);
    let end1 = obs(200, a, Word256 { hi: 3, lo: 4 }, 22);
    let end2 = obs(201, a, Word256 { hi: 3, lo: 4 }, 22);
    let v1 = assemble_instance(&start, &end1);
    let v2 = assemble_instance(&start, &end2);
    assert_ne!((v1[0].hi, v1[0].lo), (v2[0].hi, v2[0].lo));
    for k in 1usize..7 {
        assert_eq!((v1[k].hi, v1[k].lo), (v2[k].hi, v2[k].lo));
    }
}

#[test]
fn create_checks_capacity_first() {
    let a = Address160 { hi: 0, lo: 0x1 };
    let circuit = UniswapV3TwapCircuit {
        pool_address: a,
        start_block_number: 10,
        end_block_number: 20,
    };
    // Even with ill-shaped responses the configuration error comes first.
    let mut bad = response(10, a, 0);
    bad.slots_values = vec![];
    let r = circuit.create(247, bad, response(20, a, 0));
    assert_eq!(r.unwrap_err(), TwapError::FieldCapacityTooSmall);
}

#[test]
fn create_builds_instance() {
    let a = Address160 { hi: 0, lo: 0x7777 };
    let circuit = UniswapV3TwapCircuit {
        pool_address: a,
        start_block_number: 10,
        end_block_number: 20,
    };
    let v = circuit
        .create(253, response(10, a, 0x123), response(20, a, 0x456))
        .expect("well-shaped responses must build");
    assert_eq!(v.len(), 7);
    assert_eq!(v[0].lo, 0x7777u128 * (1u128 << 64) + 10u128 * (1u128 << 32) + 20u128);
    assert_eq!(v[5].lo, 0x123);
    assert_eq!(v[6].lo, 0x456);
    assert_eq!(v[1].lo, 0xAA00 + 10);
    assert_eq!(v[3].lo, 0xAA00 + 20);
}

#[test]
fn create_rejects_address_mismatch() {
    let a = Address160 { hi: 0, lo: 0x1 };
    let b = Address160 { hi: 0, lo: 0x2 };
    let circuit = UniswapV3TwapCircuit {
        pool_address: a,
        start_block_number: 10,
        end_block_number: 20,
    };
    let r = circuit.create(253, response(10, a, 0), response(20, b, 0));
    assert_eq!(r.unwrap_err(), TwapError::PoolAddressMismatch);
}

#[test]
fn create_rejects_uninitialized_word() {
    let a = Address160 { hi: 0, lo: 0x1 };
    let circuit = UniswapV3TwapCircuit {
        pool_address: a,
        start_block_number: 10,
        end_block_number: 20,
    };
    let mut bad = response(20, a, 0);
    bad.slots_values[0].value = Word256 { hi: 0, lo: 0 };
    let r = circuit.create(253, response(10, a, 0), bad);
    assert_eq!(r.unwrap_err(), TwapError::ValueNotInitialized);
}
