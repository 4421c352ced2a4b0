use vstd::prelude::*;

use crate::error::TwapError;
use crate::field_element::FieldElement;

verus! {

/// `2^120`: the weight of the top byte within the high 128-bit limb of a
/// 256-bit storage word. An initialized oracle word carries the flag byte
/// `0x01` there.
pub const INITIALIZED_FLAG: u128 = 0x1000000000000000000000000000000;

/// The top byte of the high limb: `hi / 2^120`.
pub open spec fn top_byte(hi: u128) -> u128 {
    hi / 0x1000000000000000000000000000000u128
}

/// A storage word holds a valid oracle observation exactly when the top byte
/// of its high limb is the initialized flag `0x01`.
pub open spec fn storage_value_initialized(hi: u128) -> bool {
    top_byte(hi) == 1
}

/// The packed payload of an initialized word: its low 248 bits,
/// `(hi - 2^120) * 2^128 + lo`, carried through losslessly.
pub open spec fn packed_payload(hi: u128, lo: u128) -> int {
    (hi - 0x1000000000000000000000000000000) * 0x100000000000000000000000000000000 + lo
}

/// Decoder output: the two big-endian 128-bit halves of the storage word and
/// the packed 248-bit payload.
#[derive(Clone, Copy, Debug, PartialEq, Eq, Structural)]
pub struct DecodedStorageValue {
    pub hi_limb: u128,
    pub lo_limb: u128,
    pub packed_observation: FieldElement,
}

/// Decodes one raw 256-bit storage word, given as big-endian 128-bit halves.
///
/// Succeeds exactly when the word's top byte is the initialized flag `0x01`
/// (equivalently, `hi - 2^120` fits in 120 bits); any other top byte marks an
/// uninitialized or malformed oracle slot and yields no packed value. On
/// success the packed element is the word's low 248 bits.
pub fn decode_storage_value(hi: u128, lo: u128) -> (r: Result<DecodedStorageValue, TwapError>)
    ensures
        r is Ok <==> storage_value_initialized(hi),
        r is Ok ==> r->Ok_0.hi_limb == hi && r->Ok_0.lo_limb == lo,
        r is Ok ==> r->Ok_0.packed_observation.wf()
            && r->Ok_0.packed_observation.value() == packed_payload(hi, lo),
        r is Err ==> r->Err_0 == TwapError::ValueNotInitialized,
{
    proof {
        assert(storage_value_initialized(hi) <==> (INITIALIZED_FLAG <= hi
            && hi < 2 * INITIALIZED_FLAG));
    }
    if INITIALIZED_FLAG <= hi && hi < 2 * INITIALIZED_FLAG {
        let hi120 = hi - INITIALIZED_FLAG;
        Ok(DecodedStorageValue {
            hi_limb: hi,
            lo_limb: lo,
            packed_observation: FieldElement { hi: hi120, lo },
        })
    } else {
        Err(TwapError::ValueNotInitialized)
    }
}

/// The decoder is injective over well-formed inputs: two initialized storage
/// words with the same packed payload are the same word.
pub proof fn lemma_decode_injective(hi1: u128, lo1: u128, hi2: u128, lo2: u128)
    requires
        storage_value_initialized(hi1),
        storage_value_initialized(hi2),
        packed_payload(hi1, lo1) == packed_payload(hi2, lo2),
    ensures
        hi1 == hi2,
        lo1 == lo2,
{
    let a = FieldElement { hi: (hi1 - INITIALIZED_FLAG) as u128, lo: lo1 };
    let b = FieldElement { hi: (hi2 - INITIALIZED_FLAG) as u128, lo: lo2 };
    crate::field_element::lemma_field_element_value_injective(a, b);
}

} // verus!
