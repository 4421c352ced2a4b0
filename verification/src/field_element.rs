use vstd::prelude::*;

use crate::error::TwapError;

verus! {

/// Number of payload bits the arithmetic backend's field must hold: the
/// packed oracle observation and every public instance element fit in 248
/// bits.
pub const REQUIRED_FIELD_CAPACITY: u32 = 248;

/// A field element of the packing logic: a nonnegative value below `2^248`,
/// stored as a 120-bit high limb and a 128-bit low limb.
#[derive(Clone, Copy, Debug, PartialEq, Eq, Structural)]
pub struct FieldElement {
    pub hi: u128,
    pub lo: u128,
}

impl FieldElement {
    /// The high limb stays under `2^120`, so the value fits in 248 bits.
    pub open spec fn wf(self) -> bool {
        self.hi < 0x1000000000000000000000000000000u128
    }

    /// The numeric value represented: `hi * 2^128 + lo`.
    pub open spec fn value(self) -> int {
        self.hi * 0x100000000000000000000000000000000 + self.lo
    }

    /// Embeds a 128-bit value.
    pub fn from_u128(lo: u128) -> (r: FieldElement)
        ensures
            r.wf(),
            r.value() == lo,
    {
        FieldElement { hi: 0, lo }
    }
}

/// Two well-formed field elements with the same value have the same limbs:
/// the limb representation is canonical.
pub proof fn lemma_field_element_value_injective(a: FieldElement, b: FieldElement)
    requires
        a.wf(),
        b.wf(),
        a.value() == b.value(),
    ensures
        a == b,
{
    assert(a.hi == b.hi && a.lo == b.lo) by {
        assert(a.hi * 0x100000000000000000000000000000000
            + a.lo == b.hi * 0x100000000000000000000000000000000 + b.lo);
    };
}

/// A backend field is usable only if it holds at least 248 payload bits;
/// violating this is a configuration error caught once, before any decoding.
pub fn check_field_capacity(capacity_bits: u32) -> (r: Result<(), TwapError>)
    ensures
        r is Ok <==> capacity_bits >= REQUIRED_FIELD_CAPACITY,
        r is Err ==> r->Err_0 == TwapError::FieldCapacityTooSmall,
{
    if capacity_bits >= REQUIRED_FIELD_CAPACITY {
        Ok(())
    } else {
        Err(TwapError::FieldCapacityTooSmall)
    }
}

} // verus!
