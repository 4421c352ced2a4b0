use vstd::prelude::*;

use crate::error::TwapError;
use crate::field_element::check_field_capacity;
use crate::field_element::FieldElement;
use crate::field_element::REQUIRED_FIELD_CAPACITY;
use crate::observation::observe;
use crate::observation::observe_outcome;
use crate::observation::Address160;
use crate::observation::OracleObservation;
use crate::observation::StorageProofResponse;

verus! {

/// The packed request identity:
/// `contractAddress * 2^64 + startBlockNumber * 2^32 + endBlockNumber`,
/// a 224-bit value.
pub open spec fn packed_identity(
    pool_address: Address160,
    start_block_number: u32,
    end_block_number: u32,
) -> int {
    pool_address.value() * 0x10000000000000000 + start_block_number * 0x100000000
        + end_block_number
}

/// The identity packing is injective: the address and both block numbers can
/// be read back from the packed value, so distinct requests never collide.
/// The limb types of [`Address160`] and the `u32` block numbers supply the
/// range bounds the packing relies on.
pub proof fn lemma_packed_identity_injective(
    a1: Address160,
    s1: u32,
    e1: u32,
    a2: Address160,
    s2: u32,
    e2: u32,
)
    requires
        packed_identity(a1, s1, e1) == packed_identity(a2, s2, e2),
    ensures
        a1 == a2,
        s1 == s2,
        e1 == e2,
{
    let t1 = s1 * 0x100000000 + e1;
    let t2 = s2 * 0x100000000 + e2;
    assert(0 <= t1 < 0x10000000000000000);
    assert(0 <= t2 < 0x10000000000000000);
    assert(0 <= a1.value());
    assert(0 <= a2.value());
    assert(a1.value() == a2.value() && t1 == t2) by {
        assert(a1.value() * 0x10000000000000000 + t1 == a2.value() * 0x10000000000000000 + t2);
    };
    assert(s1 == s2 && e1 == e2);
}

/// The seven public instance values of a request, in their fixed order:
/// the packed identity, the start hash's high and low 128-bit limbs, the end
/// hash's high and low limbs, and the two packed observations. This order is
/// the wire contract toward any downstream verifier and is never permuted.
pub open spec fn instance_values(start: OracleObservation, end: OracleObservation) -> Seq<int> {
    seq![
        packed_identity(start.pool_address, start.block_number, end.block_number),
        start.block_hash.hi as int,
        start.block_hash.lo as int,
        end.block_hash.hi as int,
        end.block_hash.lo as int,
        start.observation.value(),
        end.observation.value(),
    ]
}

/// Combines the start and end observations into the canonical seven-element
/// public instance vector. Pure; the caller fixes which observation is the
/// start and which the end.
pub fn assemble_instance(start: &OracleObservation, end: &OracleObservation) -> (v: Vec<
    FieldElement,
>)
    requires
        start.observation.wf(),
        end.observation.wf(),
    ensures
        v@.len() == 7,
        forall|k: int| 0 <= k < 7 ==> (#[trigger] v@[k]).wf(),
        forall|k: int| 0 <= k < 7 ==> (#[trigger] v@[k]).value() == instance_values(
            *start,
            *end,
        )[k],
{
    let a = start.pool_address;
    let tail: u64 = (start.block_number as u64) * 0x100000000 + (end.block_number as u64);
    let id_lo: u128 = (a.lo % 0x10000000000000000) * 0x10000000000000000 + (tail as u128);
    let id_hi: u128 = (a.hi as u128) * 0x10000000000000000 + a.lo / 0x10000000000000000;
    let e0 = FieldElement { hi: id_hi, lo: id_lo };
    proof {
        assert(a.lo == 0x10000000000000000 * (a.lo / 0x10000000000000000) + a.lo
            % 0x10000000000000000);
        assert(e0.value() == packed_identity(a, start.block_number, end.block_number));
        assert(e0.wf());
    }
    let mut v: Vec<FieldElement> = Vec::new();
    v.push(e0);
    v.push(FieldElement::from_u128(start.block_hash.hi));
    v.push(FieldElement::from_u128(start.block_hash.lo));
    v.push(FieldElement::from_u128(end.block_hash.hi));
    v.push(FieldElement::from_u128(end.block_hash.lo));
    v.push(start.observation);
    v.push(end.observation);
    v
}

/// The full TWAP request toward the core: the oracle contract and the start
/// and end block numbers to observe.
#[derive(Clone, Copy, Debug, PartialEq, Eq, Structural)]
pub struct UniswapV3TwapCircuit {
    pub pool_address: Address160,
    pub start_block_number: u32,
    pub end_block_number: u32,
}

/// The outcome of one build: the configuration check first, then the
/// observation-set build over the start and end responses in that order,
/// then the seven instance values.
pub open spec fn create_outcome(
    field_capacity: u32,
    start_response: StorageProofResponse,
    end_response: StorageProofResponse,
) -> Result<Seq<int>, TwapError> {
    if field_capacity < REQUIRED_FIELD_CAPACITY {
        Err(TwapError::FieldCapacityTooSmall)
    } else {
        match observe_outcome(seq![start_response, end_response]) {
            Ok(obs) => Ok(instance_values(obs[0], obs[1])),
            Err(e) => Err(e),
        }
    }
}

impl UniswapV3TwapCircuit {
    /// Builds the public instance vector of the request from the two
    /// authenticated storage-proof responses, start first.
    ///
    /// The backend field's capacity is checked once before any decoding;
    /// then the two observations are built and cross-checked, and the seven
    /// elements assembled. Any failure yields no partial vector.
    pub fn create(
        &self,
        field_capacity: u32,
        start_response: StorageProofResponse,
        end_response: StorageProofResponse,
    ) -> (r: Result<Vec<FieldElement>, TwapError>)
        ensures
            r is Ok <==> create_outcome(field_capacity, start_response, end_response) is Ok,
            r is Ok ==> r->Ok_0@.len() == 7,
            r is Ok ==> forall|k: int| 0 <= k < 7 ==> (#[trigger] r->Ok_0@[k]).wf(),
            r is Ok ==> forall|k: int|
                0 <= k < 7 ==> (#[trigger] r->Ok_0@[k]).value() == create_outcome(
                    field_capacity,
                    start_response,
                    end_response,
                )->Ok_0[k],
            r is Err ==> create_outcome(field_capacity, start_response, end_response) == Err::<
                Seq<int>,
                TwapError,
            >(r->Err_0),
    {
        if let Err(e) = check_field_capacity(field_capacity) {
            return Err(e);
        }
        let ghost start_snapshot = start_response;
        let ghost end_snapshot = end_response;
        let mut responses: Vec<StorageProofResponse> = Vec::new();
        responses.push(start_response);
        responses.push(end_response);
        proof {
            assert(responses@ =~= seq![start_snapshot, end_snapshot]);
        }
        match observe(&responses) {
            Ok(obs) => {
                proof {
                    let outcome = observe_outcome(responses@);
                    assert(obs@ == outcome->Ok_0);
                    assert(obs@.len() == 2);
                    crate::observation::lemma_all_shapes_ok(responses@);
                    assert(obs@[0] == crate::observation::observation_of(responses@[0]));
                    assert(obs@[1] == crate::observation::observation_of(responses@[1]));
                    assert(obs@[0].observation.wf() && obs@[1].observation.wf());
                }
                let v = assemble_instance(&obs[0], &obs[1]);
                Ok(v)
            },
            Err(e) => Err(e),
        }
    }
}

/// Holding the start observation fixed — and with it the contract address
/// and the start block number — while changing the end block number always
/// changes the packed identity and never the start-hash limbs or the start
/// observation; the end-hash limbs and the end observation change exactly
/// when the end block's hash and observed storage word differ.
pub proof fn lemma_end_block_dependence(
    start: OracleObservation,
    end1: OracleObservation,
    end2: OracleObservation,
)
    requires
        end1.block_number != end2.block_number,
    ensures
        instance_values(start, end1)[1] == instance_values(start, end2)[1],
        instance_values(start, end1)[2] == instance_values(start, end2)[2],
        instance_values(start, end1)[5] == instance_values(start, end2)[5],
        instance_values(start, end1)[0] != instance_values(start, end2)[0],
        (instance_values(start, end1)[3] != instance_values(start, end2)[3]
            || instance_values(start, end1)[4] != instance_values(start, end2)[4])
            <==> end1.block_hash != end2.block_hash,
        (instance_values(start, end1)[6] != instance_values(start, end2)[6])
            <==> end1.observation.value() != end2.observation.value(),
{
    if instance_values(start, end1)[0] == instance_values(start, end2)[0] {
        lemma_packed_identity_injective(
            start.pool_address,
            start.block_number,
            end1.block_number,
            start.pool_address,
            start.block_number,
            end2.block_number,
        );
    }
}

} // verus!
