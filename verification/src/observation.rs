use vstd::prelude::*;

use crate::decoder::decode_storage_value;
use crate::decoder::packed_payload;
use crate::decoder::storage_value_initialized;
use crate::decoder::INITIALIZED_FLAG;
use crate::error::TwapError;
use crate::field_element::FieldElement;

verus! {

/// Storage slot of the oracle contract's first observation-struct field
/// (`observations[0]` of a Uniswap V3 pool).
pub const UNISWAP_V3_POOL_OBSERVATION0_SLOT: u64 = 8;

/// A 256-bit word as its big-endian high and low 128-bit halves.
#[derive(Clone, Copy, Debug, PartialEq, Eq, Structural)]
pub struct Word256 {
    pub hi: u128,
    pub lo: u128,
}

impl Word256 {
    /// The numeric value: `hi * 2^128 + lo`.
    pub open spec fn value(self) -> int {
        self.hi * 0x100000000000000000000000000000000 + self.lo
    }
}

/// A 160-bit contract address, as a 32-bit high limb over a 128-bit low limb.
/// The limb types bound the value below `2^160` by construction.
#[derive(Clone, Copy, Debug, PartialEq, Eq, Hash, Structural)]
pub struct Address160 {
    pub hi: u32,
    pub lo: u128,
}

impl Address160 {
    /// The numeric value: `hi * 2^128 + lo`, always below `2^160`.
    pub open spec fn value(self) -> int {
        self.hi * 0x100000000000000000000000000000000 + self.lo
    }
}

/// One slot/value pair of a storage-proof response.
#[derive(Clone, Copy, Debug, PartialEq, Eq, Structural)]
pub struct SlotValue {
    pub slot: Word256,
    pub value: Word256,
}

/// An externally authenticated storage-proof response for one block number.
/// Authenticity of the tuple is the retrieval collaborator's guarantee; only
/// its shape is checked here.
#[derive(Debug)]
pub struct StorageProofResponse {
    pub block_hash: Word256,
    pub block_number: u32,
    pub address: Address160,
    pub slots_values: Vec<SlotValue>,
}

/// One validated oracle observation: the block context and the packed
/// accumulator payload read from the oracle's storage word.
#[derive(Clone, Copy, Debug, PartialEq, Eq, Structural)]
pub struct OracleObservation {
    pub block_hash: Word256,
    pub block_number: u32,
    pub pool_address: Address160,
    pub observation: FieldElement,
}

/// The slot a response must report: upper 128 bits zero, lower 128 bits equal
/// to the observation slot constant.
pub open spec fn expected_slot(s: Word256) -> bool {
    s.hi == 0 && s.lo == UNISWAP_V3_POOL_OBSERVATION0_SLOT
}

/// The shape check of one response, with its error precedence: exactly one
/// slot/value pair, then the expected slot index, then an initialized value.
pub open spec fn response_shape_error(r: StorageProofResponse) -> Option<TwapError> {
    if r.slots_values@.len() != 1 {
        Some(TwapError::SlotCountMismatch)
    } else if !expected_slot(r.slots_values@[0].slot) {
        Some(TwapError::SlotIndexMismatch)
    } else if !storage_value_initialized(r.slots_values@[0].value.hi) {
        Some(TwapError::ValueNotInitialized)
    } else {
        None
    }
}

/// The observation a well-shaped response yields.
pub open spec fn observation_of(r: StorageProofResponse) -> OracleObservation {
    OracleObservation {
        block_hash: r.block_hash,
        block_number: r.block_number,
        pool_address: r.address,
        observation: FieldElement {
            hi: (r.slots_values@[0].value.hi - INITIALIZED_FLAG) as u128,
            lo: r.slots_values@[0].value.lo,
        },
    }
}

/// Validates one storage-proof response and decodes its storage word into an
/// oracle observation. Fails exactly on a shape violation, with the first
/// failing check's error.
pub fn observe_single(resp: &StorageProofResponse) -> (r: Result<OracleObservation, TwapError>)
    ensures
        r is Ok <==> response_shape_error(*resp) is None,
        r is Ok ==> r->Ok_0 == observation_of(*resp),
        r is Err ==> response_shape_error(*resp) == Some(r->Err_0),
{
    if resp.slots_values.len() != 1 {
        return Err(TwapError::SlotCountMismatch);
    }
    let sv = resp.slots_values[0];
    if !(sv.slot.hi == 0 && sv.slot.lo == UNISWAP_V3_POOL_OBSERVATION0_SLOT as u128) {
        return Err(TwapError::SlotIndexMismatch);
    }
    match decode_storage_value(sv.value.hi, sv.value.lo) {
        Ok(decoded) => {
            let obs = OracleObservation {
                block_hash: resp.block_hash,
                block_number: resp.block_number,
                pool_address: resp.address,
                observation: decoded.packed_observation,
            };
            proof {
                let canonical = observation_of(*resp).observation;
                assert(canonical.wf());
                assert(canonical.value() == packed_payload(sv.value.hi, sv.value.lo));
                crate::field_element::lemma_field_element_value_injective(
                    decoded.packed_observation,
                    canonical,
                );
            }
            Ok(obs)
        },
        Err(e) => Err(e),
    }
}

/// The shape error of the first ill-shaped response, scanning in input
/// order; `None` when every response is well-shaped.
pub open spec fn first_shape_error(s: Seq<StorageProofResponse>) -> Option<TwapError>
    decreases s.len(),
{
    if s.len() == 0 {
        None
    } else if response_shape_error(s[0]) is Some {
        response_shape_error(s[0])
    } else {
        first_shape_error(s.drop_first())
    }
}

/// Every response reports the address the first one reports.
pub open spec fn addresses_consistent(s: Seq<StorageProofResponse>) -> bool {
    forall|i: int| 0 <= i < s.len() ==> (#[trigger] s[i]).address == s[0].address
}

/// The outcome of building an observation set: empty input is rejected,
/// then the first shape violation in input order, then the
/// cross-observation address check; on success, the observations
/// index-aligned with the input.
pub open spec fn observe_outcome(s: Seq<StorageProofResponse>) -> Result<
    Seq<OracleObservation>,
    TwapError,
> {
    if s.len() == 0 {
        Err(TwapError::NoBlockNumbers)
    } else if first_shape_error(s) is Some {
        Err(first_shape_error(s)->Some_0)
    } else if !addresses_consistent(s) {
        Err(TwapError::PoolAddressMismatch)
    } else {
        Ok(Seq::new(s.len(), |i: int| observation_of(s[i])))
    }
}

proof fn lemma_first_shape_error_at(s: Seq<StorageProofResponse>, i: int)
    requires
        0 <= i < s.len(),
        forall|k: int| 0 <= k < i ==> response_shape_error(#[trigger] s[k]) is None,
        response_shape_error(s[i]) is Some,
    ensures
        first_shape_error(s) == response_shape_error(s[i]),
    decreases i,
{
    if i > 0 {
        assert(forall|k: int|
            0 <= k < i - 1 ==> response_shape_error(#[trigger] s.drop_first()[k]) is None);
        assert(s.drop_first()[i - 1] == s[i]);
        lemma_first_shape_error_at(s.drop_first(), i - 1);
    }
}

proof fn lemma_first_shape_error_none(s: Seq<StorageProofResponse>)
    requires
        forall|k: int| 0 <= k < s.len() ==> response_shape_error(#[trigger] s[k]) is None,
    ensures
        first_shape_error(s) is None,
    decreases s.len(),
{
    if s.len() > 0 {
        assert(forall|k: int|
            0 <= k < s.len() - 1 ==> response_shape_error(#[trigger] s.drop_first()[k]) is None);
        lemma_first_shape_error_none(s.drop_first());
    }
}

/// A scan that found no ill-shaped response leaves every response
/// well-shaped.
pub proof fn lemma_all_shapes_ok(s: Seq<StorageProofResponse>)
    requires
        first_shape_error(s) is None,
    ensures
        forall|k: int| 0 <= k < s.len() ==> response_shape_error(#[trigger] s[k]) is None,
    decreases s.len(),
{
    if s.len() > 0 {
        lemma_all_shapes_ok(s.drop_first());
        assert forall|k: int| 0 <= k < s.len() implies response_shape_error(
            #[trigger] s[k],
        ) is None by {
            if k > 0 {
                assert(s[k] == s.drop_first()[k - 1]);
            }
        }
    }
}

/// Builds the observation set for one request: validates and decodes each
/// response in input order, preserving that order, and requires every
/// response to describe the contract the first one describes.
#[verifier::loop_isolation(false)]
pub fn observe(resps: &Vec<StorageProofResponse>) -> (r: Result<Vec<OracleObservation>, TwapError>)
    ensures
        r is Ok <==> observe_outcome(resps@) is Ok,
        r is Ok ==> r->Ok_0@ == observe_outcome(resps@)->Ok_0,
        r is Err ==> Err::<Seq<OracleObservation>, TwapError>(r->Err_0) == observe_outcome(resps@),
{
    if resps.len() == 0 {
        return Err(TwapError::NoBlockNumbers);
    }
    let mut obs: Vec<OracleObservation> = Vec::new();
    let mut i: usize = 0;
    while i < resps.len()
        invariant
            i <= resps@.len(),
            obs@.len() == i,
            forall|k: int| 0 <= k < i ==> response_shape_error(#[trigger] resps@[k]) is None,
            forall|k: int| 0 <= k < i ==> obs@[k] == observation_of(#[trigger] resps@[k]),
        decreases resps@.len() - i,
    {
        match observe_single(&resps[i]) {
            Ok(o) => {
                obs.push(o);
            },
            Err(e) => {
                proof {
                    lemma_first_shape_error_at(resps@, i as int);
                }
                return Err(e);
            },
        }
        i += 1;
    }
    proof {
        lemma_first_shape_error_none(resps@);
    }
    let first_addr = obs[0].pool_address;
    let mut j: usize = 1;
    while j < obs.len()
        invariant
            1 <= j <= obs@.len(),
            forall|k: int| 0 <= k < j ==> (#[trigger] obs@[k]).pool_address == first_addr,
        decreases obs@.len() - j,
    {
        let oj = obs[j];
        if oj.pool_address != first_addr {
            proof {
                assert(resps@[j as int].address != resps@[0].address);
                assert(!addresses_consistent(resps@));
            }
            return Err(TwapError::PoolAddressMismatch);
        }
        j += 1;
    }
    proof {
        assert(forall|k: int|
            0 <= k < resps@.len() ==> (#[trigger] resps@[k]).address == resps@[0].address);
        assert(addresses_consistent(resps@));
        assert(obs@ =~= observe_outcome(resps@)->Ok_0);
    }
    Ok(obs)
}

/// The invariant of a built observation set: every observation reports the
/// contract address the first one reports.
pub proof fn lemma_observation_set_single_contract(s: Seq<StorageProofResponse>, i: int)
    requires
        observe_outcome(s) is Ok,
        0 <= i < s.len(),
    ensures
        observe_outcome(s)->Ok_0[i].pool_address == observe_outcome(s)->Ok_0[0].pool_address,
{
    assert(addresses_consistent(s));
}

/// A build fails whenever two responses of one request report different
/// contract addresses; when every response is well-shaped, the failure is
/// exactly the address-mismatch error.
pub proof fn lemma_observe_rejects_address_mismatch(s: Seq<StorageProofResponse>, i: int, j: int)
    requires
        0 <= i < s.len(),
        0 <= j < s.len(),
        s[i].address != s[j].address,
    ensures
        observe_outcome(s) is Err,
        first_shape_error(s) is None ==> observe_outcome(s) == Err::<
            Seq<OracleObservation>,
            TwapError,
        >(TwapError::PoolAddressMismatch),
{
    assert(!(s[i].address == s[0].address && s[j].address == s[0].address));
    assert(!addresses_consistent(s));
}

} // verus!
