use vstd::prelude::*;

use vstd::arithmetic::div_mod::lemma_div_denominator;
use vstd::arithmetic::div_mod::lemma_multiply_divide_lt;
use vstd::arithmetic::power2::lemma2_to64;
use vstd::arithmetic::power2::lemma_pow2_pos;
use vstd::arithmetic::power2::lemma_pow2_unfold;
use vstd::arithmetic::power2::pow2;

verus! {

/// Depth of the batch Merkle tree.
pub const DEPTH: usize = 10;

/// Number of leaves of one batch: `2^DEPTH` consecutive block hashes.
pub const NUM_LEAVES: u32 = 1024;

/// The start of the batch containing block `b`: aligned down to the
/// 1024-block boundary.
pub open spec fn batch_start_spec(b: int) -> int {
    b - (b % 1024)
}

/// Aligns a block number down to the 1024-block boundary of its batch.
/// The result is a multiple of 1024 and lies at most 1023 blocks below the
/// given block number.
pub fn batch_start_of(block_number: u32) -> (r: u32)
    ensures
        r == batch_start_spec(block_number as int),
        r % 1024 == 0,
        r <= block_number < r + 1024,
{
    block_number - block_number % NUM_LEAVES
}

/// The digest the tree is built with.
pub uninterp spec fn keccak_of(input: Seq<u8>) -> Seq<u8>;

/// Relies on `ethers_core::utils::keccak256`: the Keccak-256 digest of the
/// input bytes, 32 bytes long and a function of the input bytes alone.
#[verifier::external_body]
fn keccak(input: &Vec<u8>) -> (r: Vec<u8>)
    ensures
        r@ == keccak_of(input@),
        r@.len() == 32,
{
    ethers_core::utils::keccak256(input.as_slice()).to_vec()
}

/// A 32-byte hash.
pub open spec fn is_hash(h: Seq<u8>) -> bool {
    h.len() == 32
}

/// The parent of two nodes: the digest of their plain concatenation. Leaf
/// pairs and internal pairs are hashed the same way, with no domain
/// separation.
pub open spec fn node_hash(left: Seq<u8>, right: Seq<u8>) -> Seq<u8> {
    keccak_of(left + right)
}

/// One level up: node `j` is the parent of children `2j` and `2j + 1`.
pub open spec fn parent_level(level: Seq<Seq<u8>>) -> Seq<Seq<u8>> {
    Seq::new(level.len() / 2, |j: int| node_hash(level[2 * j], level[2 * j + 1]))
}

/// Level `i` of the tree over the given leaves; level 0 is the leaves.
pub open spec fn tree_level(leaves: Seq<Seq<u8>>, i: nat) -> Seq<Seq<u8>>
    decreases i,
{
    if i == 0 {
        leaves
    } else {
        tree_level(parent_level(leaves), (i - 1) as nat)
    }
}

/// The root of the depth-10 tree over 1024 leaves.
pub open spec fn merkle_root(leaves: Seq<Seq<u8>>) -> Seq<u8> {
    tree_level(leaves, DEPTH as nat)[0]
}

/// The sibling of node `idx` within its level.
pub open spec fn sibling_index(idx: int) -> int {
    if idx % 2 == 0 {
        idx + 1
    } else {
        idx - 1
    }
}

/// The first `d` entries of the inclusion proof for leaf `side`: at each
/// level the sibling of the node on the path from the leaf toward the root,
/// leaf-adjacent first.
pub open spec fn sibling_path_to(leaves: Seq<Seq<u8>>, side: int, d: nat) -> Seq<Seq<u8>> {
    Seq::new(d, |i: int| tree_level(leaves, i as nat)[sibling_index(side / pow2(i as nat) as int)])
}

/// The full inclusion proof for leaf `side`: ten sibling hashes, leaf-adjacent
/// first, root-adjacent last.
pub open spec fn sibling_path(leaves: Seq<Seq<u8>>, side: int) -> Seq<Seq<u8>> {
    sibling_path_to(leaves, side, DEPTH as nat)
}

/// The consumer's recomputation rule: climb from the claimed leaf, hashing
/// the running value with each proof entry in turn; bit `i` of `side` picks
/// the operand order at step `i` (0: running value left, 1: right).
pub open spec fn recompute_root(current: Seq<u8>, proof_nodes: Seq<Seq<u8>>, side: int) -> Seq<u8>
    decreases proof_nodes.len(),
{
    if proof_nodes.len() == 0 {
        current
    } else if side % 2 == 0 {
        recompute_root(node_hash(current, proof_nodes[0]), proof_nodes.drop_first(), side / 2)
    } else {
        recompute_root(node_hash(proof_nodes[0], current), proof_nodes.drop_first(), side / 2)
    }
}

/// Each level of a tree over `2^d` leaves has `2^(d-i)` nodes.
proof fn lemma_tree_level_len(leaves: Seq<Seq<u8>>, d: nat, i: nat)
    requires
        leaves.len() == pow2(d),
        i <= d,
    ensures
        tree_level(leaves, i).len() == pow2((d - i) as nat),
    decreases i,
{
    if i != 0 {
        lemma_pow2_unfold(d);
        assert(parent_level(leaves).len() == pow2((d - 1) as nat));
        lemma_tree_level_len(parent_level(leaves), (d - 1) as nat, (i - 1) as nat);
    }
}

/// Building one level and then climbing `i` levels is climbing `i + 1`
/// levels: `parent_level` commutes with `tree_level`.
proof fn lemma_tree_level_succ(leaves: Seq<Seq<u8>>, i: nat)
    ensures
        tree_level(leaves, i + 1) == parent_level(tree_level(leaves, i)),
    decreases i,
{
    if i == 0 {
        assert(tree_level(leaves, 1) == tree_level(parent_level(leaves), 0));
        assert(tree_level(parent_level(leaves), 0) == parent_level(leaves));
        assert(tree_level(leaves, 0) == leaves);
    } else {
        lemma_tree_level_succ(parent_level(leaves), (i - 1) as nat);
        assert(tree_level(leaves, i + 1) == tree_level(parent_level(leaves), i));
        assert(((i - 1) as nat) + 1 == i);
        assert(tree_level(leaves, i) == tree_level(parent_level(leaves), (i - 1) as nat));
    }
}

/// Climbing by the recomputation rule from leaf `side` of a tree over `2^d`
/// leaves, with the `d` sibling hashes as the proof, ends at the tree's
/// single level-`d` node.
proof fn lemma_recompute_to_level(leaves: Seq<Seq<u8>>, side: int, d: nat)
    requires
        leaves.len() == pow2(d),
        0 <= side < leaves.len(),
    ensures
        recompute_root(leaves[side], sibling_path_to(leaves, side, d), side) == tree_level(
            leaves,
            d,
        )[0],
    decreases d,
{
    lemma2_to64();
    if d == 0 {
        assert(sibling_path_to(leaves, side, 0) =~= Seq::<Seq<u8>>::empty());
    } else {
        let parent = parent_level(leaves);
        lemma_pow2_unfold(d);
        assert(parent.len() == pow2((d - 1) as nat));
        let half = side / 2;
        assert(0 <= half < parent.len());
        assert(parent[half] == node_hash(leaves[2 * half], leaves[2 * half + 1]));

        let path = sibling_path_to(leaves, side, d);
        assert(path[0] == tree_level(leaves, 0)[sibling_index(side / pow2(0) as int)]);
        assert(side / pow2(0) as int == side);
        assert(tree_level(leaves, 0) == leaves);
        assert(path[0] == leaves[sibling_index(side)]);
        assert forall|k: int| 0 <= k < d - 1 implies path.drop_first()[k] == sibling_path_to(
            parent,
            half,
            (d - 1) as nat,
        )[k] by {
            lemma_pow2_pos(k as nat);
            lemma_pow2_unfold((k + 1) as nat);
            lemma_div_denominator(side, 2, pow2(k as nat) as int);
            assert(tree_level(leaves, (k + 1) as nat) == tree_level(parent, k as nat));
            assert(side / pow2((k + 1) as nat) as int == half / pow2(k as nat) as int);
        }
        assert(path.drop_first() =~= sibling_path_to(parent, half, (d - 1) as nat));

        lemma_recompute_to_level(parent, half, (d - 1) as nat);
        if side % 2 == 0 {
            assert(2 * half == side);
            assert(node_hash(leaves[side], path[0]) == parent[half]);
        } else {
            assert(2 * half + 1 == side);
            assert(path[0] == leaves[side - 1]);
            assert(node_hash(path[0], leaves[side]) == parent[half]);
        }
        assert(tree_level(leaves, d)[0] == tree_level(parent, (d - 1) as nat)[0]);
    }
}

/// Recomputing the root from a leaf of a 1024-leaf batch and its inclusion
/// proof, by the bit-pattern left/right rule, yields the batch's root.
pub proof fn lemma_recompute_root_matches(leaves: Seq<Seq<u8>>, side: int)
    requires
        leaves.len() == 1024,
        0 <= side < 1024,
    ensures
        recompute_root(leaves[side], sibling_path(leaves, side), side) == merkle_root(leaves),
{
    lemma2_to64();
    lemma_recompute_to_level(leaves, side, DEPTH as nat);
}

/// Two distinct blocks of one batch recompute the same root, but — as long
/// as the batch's leaf hashes are pairwise distinct — have distinct claimed
/// hashes and distinct proofs, which already differ in their first entry.
pub proof fn lemma_same_batch_witnesses(leaves: Seq<Seq<u8>>, side1: int, side2: int)
    requires
        leaves.len() == 1024,
        0 <= side1 < 1024,
        0 <= side2 < 1024,
        side1 != side2,
        forall|i: int, j: int| 0 <= i < 1024 && 0 <= j < 1024 && i != j ==> leaves[i] != leaves[j],
    ensures
        recompute_root(leaves[side1], sibling_path(leaves, side1), side1) == recompute_root(
            leaves[side2],
            sibling_path(leaves, side2),
            side2,
        ),
        leaves[side1] != leaves[side2],
        sibling_path(leaves, side1) != sibling_path(leaves, side2),
{
    lemma_recompute_root_matches(leaves, side1);
    lemma_recompute_root_matches(leaves, side2);
    lemma2_to64();
    let path1 = sibling_path(leaves, side1);
    let path2 = sibling_path(leaves, side2);
    assert(path1[0] == tree_level(leaves, 0)[sibling_index(side1 / pow2(0) as int)]);
    assert(path2[0] == tree_level(leaves, 0)[sibling_index(side2 / pow2(0) as int)]);
    assert(tree_level(leaves, 0) == leaves);
    assert(side1 / pow2(0) as int == side1 && side2 / pow2(0) as int == side2);
    assert(path1[0] == leaves[sibling_index(side1)]);
    assert(path2[0] == leaves[sibling_index(side2)]);
    assert(0 <= sibling_index(side1) < 1024);
    assert(0 <= sibling_index(side2) < 1024);
    assert(sibling_index(side1) != sibling_index(side2));
    assert(path1[0] != path2[0]);
}

/// Byte-for-byte copy of a hash.
fn copy_hash(h: &Vec<u8>) -> (r: Vec<u8>)
    ensures
        r@ == h@,
{
    let mut r: Vec<u8> = Vec::new();
    let mut k: usize = 0;
    while k < h.len()
        invariant
            k <= h@.len(),
            r@ == h@.subrange(0, k as int),
        decreases h@.len() - k,
    {
        r.push(h[k]);
        proof {
            assert(r@ =~= h@.subrange(0, k + 1));
        }
        k += 1;
    }
    proof {
        assert(r@ =~= h@);
    }
    r
}

/// The parent hash of two nodes: the digest of their concatenation.
fn hash_pair(left: &Vec<u8>, right: &Vec<u8>) -> (r: Vec<u8>)
    ensures
        r@ == node_hash(left@, right@),
        r@.len() == 32,
{
    let mut buf = copy_hash(left);
    let mut k: usize = 0;
    while k < right.len()
        invariant
            k <= right@.len(),
            buf@ == left@ + right@.subrange(0, k as int),
        decreases right@.len() - k,
    {
        buf.push(right[k]);
        proof {
            assert(buf@ =~= left@ + right@.subrange(0, k + 1));
        }
        k += 1;
    }
    proof {
        assert(left@ + right@.subrange(0, right@.len() as int) =~= left@ + right@);
    }
    keccak(&buf)
}

/// One batch: its aligned start, the linking hash of block `batch_start - 1`,
/// and all eleven levels of the Merkle tree over its 1024 block hashes —
/// level 0 the leaves, level 10 the single root.
pub struct MerkleBatch {
    pub batch_start: u32,
    pub prev_hash: Vec<u8>,
    pub levels: Vec<Vec<Vec<u8>>>,
}

/// The hashes of one level, as a sequence of byte sequences.
pub open spec fn hashes_view(v: Vec<Vec<u8>>) -> Seq<Seq<u8>> {
    Seq::new(v@.len(), |i: int| v@[i]@)
}

impl MerkleBatch {
    /// The leaf level: the batch's 1024 block hashes in ascending block
    /// order.
    pub open spec fn leaves(self) -> Seq<Seq<u8>> {
        hashes_view(self.levels@[0])
    }

    /// Well-formed: aligned start, 32-byte hashes, eleven levels, and each
    /// level the parent level of the one below.
    pub open spec fn wf(self) -> bool {
        &&& self.batch_start % 1024 == 0
        &&& is_hash(self.prev_hash@)
        &&& self.levels@.len() == DEPTH + 1
        &&& self.leaves().len() == 1024
        &&& (forall|j: int| 0 <= j < 1024 ==> is_hash(#[trigger] self.leaves()[j]))
        &&& (forall|i: int|
            0 <= i <= DEPTH ==> hashes_view(#[trigger] self.levels@[i]) == tree_level(
                self.leaves(),
                i as nat,
            ))
    }

    /// The batch root: the single node of the top level.
    pub fn root(&self) -> (r: &Vec<u8>)
        requires
            self.wf(),
        ensures
            r@ == merkle_root(self.leaves()),
    {
        proof {
            lemma2_to64();
            lemma_tree_level_len(self.leaves(), DEPTH as nat, DEPTH as nat);
        }
        &self.levels[DEPTH][0]
    }
}

/// Builds the Merkle batch over 1024 consecutive block hashes: the leaves
/// are level 0, and each of the ten levels above holds the pairwise parent
/// hashes of the level below. The caller supplies the hashes of blocks
/// `[batch_start, batch_start + 1024)` in ascending order, and the hash of
/// block `batch_start - 1`, which links the batch to its predecessor.
#[verifier::loop_isolation(false)]
pub fn build_merkle_batch(batch_start: u32, prev_hash: Vec<u8>, block_hashes: Vec<Vec<u8>>) -> (r:
    MerkleBatch)
    requires
        batch_start % 1024 == 0,
        is_hash(prev_hash@),
        block_hashes@.len() == 1024,
        forall|j: int| 0 <= j < 1024 ==> is_hash(#[trigger] block_hashes@[j]@),
    ensures
        r.wf(),
        r.batch_start == batch_start,
        r.prev_hash@ == prev_hash@,
        r.leaves() == hashes_view(block_hashes),
{
    let ghost leaves_seq = hashes_view(block_hashes);
    proof {
        lemma2_to64();
    }
    let mut levels: Vec<Vec<Vec<u8>>> = Vec::new();
    levels.push(block_hashes);
    let mut i: usize = 0;
    while i < DEPTH
        invariant
            i <= DEPTH,
            levels@.len() == i + 1,
            hashes_view(levels@[0]) == leaves_seq,
            forall|k: int|
                0 <= k <= i ==> hashes_view(#[trigger] levels@[k]) == tree_level(
                    leaves_seq,
                    k as nat,
                ),
        decreases DEPTH - i,
    {
        proof {
            lemma_tree_level_len(leaves_seq, DEPTH as nat, i as nat);
            lemma_pow2_unfold((DEPTH - i) as nat);
        }
        let level_len = levels[i].len();
        assert(level_len == pow2((DEPTH - i) as nat));
        let mut next: Vec<Vec<u8>> = Vec::new();
        let mut j: usize = 0;
        while j < level_len / 2
            invariant
                j <= level_len / 2,
                next@.len() == j,
                forall|k: int|
                    0 <= k < j ==> (#[trigger] next@[k])@ == tree_level(
                        leaves_seq,
                        (i + 1) as nat,
                    )[k],
            decreases level_len / 2 - j,
        {
            let h = hash_pair(&levels[i][2 * j], &levels[i][2 * j + 1]);
            proof {
                lemma_tree_level_succ(leaves_seq, i as nat);
                assert(tree_level(leaves_seq, (i + 1) as nat)[j as int] == node_hash(
                    tree_level(leaves_seq, i as nat)[2 * j],
                    tree_level(leaves_seq, i as nat)[2 * j + 1],
                ));
            }
            next.push(h);
            j += 1;
        }
        proof {
            lemma_tree_level_succ(leaves_seq, i as nat);
            lemma_tree_level_len(leaves_seq, DEPTH as nat, (i + 1) as nat);
            assert(hashes_view(next) =~= tree_level(leaves_seq, (i + 1) as nat));
        }
        levels.push(next);
        i += 1;
    }
    let r = MerkleBatch { batch_start, prev_hash, levels };
    proof {
        assert(r.leaves() =~= leaves_seq);
    }
    r
}

/// The externally consumed witness for one block of a batch: the block
/// number, the claimed block hash, the linking hash of the preceding batch's
/// last block, the fixed batch size, and the ten sibling hashes
/// leaf-adjacent first.
pub struct BlockHashWitness {
    pub block_number: u32,
    pub claimed_block_hash: Vec<u8>,
    pub prev_hash: Vec<u8>,
    pub num_final: u32,
    pub merkle_proof: Vec<Vec<u8>>,
}

/// Extracts the inclusion witness for one block of a built batch: the leaf at
/// the block's batch-local index, and at each level the sibling of the node
/// on the path from that leaf to the root.
#[verifier::loop_isolation(false)]
pub fn extract_witness(batch: &MerkleBatch, block_number: u32) -> (w: BlockHashWitness)
    requires
        batch.wf(),
        batch.batch_start <= block_number < batch.batch_start + 1024,
    ensures
        w.block_number == block_number,
        w.claimed_block_hash@ == batch.leaves()[block_number - batch.batch_start],
        w.prev_hash@ == batch.prev_hash@,
        w.num_final == 1024,
        hashes_view(w.merkle_proof) == sibling_path(
            batch.leaves(),
            block_number - batch.batch_start,
        ),
{
    proof {
        lemma2_to64();
    }
    let side = (block_number - batch.batch_start) as usize;
    let claimed = copy_hash(&batch.levels[0][side]);
    let prev = copy_hash(&batch.prev_hash);
    let mut proof_nodes: Vec<Vec<u8>> = Vec::new();
    let mut path: usize = side;
    let mut i: usize = 0;
    while i < DEPTH
        invariant
            i <= DEPTH,
            path == side as int / pow2(i as nat) as int,
            proof_nodes@.len() == i,
            forall|k: int|
                0 <= k < i ==> (#[trigger] proof_nodes@[k])@ == sibling_path(
                    batch.leaves(),
                    side as int,
                )[k],
        decreases DEPTH - i,
    {
        proof {
            lemma_pow2_pos(i as nat);
            lemma_tree_level_len(batch.leaves(), DEPTH as nat, i as nat);
            lemma_pow2_unfold((DEPTH - i) as nat);
            assert(pow2(i as nat) * pow2((DEPTH - i) as nat) == 1024) by {
                vstd::arithmetic::power2::lemma_pow2_adds(i as nat, (DEPTH - i) as nat);
            };
            lemma_multiply_divide_lt(side as int, pow2(i as nat) as int, pow2(
                (DEPTH - i) as nat,
            ) as int);
            assert(path < pow2((DEPTH - i) as nat));
        }
        let sib = if path % 2 == 0 {
            path + 1
        } else {
            path - 1
        };
        assert(sib == sibling_index(path as int));
        assert(sib < pow2((DEPTH - i) as nat));
        let node = copy_hash(&batch.levels[i][sib]);
        proof {
            assert(node@ == tree_level(batch.leaves(), i as nat)[sib as int]);
            assert(sibling_path(batch.leaves(), side as int)[i as int] == node@);
        }
        proof_nodes.push(node);
        path = path / 2;
        i += 1;
        proof {
            lemma_pow2_unfold(i as nat);
            lemma_pow2_pos((i - 1) as nat);
            lemma_div_denominator(side as int, pow2((i - 1) as nat) as int, 2);
        }
    }
    proof {
        assert(hashes_view(proof_nodes) =~= sibling_path(batch.leaves(), side as int));
    }
    BlockHashWitness {
        block_number,
        claimed_block_hash: claimed,
        prev_hash: prev,
        num_final: NUM_LEAVES,
        merkle_proof: proof_nodes,
    }
}

/// Recomputes a root from a claimed leaf hash and an inclusion proof by the
/// left/right rule of the witness format: at step `i`, bit `i` of `side`
/// decides whether the running value is the left operand (bit 0) or the
/// right operand (bit 1). A consumer accepts the witness when the result
/// equals the batch's independently known root.
#[verifier::loop_isolation(false)]
pub fn recompute_merkle_root(claimed: &Vec<u8>, proof_nodes: &Vec<Vec<u8>>, side: u32) -> (r: Vec<
    u8,
>)
    ensures
        r@ == recompute_root(claimed@, hashes_view(*proof_nodes), side as int),
{
    let mut current = copy_hash(claimed);
    let mut path = side;
    let mut i: usize = 0;
    proof {
        assert(hashes_view(*proof_nodes).skip(0) =~= hashes_view(*proof_nodes));
    }
    while i < proof_nodes.len()
        invariant
            i <= proof_nodes@.len(),
            recompute_root(current@, hashes_view(*proof_nodes).skip(i as int), path as int)
                == recompute_root(claimed@, hashes_view(*proof_nodes), side as int),
        decreases proof_nodes@.len() - i,
    {
        proof {
            assert(hashes_view(*proof_nodes).skip(i as int).drop_first() =~= hashes_view(
                *proof_nodes,
            ).skip(i + 1));
            assert(hashes_view(*proof_nodes).skip(i as int)[0] == proof_nodes@[i as int]@);
        }
        current = if path % 2 == 0 {
            hash_pair(&current, &proof_nodes[i])
        } else {
            hash_pair(&proof_nodes[i], &current)
        };
        path = path / 2;
        i += 1;
    }
    proof {
        assert(hashes_view(*proof_nodes).skip(proof_nodes@.len() as int)
            =~= Seq::<Seq<u8>>::empty());
    }
    current
}

} // verus!
