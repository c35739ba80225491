//! Append-only Merkle accumulator: a running root over all inserted leaves,
//! kept as per-level "filled subtree" nodes so an insertion costs one hash
//! chain instead of a full rebuild.

use vstd::prelude::*;
use vstd::arithmetic::power2::{pow2, lemma2_to64, lemma_pow2_unfold};
use crate::codec::copy_range;
use crate::crypto::{hash2, hash_pair};
use crate::error::ContractError;

verus! {

/// Number of levels kept; the accumulator can hold up to `2^32 - 1` leaves.
pub const TREE_DEPTH: usize = 32;

/// Maximum number of leaves the accumulator accepts.
pub const MAX_LEAVES: u64 = 0xffff_ffff;

/// The all-zero 32-byte node.
pub open spec fn zero_bytes32() -> Seq<u8> {
    Seq::new(32, |i: int| 0u8)
}

/// Root of an all-empty subtree of the given height.
pub open spec fn zero_hash(level: nat) -> Seq<u8>
    decreases level,
{
    if level == 0 {
        zero_bytes32()
    } else {
        hash2(zero_hash((level - 1) as nat), zero_hash((level - 1) as nat))
    }
}

/// Sequence view of a vector of nodes.
pub open spec fn nodes_view(v: Seq<Vec<u8>>) -> Seq<Seq<u8>> {
    v.map_values(|x: Vec<u8>| x@)
}

/// The filled-subtree array after inserting `node` as leaf number `size`
/// (1-based), walking up from `level`: an even position at a level merges
/// with the stored left sibling and continues; an odd position is stored.
pub open spec fn insert_level(branch: Seq<Seq<u8>>, size: nat, node: Seq<u8>, level: nat) -> Seq<
    Seq<u8>,
>
    decreases 32 - level,
{
    if level >= 32 {
        branch
    } else if size % 2 == 1 {
        branch.update(level as int, node)
    } else {
        insert_level(branch, size / 2, hash2(branch[level as int], node), (level + 1) as nat)
    }
}

/// The filled-subtree array reached by inserting the given leaves in order
/// into an initially all-zero array.
pub open spec fn branch_after(leaves: Seq<Seq<u8>>) -> Seq<Seq<u8>>
    decreases leaves.len(),
{
    if leaves.len() == 0 {
        Seq::new(32, |i: int| zero_bytes32())
    } else {
        insert_level(branch_after(leaves.drop_last()), leaves.len(), leaves.last(), 0)
    }
}

/// The running root, folded upward from `level`: where the index is odd the
/// stored left sibling is hashed in, where it is even the level's all-empty
/// subtree root is the right sibling.
pub open spec fn root_level(current: Seq<u8>, index: nat, branch: Seq<Seq<u8>>, level: nat) -> Seq<
    u8,
>
    decreases 32 - level,
{
    if level >= 32 {
        current
    } else if index % 2 == 1 {
        root_level(hash2(branch[level as int], current), index / 2, branch, (level + 1) as nat)
    } else {
        root_level(hash2(current, zero_hash(level)), index / 2, branch, (level + 1) as nat)
    }
}

/// The root as a pure function of the leaf count and the filled subtrees.
pub open spec fn root_spec(count: nat, branch: Seq<Seq<u8>>) -> Seq<u8> {
    root_level(zero_bytes32(), count, branch, 0)
}

/// Folds a leaf up a Merkle path: at each level the path node is the left or
/// right sibling according to the leaf index's bit at that level.
pub open spec fn branch_root_level(
    current: Seq<u8>,
    index: nat,
    path: Seq<Seq<u8>>,
    level: nat,
) -> Seq<u8>
    decreases 32 - level,
{
    if level >= 32 {
        current
    } else if index % 2 == 1 {
        branch_root_level(hash2(path[level as int], current), index / 2, path, (level + 1) as nat)
    } else {
        branch_root_level(hash2(current, path[level as int]), index / 2, path, (level + 1) as nat)
    }
}

/// The root a verifier computes for `leaf` at position `index` from a path.
pub open spec fn branch_root_spec(leaf: Seq<u8>, path: Seq<Seq<u8>>, index: nat) -> Seq<u8> {
    branch_root_level(leaf, index, path, 0)
}

/// `path` is the inclusion path that the accumulator derives for the leaf
/// with the given index from the filled subtrees, from `level` upward.
pub open spec fn proof_ok(branch: Seq<Seq<u8>>, index: nat, path: Seq<Seq<u8>>, level: nat) -> bool
    decreases 32 - level,
{
    if level >= 32 {
        true
    } else {
        &&& path[level as int] == (if index % 2 == 1 {
            branch[level as int]
        } else {
            zero_hash(level)
        })
        &&& proof_ok(branch, index / 2, path, (level + 1) as nat)
    }
}

/// The insertion walk reaches an odd position before running out of levels.
pub open spec fn has_odd(size: nat, level: nat) -> bool
    decreases 32 - level,
{
    if level >= 32 {
        false
    } else if size % 2 == 1 {
        true
    } else {
        has_odd(size / 2, (level + 1) as nat)
    }
}

proof fn lemma_has_odd(size: nat, level: nat)
    requires
        level <= 31,
        1 <= size < pow2((32 - level) as nat),
    ensures
        has_odd(size, level),
    decreases 32 - level,
{
    if size % 2 == 1 {
    } else {
        lemma_pow2_unfold((32 - level) as nat);
        if level == 31 {
            lemma2_to64();
            assert(false);
        }
        lemma_has_odd(size / 2, (level + 1) as nat);
    }
}

/// Inserting touches no level below the one it starts at.
proof fn lemma_insert_preserves_low(branch: Seq<Seq<u8>>, size: nat, node: Seq<u8>, level: nat, j: int)
    requires
        branch.len() == 32,
        0 <= j < level,
    ensures
        insert_level(branch, size, node, level)[j] == branch[j],
    decreases 32 - level,
{
    if level >= 32 {
    } else if size % 2 == 1 {
    } else {
        lemma_insert_preserves_low(branch, size / 2, hash2(branch[level as int], node), (level
            + 1) as nat, j);
    }
}

/// Inserting keeps the array length.
proof fn lemma_insert_len(branch: Seq<Seq<u8>>, size: nat, node: Seq<u8>, level: nat)
    requires
        branch.len() == 32,
    ensures
        insert_level(branch, size, node, level).len() == branch.len(),
    decreases 32 - level,
{
    if level >= 32 {
    } else if size % 2 == 1 {
    } else {
        lemma_insert_len(branch, size / 2, hash2(branch[level as int], node), (level + 1) as nat);
    }
}

/// A verifier walking a path the accumulator derived computes the same fold
/// as the accumulator's own root computation.
proof fn lemma_fold_agree(
    current: Seq<u8>,
    index: nat,
    branch: Seq<Seq<u8>>,
    path: Seq<Seq<u8>>,
    level: nat,
)
    requires
        proof_ok(branch, index, path, level),
    ensures
        root_level(current, index, branch, level) == branch_root_level(current, index, path, level),
    decreases 32 - level,
{
    if level >= 32 {
    } else if index % 2 == 1 {
        lemma_fold_agree(hash2(branch[level as int], current), index / 2, branch, path, (level
            + 1) as nat);
    } else {
        lemma_fold_agree(hash2(current, zero_hash(level)), index / 2, branch, path, (level
            + 1) as nat);
    }
}

/// After inserting leaf number `size` (1-based) at `level`, the path derived
/// for it verifies to exactly the new root.
proof fn lemma_insert_verify(
    branch: Seq<Seq<u8>>,
    size: nat,
    node: Seq<u8>,
    path: Seq<Seq<u8>>,
    level: nat,
)
    requires
        branch.len() == 32,
        level <= 31,
        1 <= size < pow2((32 - level) as nat),
        proof_ok(insert_level(branch, size, node, level), (size - 1) as nat, path, level),
    ensures
        root_level(zero_hash(level), size, insert_level(branch, size, node, level), level)
            == branch_root_level(node, (size - 1) as nat, path, level),
    decreases 32 - level,
{
    let b2 = insert_level(branch, size, node, level);
    if size % 2 == 1 {
        assert(b2 == branch.update(level as int, node));
        assert(b2[level as int] == node);
        assert(((size - 1) as nat) % 2 == 0);
        assert(((size - 1) as nat) / 2 == size / 2);
        lemma_fold_agree(hash2(node, zero_hash(level)), size / 2, b2, path, (level + 1) as nat);
    } else {
        let node2 = hash2(branch[level as int], node);
        assert(b2 == insert_level(branch, size / 2, node2, (level + 1) as nat));
        lemma_pow2_unfold((32 - level) as nat);
        if level == 31 {
            lemma2_to64();
            assert(false);
        }
        lemma_insert_preserves_low(branch, size / 2, node2, (level + 1) as nat, level as int);
        assert(b2[level as int] == branch[level as int]);
        assert(((size - 1) as nat) % 2 == 1);
        assert(path[level as int] == b2[level as int]);
        assert(((size - 1) as nat) / 2 == size / 2 - 1);
        lemma_insert_verify(branch, size / 2, node2, path, (level + 1) as nat);
    }
}

/// The filled-subtree array always has one node per level.
pub proof fn lemma_branch_after_len(leaves: Seq<Seq<u8>>)
    ensures
        branch_after(leaves).len() == 32,
    decreases leaves.len(),
{
    if leaves.len() == 0 {
    } else {
        lemma_branch_after_len(leaves.drop_last());
        lemma_insert_len(branch_after(leaves.drop_last()), leaves.len(), leaves.last(), 0);
    }
}

/// After any sequence of insertions, the path derived for the most recent
/// leaf verifies against the root recorded at that moment: the first
/// snapshot whose count exceeds that leaf's index.
pub proof fn lemma_latest_proof_verifies(leaves: Seq<Seq<u8>>, path: Seq<Seq<u8>>)
    requires
        1 <= leaves.len() <= MAX_LEAVES,
        proof_ok(branch_after(leaves), (leaves.len() - 1) as nat, path, 0),
    ensures
        branch_root_spec(leaves.last(), path, (leaves.len() - 1) as nat) == root_spec(
            leaves.len(),
            branch_after(leaves),
        ),
{
    lemma2_to64();
    lemma_branch_after_len(leaves.drop_last());
    assert(branch_after(leaves) == insert_level(
        branch_after(leaves.drop_last()),
        leaves.len(),
        leaves.last(),
        0,
    ));
    lemma_insert_verify(branch_after(leaves.drop_last()), leaves.len(), leaves.last(), path, 0);
}

/// The incremental Merkle accumulator. `count` is the number of leaves ever
/// inserted; `branch` holds one filled-subtree node per level; `leaves` is
/// the ghost history the concrete state is proved to follow.
pub struct MerkleTree {
    pub branch: Vec<Vec<u8>>,
    pub count: u64,
    pub leaves: Ghost<Seq<Seq<u8>>>,
}

impl MerkleTree {
    /// Sequence view of the filled-subtree array.
    pub open spec fn branch_view(&self) -> Seq<Seq<u8>> {
        nodes_view(self.branch@)
    }

    /// Structure invariant: the concrete state is exactly the state reached
    /// by inserting the ghost leaf history in order.
    pub open spec fn wf(&self) -> bool {
        &&& self.count as nat == self.leaves@.len()
        &&& self.count <= MAX_LEAVES
        &&& self.branch@.len() == 32
        &&& (forall|i: int| 0 <= i < 32 ==> (#[trigger] self.branch@[i])@.len() == 32)
        &&& self.branch_view() == branch_after(self.leaves@)
    }

    /// The empty accumulator.
    pub fn new() -> (t: MerkleTree)
        ensures
            t.wf(),
            t.count == 0,
            t.leaves@ == Seq::<Seq<u8>>::empty(),
    {
        let mut branch: Vec<Vec<u8>> = Vec::new();
        let mut i: usize = 0;
        while i < 32
            invariant
                i <= 32,
                branch@.len() == i,
                forall|j: int| 0 <= j < i ==> (#[trigger] branch@[j])@ == zero_bytes32(),
            decreases 32 - i,
        {
            branch.push(zeros32());
            i = i + 1;
        }
        let t = MerkleTree { branch, count: 0, leaves: Ghost(Seq::empty()) };
        proof {
            assert(t.branch_view() =~= branch_after(Seq::<Seq<u8>>::empty()));
            assert(forall|j: int|
                0 <= j < 32 ==> (#[trigger] t.branch@[j])@.len() == 32) by {
                assert(zero_bytes32().len() == 32);
            }
        }
        t
    }

    /// Appends a leaf. Succeeds exactly while the accumulator is not full;
    /// on failure the state is unchanged.
    pub fn insert(&mut self, leaf: &Vec<u8>) -> (r: Result<(), ContractError>)
        requires
            old(self).wf(),
            leaf@.len() == 32,
        ensures
            old(self).count < MAX_LEAVES ==> (r is Ok && final(self).wf() && final(self).count
                == old(self).count + 1 && final(self).leaves@ == old(self).leaves@.push(leaf@)),
            old(self).count >= MAX_LEAVES ==> (r == Err::<(), ContractError>(
                ContractError::MerkleTreeFull,
            ) && *final(self) == *old(self)),
    {
        if self.count >= MAX_LEAVES {
            return Err(ContractError::MerkleTreeFull);
        }
        let new_count = self.count + 1;
        self.count = new_count;
        proof {
            self.leaves@ = self.leaves@.push(leaf@);
        }
        let ghost old_branch = self.branch_view();
        let ghost target = insert_level(old_branch, new_count as nat, leaf@, 0);
        proof {
            assert(self.leaves@.drop_last() =~= old(self).leaves@);
            assert(self.leaves@.last() == leaf@);
            assert(branch_after(self.leaves@) == target);
            lemma2_to64();
            lemma_has_odd(new_count as nat, 0);
        }
        let mut node: Vec<u8> = copy_range(leaf, 0, leaf.len());
        proof {
            assert(node@ =~= leaf@);
        }
        let mut size: u64 = new_count;
        let mut i: usize = 0;
        loop
            invariant_except_break
                i <= 31,
                has_odd(size as nat, i as nat),
                node@.len() == 32,
                self.branch@.len() == 32,
                forall|j: int| 0 <= j < 32 ==> (#[trigger] self.branch@[j])@.len() == 32,
                self.branch_view() == old_branch,
                insert_level(self.branch_view(), size as nat, node@, i as nat) == target,
                self.count == new_count,
                self.leaves@ == old(self).leaves@.push(leaf@),
            ensures
                self.branch@.len() == 32,
                forall|j: int| 0 <= j < 32 ==> (#[trigger] self.branch@[j])@.len() == 32,
                self.branch_view() == target,
                self.count == new_count,
                self.leaves@ == old(self).leaves@.push(leaf@),
            decreases 32 - i,
        {
            if size % 2 == 1 {
                let ghost before = self.branch_view();
                self.branch.set(i, node);
                proof {
                    assert(self.branch_view() =~= before.update(i as int, target[i as int])) by {
                        assert(insert_level(before, size as nat, node@, i as nat) == before.update(
                            i as int,
                            node@,
                        ));
                        lemma_insert_len(before, size as nat, node@, i as nat);
                    }
                }
                break;
            }
            proof {
                if i + 1 >= 32 {
                    assert(!has_odd(size as nat / 2, (i + 1) as nat));
                    assert(false);
                }
            }
            let next = hash_pair(&self.branch[i], &node);
            node = next;
            size = size / 2;
            i = i + 1;
        }
        proof {
            assert(final(self).wf());
        }
        Ok(())
    }

    /// The running root over all inserted leaves: a pure function of the
    /// leaf count and the filled subtrees.
    pub fn root(&self) -> (r: Vec<u8>)
        requires
            self.wf(),
        ensures
            r@ == root_spec(self.count as nat, self.branch_view()),
            r@.len() == 32,
    {
        let zeros = zero_hashes();
        let mut cur: Vec<u8> = zeros32();
        let mut idx: u64 = self.count;
        let mut i: usize = 0;
        while i < 32
            invariant
                i <= 32,
                cur@.len() == 32,
                zeros@.len() == 32,
                forall|j: int| 0 <= j < 32 ==> (#[trigger] zeros@[j])@ == zero_hash(j as nat),
                self.branch@.len() == 32,
                root_level(cur@, idx as nat, self.branch_view(), i as nat) == root_spec(
                    self.count as nat,
                    self.branch_view(),
                ),
            decreases 32 - i,
        {
            if idx % 2 == 1 {
                cur = hash_pair(&self.branch[i], &cur);
            } else {
                cur = hash_pair(&cur, &zeros[i]);
            }
            idx = idx / 2;
            i = i + 1;
        }
        cur
    }

    /// Derives the inclusion path for the most recently inserted leaf, valid
    /// against the root at the current count.
    pub fn get_proof(&self) -> (p: Vec<Vec<u8>>)
        requires
            self.wf(),
            1 <= self.count,
        ensures
            p@.len() == 32,
            forall|j: int| 0 <= j < 32 ==> (#[trigger] p@[j])@.len() == 32,
            proof_ok(self.branch_view(), (self.count - 1) as nat, nodes_view(p@), 0),
    {
        let zeros = zero_hashes();
        let mut p: Vec<Vec<u8>> = Vec::new();
        build_proof(&self.branch, &zeros, self.count - 1, 0, &mut p);
        p
    }
}

/// Recursively fills `p[level..32]` with the path for a leaf whose index,
/// shifted down to `level`, is `idx`.
fn build_proof(
    branch: &Vec<Vec<u8>>,
    zeros: &Vec<Vec<u8>>,
    idx: u64,
    level: usize,
    p: &mut Vec<Vec<u8>>,
)
    requires
        branch@.len() == 32,
        forall|j: int| 0 <= j < 32 ==> (#[trigger] branch@[j])@.len() == 32,
        zeros@.len() == 32,
        forall|j: int| 0 <= j < 32 ==> (#[trigger] zeros@[j])@ == zero_hash(j as nat),
        forall|j: int| 0 <= j < 32 ==> (#[trigger] zeros@[j])@.len() == 32,
        old(p)@.len() == level,
        level <= 32,
        forall|j: int| 0 <= j < level ==> (#[trigger] old(p)@[j])@.len() == 32,
    ensures
        final(p)@.len() == 32,
        forall|j: int| 0 <= j < level ==> final(p)@[j] == old(p)@[j],
        forall|j: int| 0 <= j < 32 ==> (#[trigger] final(p)@[j])@.len() == 32,
        proof_ok(nodes_view(branch@), idx as nat, nodes_view(final(p)@), level as nat),
    decreases 32 - level,
{
    if level == 32 {
        return ;
    }
    if idx % 2 == 1 {
        p.push(copy_range(&branch[level], 0, branch[level].len()));
    } else {
        p.push(copy_range(&zeros[level], 0, zeros[level].len()));
    }
    build_proof(branch, zeros, idx / 2, level + 1, p);
    proof {
        assert(nodes_view(final(p)@)[level as int] == (if idx as nat % 2 == 1 {
            nodes_view(branch@)[level as int]
        } else {
            zero_hash(level as nat)
        }));
    }
}

/// Computes the root that `leaf` at position `index` implies under a
/// 32-node inclusion path.
pub fn branch_root(leaf: &Vec<u8>, path: &Vec<Vec<u8>>, index: u64) -> (r: Vec<u8>)
    requires
        path@.len() == 32,
    ensures
        r@ == branch_root_spec(leaf@, nodes_view(path@), index as nat),
        r@.len() == 32,
    {
    let mut cur: Vec<u8> = copy_range(leaf, 0, leaf.len());
    proof {
        assert(cur@ =~= leaf@);
    }
    let mut idx: u64 = index;
    let mut i: usize = 0;
    while i < 32
        invariant
            i <= 32,
            path@.len() == 32,
            branch_root_level(cur@, idx as nat, nodes_view(path@), i as nat) == branch_root_spec(
                leaf@,
                nodes_view(path@),
                index as nat,
            ),
            i > 0 ==> cur@.len() == 32,
        decreases 32 - i,
    {
        if idx % 2 == 1 {
            cur = hash_pair(&path[i], &cur);
        } else {
            cur = hash_pair(&cur, &path[i]);
        }
        idx = idx / 2;
        i = i + 1;
    }
    cur
}

/// The root is a pure function of the leaf history: two accumulators that
/// received the same leaves in the same order agree on count, filled
/// subtrees and root, whatever call pattern produced them.
pub proof fn lemma_root_determined_by_leaves(t1: &MerkleTree, t2: &MerkleTree)
    requires
        t1.wf(),
        t2.wf(),
        t1.leaves@ == t2.leaves@,
    ensures
        t1.count == t2.count,
        t1.branch_view() == t2.branch_view(),
        root_spec(t1.count as nat, t1.branch_view()) == root_spec(
            t2.count as nat,
            t2.branch_view(),
        ),
{
}

/// The all-zero 32-byte node as a vector.
fn zeros32() -> (r: Vec<u8>)
    ensures
        r@ == zero_bytes32(),
{
    let mut out: Vec<u8> = Vec::new();
    let mut i: usize = 0;
    while i < 32
        invariant
            i <= 32,
            out@ =~= Seq::new(i as nat, |j: int| 0u8),
        decreases 32 - i,
    {
        out.push(0u8);
        i = i + 1;
        assert(out@ =~= Seq::new(i as nat, |j: int| 0u8));
    }
    proof {
        assert(out@ =~= zero_bytes32());
    }
    out
}

/// The per-level all-empty subtree roots, lowest first.
fn zero_hashes() -> (z: Vec<Vec<u8>>)
    ensures
        z@.len() == 32,
        forall|j: int| 0 <= j < 32 ==> (#[trigger] z@[j])@ == zero_hash(j as nat),
        forall|j: int| 0 <= j < 32 ==> (#[trigger] z@[j])@.len() == 32,
    {
    let mut z: Vec<Vec<u8>> = Vec::new();
    let mut cur: Vec<u8> = zeros32();
    let mut i: usize = 0;
    while i < 32
        invariant
            i <= 32,
            z@.len() == i,
            cur@ == zero_hash(i as nat),
            cur@.len() == 32,
            forall|j: int| 0 <= j < i ==> (#[trigger] z@[j])@ == zero_hash(j as nat),
            forall|j: int| 0 <= j < i ==> (#[trigger] z@[j])@.len() == 32,
        decreases 32 - i,
    {
        z.push(copy_range(&cur, 0, cur.len()));
        let next = hash_pair(&cur, &cur);
        cur = next;
        i = i + 1;
    }
    z
}

} // verus!
