use interchain_core::merkle::{branch_root, MerkleTree};

fn leaf(b: u8) -> Vec<u8> {
    vec![b; 32]
}

#[test]
fn count_follows_inserts() {
    let mut t = MerkleTree::new();
    assert_eq!(t.count, 0);
    for i in 0..5u8 {
        t.insert(&leaf(i)).unwrap();
        assert_eq!(t.count, (i + 1) as u64);
    }
}

#[test]
fn same_leaf_order_same_root() {
    let mut t1 = MerkleTree::new();
    let mut t2 = MerkleTree::new();
    for i in 0..7u8 {
        t1.insert(&leaf(i)).unwrap();
    }
    for i in 0..7u8 {
        t2.insert(&leaf(i)).unwrap();
    }
    assert_eq!(t1.root(), t2.root());
    assert_eq!(t1.branch, t2.branch);
}

#[test]
fn different_leaves_different_root() {
    let mut t1 = MerkleTree::new();
    let mut t2 = MerkleTree::new();
    t1.insert(&leaf(1)).unwrap();
    t2.insert(&leaf(2)).unwrap();
    assert_ne!(t1.root(), t2.root());
}

#[test]
fn root_is_32_bytes_and_moves() {
    let mut t = MerkleTree::new();
    let r0 = t.root();
    assert_eq!(r0.len(), 32);
    t.insert(&leaf(9)).unwrap();
    let r1 = t.root();
    assert_eq!(r1.len(), 32);
    assert_ne!(r0, r1);
}

#[test]
fn latest_proof_verifies_against_snapshot_root() {
    let mut t = MerkleTree::new();
    for i in 0..6u8 {
        let l = leaf(i);
        t.insert(&l).unwrap();
        // the first snapshot with count > i is right after this insert
        let proof = t.get_proof();
        let computed = branch_root(&l, &proof, (t.count - 1) as u64);
        assert_eq!(computed, t.root());
    }
}

#[test]
fn stale_proof_does_not_verify_against_later_root() {
    let mut t = MerkleTree::new();
    t.insert(&leaf(1)).unwrap();
    let proof = t.get_proof();
    let l = leaf(1);
    let snapshot_root = t.root();
    t.insert(&leaf(2)).unwrap();
    assert_eq!(branch_root(&l, &proof, 0), snapshot_root);
    assert_ne!(branch_root(&l, &proof, 0), t.root());
}
