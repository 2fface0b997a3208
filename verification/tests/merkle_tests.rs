use fri_proofs::domains::Domain;
use fri_proofs::field::goldilocks::Goldilocks;
use fri_proofs::field::PrimeField;
use fri_proofs::fri::{AuthenticationHash, AuthenticationPath, FriCommitment};
use fri_proofs::polynomial::Polynomial;

fn g(x: u64) -> Goldilocks {
    Goldilocks::from_u64(x)
}

fn poly(c: &[u64]) -> Polynomial<Goldilocks> {
    Polynomial::from_vec(c.iter().map(|x| g(*x)).collect())
}

fn pair(left: &[u8], right: &[u8]) -> [u8; 32] {
    let mut hasher = blake3::Hasher::new();
    hasher.update(left);
    hasher.update(right);
    *hasher.finalize().as_bytes()
}

fn tree_root(p: &Polynomial<Goldilocks>) -> [u8; 32] {
    let size = 8 * p.len() as u64;
    let w = Domain::<Goldilocks>::new_for_size(size).unwrap().generator;
    let leaves: Vec<Vec<u8>> = (0..size)
        .map(|i| p.eval_single(&w.pow(i)).to_u64().to_le_bytes().to_vec())
        .collect();
    let mut layer: Vec<[u8; 32]> =
        leaves.chunks(2).map(|c| pair(c[0].as_slice(), c[1].as_slice())).collect();
    while layer.len() > 1 {
        layer = layer.chunks(2).map(|c| pair(&c[0], &c[1])).collect();
    }
    layer[0]
}

#[test]
fn commitment_is_the_root_of_the_tree_over_the_evaluations() {
    for coefficients in [
        vec![1u64, 5, 5, 1, 10, 9, 0, 88],
        vec![3, 1, 4, 1],
        vec![7, 9],
        vec![42],
    ] {
        let p = poly(&coefficients);
        assert_eq!(*p.commitment().value().as_bytes(), tree_root(&p));
    }
}

#[test]
fn commitment_of_a_constant_is_the_tree_over_equal_leaves() {
    let c = 0x0102_0304_0506_0708u64;
    let leaf = pair(&c.to_le_bytes(), &c.to_le_bytes());
    assert_eq!(leaf, *blake3::hash(&[8, 7, 6, 5, 4, 3, 2, 1, 8, 7, 6, 5, 4, 3, 2, 1]).as_bytes());
    let node = pair(&leaf, &leaf);
    let root = pair(&node, &node);
    assert_eq!(*poly(&[c]).commitment().value().as_bytes(), root);
}

#[test]
fn every_leaf_has_a_path_to_the_commitment() {
    let p = poly(&[1, 5, 5, 1, 10, 9, 0, 88]);
    let commitment = p.commitment();
    let w = Domain::<Goldilocks>::new_for_size(64).unwrap().generator;
    for i in 0..64u64 {
        let point = w.pow(i);
        let path = p.authentication_path_for(&point);
        assert_eq!(path.authentication_path.len(), 5);
        assert!(path.contains_evaluation(&p.eval_single(&point)));
        assert_eq!(path.derive_root(), commitment.value());
    }
    let q = poly(&[4, 2]);
    let commitment = q.commitment();
    let w = Domain::<Goldilocks>::new_for_size(16).unwrap().generator;
    for i in 0..16u64 {
        let path = q.authentication_path_for(&w.pow(i));
        assert_eq!(path.authentication_path.len(), 3);
        assert_eq!(path.derive_root(), commitment.value());
    }
}

#[test]
fn path_holds_the_pair_of_the_queried_leaf() {
    let p = poly(&[1, 5, 5, 1, 10, 9, 0, 88]);
    let w = Domain::<Goldilocks>::new_for_size(64).unwrap().generator;
    let path = p.authentication_path_for(&w.pow(5));
    assert_eq!(path.first_evaluation, p.eval_single(&w.pow(4)));
    assert_eq!(path.second_evaluation, p.eval_single(&w.pow(5)));
    assert!(path.contains_evaluation(&p.eval_single(&w.pow(4))));
    assert!(!path.contains_evaluation(&p.eval_single(&w.pow(6))));
    // pair 2 is the left child of its parent, so its first sibling stands on the right
    assert!(!path.authentication_path[0].is_first);
    let sibling = pair(
        &p.eval_single(&w.pow(6)).to_u64().to_le_bytes(),
        &p.eval_single(&w.pow(7)).to_u64().to_le_bytes(),
    );
    assert_eq!(path.authentication_path[0].hash_ref(), &sibling[..]);
    assert!(path.authentication_path[1].is_first);
}

#[test]
fn changed_sibling_changes_the_derived_root() {
    let p = poly(&[1, 5, 5, 1, 10, 9, 0, 88]);
    let w = Domain::<Goldilocks>::new_for_size(64).unwrap().generator;
    let path = p.authentication_path_for(&w.pow(9));
    let root = path.derive_root();
    for level in 0..path.authentication_path.len() {
        for bit in [0u8, 3, 7] {
            let mut siblings: Vec<AuthenticationHash> = path.authentication_path.clone();
            let mut bytes = *siblings[level].hash.as_bytes();
            bytes[(level * 7) % 32] ^= 1 << bit;
            siblings[level] =
                AuthenticationHash::new(fri_proofs::hash::Hash::from_bytes(bytes), siblings[level].is_first);
            let changed =
                AuthenticationPath::new(path.first_evaluation, path.second_evaluation, siblings);
            assert_ne!(changed.derive_root(), root);
        }
    }
}

#[test]
fn digest_is_read_as_a_big_endian_number() {
    let mut bytes = [0u8; 32];
    bytes[31] = 5;
    bytes[23] = 1;
    let commitment: FriCommitment<Goldilocks> =
        FriCommitment::new(fri_proofs::hash::Hash::from_bytes(bytes));
    // 2^64 + 5 modulo p is 2^32 + 4
    assert_eq!(commitment.interpret_as_element().to_u64(), (1 << 32) + 4);
    // the exponent is the low 64 bits: 5
    let w = Domain::<Goldilocks>::new_for_size(64).unwrap().generator;
    assert_eq!(commitment.interpret_as_root_of_unity(64), w.pow(5));
    assert_eq!(commitment.interpret_as_root_of_unity(33), w.pow(5));
    assert_eq!(*commitment.next_value().as_bytes(), *blake3::hash(&bytes).as_bytes());
    assert_eq!(commitment.value(), commitment.clone().value());
}

#[test]
fn folding_halves_down_to_a_constant() {
    let p = poly(&[1, 5, 5, 1, 10, 9, 0, 88]);
    let (commitments, layers) = p.fold_full();
    assert_eq!(commitments.len(), 3);
    assert_eq!(layers.len(), 3);
    assert_eq!(layers[0].len(), 4);
    assert_eq!(layers[1].len(), 2);
    assert_eq!(layers[2].len(), 1);
    let mut current = p.clone();
    for i in 0..3 {
        let alpha = current.commitment().interpret_as_element();
        let folded = current.fold_with(&alpha);
        for j in 0..folded.len() {
            let expected = current
                .coefficient_at(2 * j)
                .add(&alpha.mul(&current.coefficient_at(2 * j + 1)));
            assert_eq!(folded.coefficient_at(j), expected);
        }
        assert_eq!(folded.coefficients(), layers[i].coefficients());
        assert_eq!(folded.commitment().value(), commitments[i].value());
        current = folded;
    }
    let folded = poly(&[1, 2, 3, 4]).fold_with(&g(10));
    assert_eq!(folded.coefficients(), poly(&[21, 43]).coefficients());
}
