//! Authentication paths: the siblings that tie a pair of leaves to the root of the tree.

use vstd::prelude::*;
use vstd::arithmetic::power2::{
    lemma2_to64, lemma_pow2_adds, lemma_pow2_pos, lemma_pow2_unfold, pow2,
};
use crate::arith::{ceil_log2, is_power_of_two, lemma_power_of_two_logs};
use crate::constants::FRI_BLOWUP_FACTOR;
use crate::field::{encoding, values, PrimeField};
use crate::fri::commitment::{
    blown_up, digests, encodings, hash_pairs, leaf_hash, merkle_root, node_hash, pair_hashes,
};
use crate::fri::{sibling_views, AuthenticationHash, AuthenticationPath};
use crate::hash::blake3_digest;
use crate::polynomial::{poly_eval, Polynomial};

verus! {

/// The digest reached from `start` by joining it with each sibling in turn, the sibling first
/// where it stands on the left, and hashing.
pub open spec fn root_from_path(start: Seq<u8>, siblings: Seq<(Seq<u8>, bool)>) -> Seq<u8>
    decreases siblings.len(),
{
    if siblings.len() == 0 {
        start
    } else {
        let next = if siblings[0].1 {
            blake3_digest(siblings[0].0 + start)
        } else {
            blake3_digest(start + siblings[0].0)
        };
        root_from_path(next, siblings.drop_first())
    }
}

/// The siblings of the node `index` of a layer and of its ancestors, from that layer up to
/// the two children of the root.
pub open spec fn auth_siblings(layer: Seq<Seq<u8>>, index: int) -> Seq<(Seq<u8>, bool)>
    decreases layer.len(),
{
    if layer.len() <= 1 {
        Seq::empty()
    } else {
        let sibling = if index % 2 == 0 {
            (layer[index + 1], false)
        } else {
            (layer[index - 1], true)
        };
        seq![sibling] + auth_siblings(pair_hashes(layer), index / 2)
    }
}

/// The index of the first pair of adjacent entries, from the pair `from` on, that holds
/// `target`; the number of pairs if there is none.
pub open spec fn first_pair_with(evals: Seq<int>, target: int, from: int) -> int
    decreases evals.len() - 2 * from,
{
    if from < 0 || 2 * from + 1 >= evals.len() {
        from
    } else if evals[2 * from] == target || evals[2 * from + 1] == target {
        from
    } else {
        first_pair_with(evals, target, from + 1)
    }
}

/// The path is the one of the first pair of adjacent evaluations of `a` on its blown-up
/// domain that holds the value of `a` at `x`.
pub open spec fn path_for<F: PrimeField>(path: AuthenticationPath<F>, a: Seq<int>, x: int) -> bool {
    let evals = blown_up::<F>(a);
    let index = first_pair_with(evals, poly_eval(a, x, F::modulus()), 0);
    &&& 0 <= 2 * index + 1 < evals.len()
    &&& path.first_evaluation.value() == evals[2 * index]
    &&& path.second_evaluation.value() == evals[2 * index + 1]
    &&& sibling_views(path.authentication_path@) == auth_siblings(
        pair_hashes(encodings::<F>(evals)),
        index,
    )
}

/// The first pair found from `from` on holds the target, if any entry from there on does.
pub proof fn lemma_first_pair_holds_target(evals: Seq<int>, target: int, from: int, at: int)
    requires
        evals.len() % 2 == 0,
        0 <= from,
        2 * from <= at < evals.len(),
        evals[at] == target,
    ensures
        ({
            let index = first_pair_with(evals, target, from);
            &&& from <= index
            &&& 2 * index + 1 < evals.len()
            &&& (evals[2 * index] == target || evals[2 * index + 1] == target)
        }),
    decreases evals.len() - 2 * from,
{
    if !(evals[2 * from] == target || evals[2 * from + 1] == target) {
        lemma_first_pair_holds_target(evals, target, from + 1, at);
    }
}

/// A path built for a point whose value is among the evaluations holds that value in its
/// leaf pair and leads to the commitment of the polynomial.
pub proof fn lemma_path_leads_to_commitment<F: PrimeField>(
    path: AuthenticationPath<F>,
    a: Seq<int>,
    x: int,
)
    requires
        is_power_of_two(a.len()),
        path_for(path, a, x),
    ensures
        path.derived_root() == crate::fri::commitment::commitment_root::<F>(a),
        (exists|i: int|
            0 <= i < blown_up::<F>(a).len() && #[trigger] blown_up::<F>(a)[i] == poly_eval(
                a,
                x,
                F::modulus(),
            )) ==> (path.first_evaluation.value() == poly_eval(a, x, F::modulus())
            || path.second_evaluation.value() == poly_eval(a, x, F::modulus())),
{
    let evals = blown_up::<F>(a);
    let target = poly_eval(a, x, F::modulus());
    let index = first_pair_with(evals, target, 0);
    let leaves = encodings::<F>(evals);
    let bottom = pair_hashes(leaves);
    let m = ceil_log2(a.len());
    lemma_power_of_two_logs(a.len());
    lemma2_to64();
    lemma_pow2_adds(2, m);
    lemma_pow2_adds(3, m);
    assert(evals.len() == FRI_BLOWUP_FACTOR as nat * a.len());
    assert(bottom.len() == pow2(m + 2));
    lemma_path_reaches_root(bottom, m + 2, index);
    assert(bottom[index] == blake3_digest(leaves[2 * index] + leaves[2 * index + 1]));
    assert(merkle_root(leaves) == merkle_root(bottom));
    if exists|i: int| 0 <= i < evals.len() && #[trigger] evals[i] == target {
        let at = choose|i: int| 0 <= i < evals.len() && #[trigger] evals[i] == target;
        lemma_first_pair_holds_target(evals, target, 0, at);
    }
}

/// The siblings of a node lead from the node to the root of the tree.
pub proof fn lemma_path_reaches_root(layer: Seq<Seq<u8>>, height: nat, index: int)
    requires
        layer.len() == pow2(height),
        0 <= index < layer.len(),
    ensures
        root_from_path(layer[index], auth_siblings(layer, index)) == merkle_root(layer),
        auth_siblings(layer, index).len() == height,
    decreases height,
{
    lemma2_to64();
    if height > 0 {
        lemma_pow2_unfold(height);
        lemma_pow2_pos((height - 1) as nat);
        let above = pair_hashes(layer);
        lemma_path_reaches_root(above, (height - 1) as nat, index / 2);
        let siblings = auth_siblings(layer, index);
        assert(siblings.drop_first() =~= auth_siblings(above, index / 2));
        if index % 2 == 0 {
            assert(above[index / 2] == blake3_digest(layer[index] + layer[index + 1]));
        } else {
            assert(above[index / 2] == blake3_digest(layer[index - 1] + layer[index]));
        }
    }
}

/// Pairing a layer without the two children of one node gives the layer above without that
/// node.
pub proof fn lemma_pairs_without_node(layer: Seq<Seq<u8>>, rest: Seq<Seq<u8>>, q: int)
    requires
        layer.len() % 2 == 0,
        0 <= q < layer.len() / 2,
        rest == layer.remove(2 * q).remove(2 * q),
    ensures
        pair_hashes(rest) == pair_hashes(layer).remove(q),
{
    let left = pair_hashes(rest);
    let right = pair_hashes(layer).remove(q);
    assert(rest.len() == layer.len() - 2);
    assert forall|t: int| 0 <= t < left.len() implies left[t] == right[t] by {
        if t < q {
            assert(rest[2 * t] == layer[2 * t]);
            assert(rest[2 * t + 1] == layer[2 * t + 1]);
        } else {
            assert(rest[2 * t] == layer[2 * t + 2]);
            assert(rest[2 * t + 1] == layer[2 * t + 3]);
        }
    }
    assert(left =~= right);
}

impl<F: PrimeField> AuthenticationPath<F> {
    /// The path of the leaf pair `(first_evaluation, second_evaluation)` with the given
    /// siblings.
    pub fn new(
        first_evaluation: F,
        second_evaluation: F,
        authentication_path: Vec<AuthenticationHash>,
    ) -> (r: Self)
        ensures
            r.first_evaluation == first_evaluation,
            r.second_evaluation == second_evaluation,
            r.authentication_path == authentication_path,
    {
        Self { first_evaluation, second_evaluation, authentication_path }
    }

    /// The root that the path leads to.
    pub open spec fn derived_root(&self) -> Seq<u8> {
        root_from_path(
            blake3_digest(
                encoding::<F>(self.first_evaluation.value()) + encoding::<F>(
                    self.second_evaluation.value(),
                ),
            ),
            sibling_views(self.authentication_path@),
        )
    }

    /// Rebuilds the root: the digest of the leaf pair is joined with each sibling in turn and
    /// hashed.
    pub fn derive_root(&self) -> (r: crate::hash::Hash)
        ensures
            r@ == self.derived_root(),
    {
        let mut target: crate::hash::Hash = leaf_hash(
            &self.first_evaluation,
            &self.second_evaluation,
        );
        let ghost all = sibling_views(self.authentication_path@);
        let n: usize = self.authentication_path.len();
        let mut i: usize = 0;
        proof {
            assert(all.subrange(0, n as int) =~= all);
        }
        while i < n
            invariant
                i <= n,
                n == self.authentication_path@.len(),
                all == sibling_views(self.authentication_path@),
                root_from_path(target@, all.subrange(i as int, n as int)) == self.derived_root(),
            decreases n - i,
        {
            proof {
                let rest = all.subrange(i as int, n as int);
                assert(rest.drop_first() =~= all.subrange(i + 1, n as int));
                assert(rest[0] == self.authentication_path@[i as int]@);
            }
            if self.authentication_path[i].is_first {
                target = node_hash(&self.authentication_path[i].hash, &target);
            } else {
                target = node_hash(&target, &self.authentication_path[i].hash);
            }
            i += 1;
        }
        target
    }

    /// Whether `evaluation` is one of the two leaves of the path.
    pub fn contains_evaluation(&self, evaluation: &F) -> (r: bool)
        ensures
            r == (self.first_evaluation.value() == evaluation.value()
                || self.second_evaluation.value() == evaluation.value()),
    {
        self.first_evaluation.equals(evaluation) || self.second_evaluation.equals(evaluation)
    }
}

impl AuthenticationHash {
    /// The sibling `hash`, standing on the left if `is_first`.
    pub fn new(hash: crate::hash::Hash, is_first: bool) -> (r: Self)
        ensures
            r@ == (hash@, is_first),
    {
        Self { hash, is_first }
    }

    /// The bytes of the sibling digest.
    pub fn hash_ref(&self) -> (r: &[u8])
        ensures
            r@ == self@.0,
    {
        self.hash.as_bytes().as_slice()
    }
}

impl<F: PrimeField> Polynomial<F> {
    /// Whether the value of the polynomial at `root` occurs among its evaluations on the
    /// blown-up domain, as it does for every `root` in that domain.
    pub open spec fn has_leaf_for(&self, root: int) -> bool {
        exists|i: int|
            0 <= i < blown_up::<F>(self@).len() && #[trigger] blown_up::<F>(self@)[i] == poly_eval(
                self@,
                root,
                F::modulus(),
            )
    }

    /// The path of the first pair of adjacent evaluations on the blown-up domain that holds
    /// the value of the polynomial at `root`.
    pub fn authentication_path_for(&self, root: &F) -> (r: AuthenticationPath<F>)
        requires
            is_power_of_two(self@.len()),
            self@.len() <= 0x1000_0000,
            self.has_leaf_for(root.value()),
        ensures
            path_for(r, self@, root.value()),
    {
        let target: F = self.eval_single(root);
        let evaluations: Vec<F> = self.blown_up_evaluations();
        let ghost bottom = pair_hashes(encodings::<F>(values(evaluations@)));
        let (hash_vec, first_evaluation, second_evaluation, index) = leaves_around(
            &evaluations,
            &target,
        );
        proof {
            lemma_power_of_two_logs(self@.len());
            lemma2_to64();
            lemma_pow2_adds(2, ceil_log2(self@.len()));
        }
        let authentication_vec: Vec<AuthenticationHash> = siblings_above(
            hash_vec,
            index,
            Ghost(bottom),
            Ghost(ceil_log2(self@.len()) + 2),
        );
        AuthenticationPath::new(first_evaluation, second_evaluation, authentication_vec)
    }
}

/// Scans the pairs of adjacent evaluations for the first that holds `target`. Returns the
/// digests of all other pairs, the two evaluations of that pair and its index.
fn leaves_around<F: PrimeField>(evaluations: &Vec<F>, target: &F) -> (r: (
    Vec<crate::hash::Hash>,
    F,
    F,
    usize,
))
    requires
        evaluations@.len() % 2 == 0,
        exists|i: int|
            0 <= i < evaluations@.len() && #[trigger] values(evaluations@)[i] == target.value(),
    ensures
        ({
            let evals = values(evaluations@);
            let bottom = pair_hashes(encodings::<F>(evals));
            &&& r.3 == first_pair_with(evals, target.value(), 0)
            &&& 2 * r.3 + 1 < evals.len()
            &&& r.1.value() == evals[2 * r.3]
            &&& r.2.value() == evals[2 * r.3 + 1]
            &&& digests(r.0@) == bottom.remove(r.3 as int)
        }),
{
    let ghost evals = values(evaluations@);
    let ghost goal = target.value();
    let ghost bottom = pair_hashes(encodings::<F>(evals));
    let count: usize = evaluations.len() / 2;
    let mut hash_vec: Vec<crate::hash::Hash> = Vec::new();
    let mut first_evaluation: Option<F> = None;
    let mut second_evaluation: Option<F> = None;
    let mut index: usize = 0;
    let mut i: usize = 0;
    while i < count
        invariant
            i <= count,
            count == evaluations@.len() / 2,
            evaluations@.len() % 2 == 0,
            evaluations@.len() <= usize::MAX,
            evals == values(evaluations@),
            goal == target.value(),
            bottom == pair_hashes(encodings::<F>(evals)),
            first_evaluation.is_some() == second_evaluation.is_some(),
            first_evaluation.is_none() ==> {
                &&& first_pair_with(evals, goal, 0) == first_pair_with(evals, goal, i as int)
                &&& digests(hash_vec@) == bottom.subrange(0, i as int)
                &&& forall|t: int| 0 <= t < 2 * i ==> #[trigger] evals[t] != goal
            },
            first_evaluation.is_some() ==> {
                &&& index == first_pair_with(evals, goal, 0)
                &&& index < i
                &&& first_evaluation.unwrap().value() == evals[2 * index]
                &&& second_evaluation.unwrap().value() == evals[2 * index + 1]
                &&& digests(hash_vec@) == bottom.subrange(0, i as int).remove(index as int)
            },
        decreases count - i,
    {
        let here: bool = evaluations[2 * i].equals(target) || evaluations[2 * i + 1].equals(target);
        if here && first_evaluation.is_none() {
            first_evaluation = Some(evaluations[2 * i]);
            second_evaluation = Some(evaluations[2 * i + 1]);
            index = i;
            proof {
                assert(digests(hash_vec@) =~= bottom.subrange(0, i + 1).remove(i as int));
            }
        } else {
            let ghost before = digests(hash_vec@);
            hash_vec.push(leaf_hash(&evaluations[2 * i], &evaluations[2 * i + 1]));
            proof {
                assert(digests(hash_vec@) =~= before.push(bottom[i as int]));
                if first_evaluation.is_none() {
                    assert(digests(hash_vec@) =~= bottom.subrange(0, i + 1));
                    assert forall|t: int| 0 <= t < 2 * (i + 1) implies #[trigger] evals[t]
                        != goal by {
                        if t >= 2 * i {
                            assert(t == 2 * i || t == 2 * i + 1);
                        }
                    }
                } else {
                    assert(digests(hash_vec@) =~= bottom.subrange(0, i + 1).remove(index as int));
                }
            }
        }
        i += 1;
    }
    assert(first_evaluation.is_some());
    proof {
        assert(bottom.subrange(0, count as int) =~= bottom);
    }
    (hash_vec, first_evaluation.unwrap(), second_evaluation.unwrap(), index)
}

/// Climbs the tree from a layer that lacks the node `index`: at each level the sibling of the
/// missing node is taken out and recorded, and the rest is paired into the next layer.
fn siblings_above(
    hash_vec: Vec<crate::hash::Hash>,
    index: usize,
    Ghost(bottom): Ghost<Seq<Seq<u8>>>,
    Ghost(levels): Ghost<nat>,
) -> (r: Vec<AuthenticationHash>)
    requires
        bottom.len() == pow2(levels),
        levels >= 1,
        index < bottom.len(),
        digests(hash_vec@) == bottom.remove(index as int),
    ensures
        sibling_views(r@) == auth_siblings(bottom, index as int),
{
    let mut hash_vec = hash_vec;
    let mut index = index;
    let mut authentication_vec: Vec<AuthenticationHash> = Vec::new();
    let ghost mut layer = bottom;
    let ghost mut height: nat = levels;
    let ghost start = index as int;
    proof {
        assert(sibling_views(authentication_vec@) + auth_siblings(layer, index as int)
            =~= auth_siblings(bottom, start));
    }
    while hash_vec.len() > 1
        invariant
            layer.len() == pow2(height),
            height >= 1,
            index < layer.len(),
            digests(hash_vec@) == layer.remove(index as int),
            sibling_views(authentication_vec@) + auth_siblings(layer, index as int)
                == auth_siblings(bottom, start),
        decreases hash_vec@.len(),
    {
        let ghost below = layer;
        let ghost holed = digests(hash_vec@);
        let ghost so_far = sibling_views(authentication_vec@);
        proof {
            lemma_pow2_unfold(height);
            if height == 1 {
                lemma2_to64();
            }
            assert(holed.len() == hash_vec@.len());
            assert(holed.len() == below.len() - 1);
        }
        if index % 2 == 0 {
            let sibling: crate::hash::Hash = hash_vec.remove(index);
            proof {
                assert(holed[index as int] == below[index + 1]);
                assert(digests(hash_vec@) =~= holed.remove(index as int));
                assert(holed.remove(index as int) =~= below.remove(index as int).remove(
                    index as int,
                ));
            }
            authentication_vec.push(AuthenticationHash::new(sibling, false));
        } else {
            let sibling: crate::hash::Hash = hash_vec.remove(index - 1);
            proof {
                assert(holed[index - 1] == below[index - 1]);
                assert(digests(hash_vec@) =~= holed.remove(index - 1));
                assert(holed.remove(index - 1) =~= below.remove(index - 1).remove(index - 1));
            }
            authentication_vec.push(AuthenticationHash::new(sibling, true));
        }
        proof {
            let q = index as int / 2;
            lemma_pairs_without_node(below, digests(hash_vec@), q);
            let step = auth_siblings(below, index as int);
            assert(step.drop_first() =~= auth_siblings(pair_hashes(below), q));
            assert(sibling_views(authentication_vec@) =~= so_far.push(step[0]));
            assert(so_far.push(step[0]) + auth_siblings(pair_hashes(below), q) =~= so_far + step);
            layer = pair_hashes(below);
            height = (height - 1) as nat;
            if height == 0 {
                // the layer below had two nodes, and the loop would not have run
                assert(holed.len() == 1);
            }
        }
        let ghost short = hash_vec@.len();
        hash_vec = hash_pairs(&hash_vec);
        index = index / 2;
        proof {
            assert(digests(hash_vec@).len() == short / 2);
        }
    }
    proof {
        lemma2_to64();
        if height > 1 {
            lemma_pow2_unfold(height);
            lemma_pow2_pos((height - 1) as nat);
            if height > 2 {
                lemma_pow2_unfold((height - 1) as nat);
                lemma_pow2_pos((height - 2) as nat);
            }
        }
        assert(digests(hash_vec@).len() == hash_vec@.len());
        assert(layer.len() == 2);
        let last = auth_siblings(layer, index as int);
        let above = auth_siblings(pair_hashes(layer), index as int / 2);
        assert(pair_hashes(layer).len() == 1);
        assert(above =~= Seq::<(Seq<u8>, bool)>::empty());
        assert(last.len() == 1);
        assert(digests(hash_vec@)[0] == layer[1 - index]);
    }
    let is_first: bool = index != 0;
    let ghost so_far = sibling_views(authentication_vec@);
    authentication_vec.push(AuthenticationHash::new(hash_vec[0], is_first));
    proof {
        let last = auth_siblings(layer, index as int);
        assert(sibling_views(authentication_vec@) =~= so_far.push(last[0]));
        assert(so_far.push(last[0]) =~= so_far + last);
    }
    authentication_vec
}

} // verus!
