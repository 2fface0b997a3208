//! The FRI commitment scheme: commitments, authentication paths, folding and proofs.

use vstd::prelude::*;
use core::marker::PhantomData;
use crate::field::PrimeField;
use crate::hash::{blake3_digest, digest_of_pair};

pub mod authentication;
pub mod commitment;
pub mod completeness;
pub mod evaluation;
pub mod fold;
pub mod shift;

verus! {

/// The root of the hash tree over the blown-up evaluations of a polynomial.
#[derive(Debug)]
pub struct FriCommitment<F: PrimeField>(crate::hash::Hash, PhantomData<F>);

impl<F: PrimeField> View for FriCommitment<F> {
    type V = Seq<u8>;

    /// The bytes of the root digest.
    closed spec fn view(&self) -> Seq<u8> {
        self.0@
    }
}

/// A sibling digest at one level of the tree, and whether it stands to the left of the node
/// on the path.
#[derive(Debug, Clone, Copy)]
pub struct AuthenticationHash {
    pub hash: crate::hash::Hash,
    pub is_first: bool,
}

impl View for AuthenticationHash {
    type V = (Seq<u8>, bool);

    /// The sibling's bytes and its side.
    open spec fn view(&self) -> (Seq<u8>, bool) {
        (self.hash@, self.is_first)
    }
}

/// A pair of adjacent leaves and the siblings of their ancestors, from the lowest level up.
#[derive(Debug)]
pub struct AuthenticationPath<F: PrimeField> {
    pub first_evaluation: F,
    pub second_evaluation: F,
    pub authentication_path: Vec<AuthenticationHash>,
}

/// The views of a sequence of siblings.
pub open spec fn sibling_views(s: Seq<AuthenticationHash>) -> Seq<(Seq<u8>, bool)> {
    Seq::new(s.len(), |i: int| s[i]@)
}

/// The views of a sequence of commitments.
pub open spec fn commitment_views<F: PrimeField>(s: Seq<FriCommitment<F>>) -> Seq<Seq<u8>> {
    Seq::new(s.len(), |i: int| s[i]@)
}

impl<F: PrimeField> FriCommitment<F> {
    /// The commitment with the root `h`.
    pub fn new(h: crate::hash::Hash) -> (r: Self)
        ensures
            r@ == h@,
    {
        Self(h, PhantomData)
    }

    /// The root digest.
    pub fn value(&self) -> (r: crate::hash::Hash)
        ensures
            r@ == self@,
    {
        self.0
    }

    /// The digest of the root digest.
    pub fn next_value(&self) -> (r: crate::hash::Hash)
        ensures
            r@ == blake3_digest(self@),
    {
        let empty: [u8; 0] = [];
        proof {
            assert(self@ + empty@ =~= self@);
        }
        digest_of_pair(self.0.as_bytes().as_slice(), empty.as_slice())
    }

}

impl<F: PrimeField> Clone for FriCommitment<F> {
    /// A commitment with the same root.
    fn clone(&self) -> (r: Self)
        ensures
            r@ == self@,
    {
        Self(self.0, PhantomData)
    }
}

impl<F: PrimeField> Clone for AuthenticationPath<F> {
    /// A path with the same leaves and siblings.
    fn clone(&self) -> (r: Self)
        ensures
            r.first_evaluation == self.first_evaluation,
            r.second_evaluation == self.second_evaluation,
            r.authentication_path@ == self.authentication_path@,
    {
        let mut siblings: Vec<AuthenticationHash> = Vec::new();
        let n: usize = self.authentication_path.len();
        let mut i: usize = 0;
        while i < n
            invariant
                i <= n,
                n == self.authentication_path@.len(),
                siblings@ == self.authentication_path@.subrange(0, i as int),
            decreases n - i,
        {
            siblings.push(self.authentication_path[i]);
            i += 1;
            proof {
                assert(siblings@ =~= self.authentication_path@.subrange(0, i as int));
            }
        }
        proof {
            assert(siblings@ =~= self.authentication_path@);
        }
        Self {
            first_evaluation: self.first_evaluation,
            second_evaluation: self.second_evaluation,
            authentication_path: siblings,
        }
    }
}

/// What the prover hands over for one query: the evaluations at the query point and its
/// negative with their paths, one evaluation and path per folded layer, and the commitments
/// of the layers.
#[derive(Debug)]
pub struct FriChallenge<F: PrimeField> {
    pub positive_evaluation: F,
    pub negative_evaluation: F,
    pub positive_authentication_path: AuthenticationPath<F>,
    pub negative_authentication_path: AuthenticationPath<F>,
    pub authentication_vector: Vec<AuthenticationPath<F>>,
    pub fold_queries: Vec<F>,
    pub commitment_vector: Vec<FriCommitment<F>>,
}

/// The verdict on a proof.
#[derive(Debug, Clone, Copy, PartialEq, Eq)]
pub enum VerificationResult {
    ValidProof,
    InvalidProof,
}

impl<F: PrimeField> FriChallenge<F> {
    /// Bundles the answers to one query.
    pub fn new(
        positive_evaluation: F,
        negative_evaluation: F,
        positive_authentication_path: AuthenticationPath<F>,
        negative_authentication_path: AuthenticationPath<F>,
        authentication_vector: Vec<AuthenticationPath<F>>,
        fold_queries: Vec<F>,
        commitment_vector: Vec<FriCommitment<F>>,
    ) -> (r: Self)
        ensures
            r.positive_evaluation == positive_evaluation,
            r.negative_evaluation == negative_evaluation,
            r.positive_authentication_path == positive_authentication_path,
            r.negative_authentication_path == negative_authentication_path,
            r.authentication_vector == authentication_vector,
            r.fold_queries == fold_queries,
            r.commitment_vector == commitment_vector,
    {
        Self {
            positive_evaluation,
            negative_evaluation,
            positive_authentication_path,
            negative_authentication_path,
            authentication_vector,
            fold_queries,
            commitment_vector,
        }
    }

    /// The evaluation at the query point.
    pub fn positive_evaluation(&self) -> (r: F)
        ensures
            r == self.positive_evaluation,
    {
        self.positive_evaluation
    }

    /// The evaluation at the negative of the query point.
    pub fn negative_evaluation(&self) -> (r: F)
        ensures
            r == self.negative_evaluation,
    {
        self.negative_evaluation
    }

    /// The evaluations of the folded layers.
    pub fn fold_queries(&self) -> (r: &Vec<F>)
        ensures
            r == self.fold_queries,
    {
        &self.fold_queries
    }

    /// The commitments of the folded layers.
    pub fn commitment_vector(&self) -> (r: &Vec<FriCommitment<F>>)
        ensures
            r == self.commitment_vector,
    {
        &self.commitment_vector
    }

    /// The path of the evaluation at the query point.
    pub fn positive_authentication_path(&self) -> (r: &AuthenticationPath<F>)
        ensures
            r == self.positive_authentication_path,
    {
        &self.positive_authentication_path
    }

    /// The path of the evaluation at the negative of the query point.
    pub fn negative_authentication_path(&self) -> (r: &AuthenticationPath<F>)
        ensures
            r == self.negative_authentication_path,
    {
        &self.negative_authentication_path
    }

    /// The paths of the evaluations of the folded layers.
    pub fn authentication_paths(&self) -> (r: &Vec<AuthenticationPath<F>>)
        ensures
            r == self.authentication_vector,
    {
        &self.authentication_vector
    }
}

impl VerificationResult {
    /// Whether the verdict is `ValidProof`.
    pub fn is_valid(&self) -> (r: bool)
        ensures
            r == (*self == VerificationResult::ValidProof),
    {
        match self {
            VerificationResult::ValidProof => true,
            VerificationResult::InvalidProof => false,
        }
    }
}

} // verus!
