//! Completeness: the verifier accepts every proof that the prover builds.

use vstd::prelude::*;
use vstd::arithmetic::div_mod::{
    lemma_add_mod_noop, lemma_add_mod_noop_right, lemma_mod_bound, lemma_mod_twice,
    lemma_mul_mod_noop_left, lemma_mul_mod_noop_right, lemma_small_mod, lemma_sub_mod_noop,
};
use vstd::arithmetic::mul::lemma_mul_is_commutative;
use vstd::arithmetic::power::{lemma_pow1, pow};
use vstd::arithmetic::power2::{lemma2_to64, lemma_pow2_unfold, pow2};
use crate::arith::{
    be_value, ceil_log2, fadd, fmul, fneg, fpow, fsub, is_inverse, is_power_of_two, is_unit,
    lemma_fpow_mul, lemma_fpow_pow2_step, lemma_log2_pow2, lemma_pow2_is_unit,
    lemma_power_of_two_logs, lemma_unit_cancels, lemma_unit_mul,
};
use crate::domains::{lemma_generator_order, subgroup_generator};
use crate::fft::theorems::{
    lemma_eval_combination, lemma_eval_congruent, lemma_eval_even_odd, lemma_eval_padded,
    lemma_ntt_is_evaluation,
};
use crate::fft::{evens, inverse_of, ntt, odds};
use crate::field::{values, PrimeField};
use crate::fri::authentication::lemma_path_leads_to_commitment;
use crate::fri::commitment::{blown_up, commitment_root, encodings, merkle_root, pair_hashes};
use crate::fri::evaluation::{
    holds, is_proof_for, layer_point, lemma_power_has_leaf, query_point, FriProof,
};
use crate::fri::fold::{
    assemble, challenge_of, challenges_of, constant_root, fold_once, fold_step, layer,
    lemma_layer_len, next_layer,
};
use crate::fri::commitment_views;
use crate::polynomial::{canonical, padded, poly_eval, poly_eval_int};

verus! {

/// Every layer of the fold holds canonical residues.
pub proof fn lemma_layer_canonical<F: PrimeField>(w: Seq<int>, i: nat)
    requires
        canonical(w, F::modulus()),
    ensures
        canonical(layer::<F>(w, i), F::modulus()),
    decreases i,
{
    F::lemma_parameters();
    if i > 0 {
        lemma_layer_canonical::<F>(w, (i - 1) as nat);
        let below = layer::<F>(w, (i - 1) as nat);
        let alpha = challenge_of::<F>(commitment_root::<F>(below));
        let here = layer::<F>(w, i);
        assert forall|t: int| 0 <= t < here.len() implies 0 <= #[trigger] here[t] < F::modulus() by {
            lemma_mod_bound(
                below[2 * t] + fmul(below[2 * t + 1], alpha, F::modulus()),
                F::modulus(),
            );
        }
    }
}

/// The value of a fold at `y` is the value of the even part plus the challenge times the
/// value of the odd part.
pub proof fn lemma_eval_fold(a: Seq<int>, alpha: int, y: int, p: int)
    requires
        p > 0,
        a.len() % 2 == 0,
    ensures
        poly_eval(fold_once(a, alpha, p), y, p) == (poly_eval_int(evens(a), y) + alpha
            * poly_eval_int(odds(a), y)) % p,
{
    let c = fold_once(a, alpha, p);
    let u = evens(a);
    let v = odds(a);
    assert forall|i: int| 0 <= i < c.len() implies (#[trigger] c[i]) % p == (u[i] + alpha * v[i])
        % p by {
        lemma_mod_twice(a[2 * i] + fmul(a[2 * i + 1], alpha, p), p);
        lemma_add_mod_noop_right(a[2 * i], a[2 * i + 1] * alpha, p);
        lemma_mul_is_commutative(a[2 * i + 1], alpha);
    }
    lemma_eval_combination(c, u, v, alpha, y, p);
}

/// From the values `e + x * o` and `e - x * o` of a polynomial at `x` and `-x`, one fold step
/// gives `e + alpha * o`.
pub proof fn lemma_fold_step_value(e: int, o: int, x: int, alpha: int, p: int)
    requires
        p > 2,
        p % 2 == 1,
        0 <= x < p,
        is_unit(x, p),
    ensures
        fold_step((e + x * o) % p, (e - x * o) % p, alpha, x, p) == (e + alpha * o) % p,
{
    let plus = (e + x * o) % p;
    let minus = (e - x * o) % p;
    lemma2_to64();
    lemma_pow2_is_unit(1, p);
    lemma_unit_mul(2, x, p);
    let half = inverse_of(2, p);
    let double = fmul(2, x, p);
    let undo = inverse_of(double, p);
    assert(is_inverse(2, half, p));
    assert(is_inverse(double, undo, p));
    // the sum is twice the even part
    lemma_add_mod_noop(e + x * o, e - x * o, p);
    assert(fadd(plus, minus, p) == (2 * e) % p);
    lemma_unit_cancels(2, half, e, p);
    let even = fmul(fadd(plus, minus, p), half, p);
    assert(even == e % p);
    // the difference is twice the point times the odd part
    lemma_sub_mod_noop(e + x * o, e - x * o, p);
    assert((e + x * o) - (e - x * o) == (2 * x) * o) by (nonlinear_arith);
    assert(fsub(plus, minus, p) == ((2 * x) * o) % p);
    lemma_mul_mod_noop_left(2 * x, o, p);
    assert(fsub(plus, minus, p) == (double * o) % p);
    lemma_unit_cancels(double, undo, o, p);
    let odd = fmul(fsub(plus, minus, p), undo, p);
    assert(odd == o % p);
    lemma_mul_mod_noop_right(alpha, o, p);
    lemma_add_mod_noop(e, alpha * o, p);
    lemma_mod_twice(alpha * o, p);
    lemma_add_mod_noop(e % p, fmul(alpha, odd, p), p);
    lemma_mod_twice(e, p);
}

/// The fold step on the values of a layer at a point and its negative gives the value of the
/// next layer at the square of the point.
pub proof fn lemma_next_layer_value<F: PrimeField>(a: Seq<int>, x: int)
    requires
        a.len() % 2 == 0,
        0 <= x < F::modulus(),
        is_unit(x, F::modulus()),
    ensures
        fold_step(
            poly_eval(a, x, F::modulus()),
            poly_eval(a, fneg(x, F::modulus()), F::modulus()),
            challenge_of::<F>(commitment_root::<F>(a)),
            x,
            F::modulus(),
        ) == poly_eval(next_layer::<F>(a), fmul(x, x, F::modulus()), F::modulus()),
{
    F::lemma_parameters();
    let p = F::modulus();
    let alpha = challenge_of::<F>(commitment_root::<F>(a));
    let e = poly_eval_int(evens(a), x * x);
    let o = poly_eval_int(odds(a), x * x);
    lemma_eval_even_odd(a, x);
    lemma_mod_twice(-x, p);
    lemma_eval_congruent(a, fneg(x, p), -x, p);
    lemma_eval_even_odd(a, -x);
    assert((-x) * (-x) == x * x) by (nonlinear_arith);
    assert(e + (-x) * o == e - x * o) by (nonlinear_arith);
    lemma_fold_step_value(e, o, x, alpha, p);
    lemma_mod_twice(x * x, p);
    lemma_eval_congruent(fold_once(a, alpha, p), fmul(x, x, p), x * x, p);
    lemma_eval_fold(a, alpha, x * x, p);
}

/// A power of the generator of a domain, squared `i` times, is the same power of the
/// generator of the domain of `2^i` times smaller order.
pub proof fn lemma_point_in_layer_domain<F: PrimeField>(k: nat, i: nat, e: nat)
    requires
        i <= k <= F::two_adicity(),
    ensures
        fpow(fpow(subgroup_generator::<F>(k), e, F::modulus()), pow2(i), F::modulus()) == fpow(
            subgroup_generator::<F>((k - i) as nat),
            e,
            F::modulus(),
        ),
    decreases i,
{
    F::lemma_parameters();
    let p = F::modulus();
    let rho = fpow(subgroup_generator::<F>(k), e, p);
    lemma2_to64();
    if i == 0 {
        lemma_pow1(rho);
        lemma_mod_bound(pow(subgroup_generator::<F>(k), e), p);
        lemma_small_mod(rho as nat, p as nat);
    } else {
        lemma_point_in_layer_domain::<F>(k, (i - 1) as nat, e);
        lemma_fpow_pow2_step(rho, (i - 1) as nat, p);
        crate::domains::lemma_square_of_power::<F>((k - i + 1) as nat, e);
    }
}

/// The commitment to a constant is the tree over equal leaves.
pub proof fn lemma_constant_commitment<F: PrimeField>(c: int)
    requires
        0 <= c < F::modulus(),
        3 <= F::two_adicity(),
    ensures
        commitment_root::<F>(seq![c]) == constant_root::<F>(c),
{
    F::lemma_parameters();
    let p = F::modulus();
    let a = seq![c];
    let g = subgroup_generator::<F>(3);
    lemma2_to64();
    lemma_log2_pow2(3);
    lemma_generator_order::<F>(3);
    let wide = padded(a, 8);
    assert(canonical(wide, p));
    let evals = blown_up::<F>(a);
    assert(evals == ntt(wide, g, p));
    assert forall|i: int| 0 <= i < 8 implies #[trigger] evals[i] == c by {
        lemma_ntt_is_evaluation(wide, g, p, 3, i);
        let x = fpow(g, i as nat, p);
        lemma_eval_padded(a, 8, x);
        assert(a.drop_first() =~= Seq::<int>::empty());
        assert(poly_eval_int(a.drop_first(), x) == 0);
        assert(poly_eval_int(a, x) == c + x * 0);
        assert(x * 0 == 0);
        lemma_small_mod(c as nat, p as nat);
    }
    let leaves = encodings::<F>(evals);
    let hashes = pair_hashes(leaves);
    let nodes = pair_hashes(hashes);
    let top = pair_hashes(nodes);
    assert(leaves.len() == 8);
    assert(hashes.len() == 4);
    assert(nodes.len() == 2);
    assert(top.len() == 1);
    assert(merkle_root(top) == top[0]);
    assert(merkle_root(nodes) == merkle_root(top));
    assert(merkle_root(hashes) == merkle_root(nodes));
    assert(merkle_root(leaves) == merkle_root(hashes));
    assert(hashes[0] == crate::hash::blake3_digest(leaves[0] + leaves[1]));
    assert(hashes[1] == crate::hash::blake3_digest(leaves[2] + leaves[3]));
    assert(nodes[0] == crate::hash::blake3_digest(hashes[0] + hashes[1]));
    assert(hashes[2] == crate::hash::blake3_digest(leaves[4] + leaves[5]));
    assert(hashes[3] == crate::hash::blake3_digest(leaves[6] + leaves[7]));
    assert(nodes[1] == crate::hash::blake3_digest(hashes[2] + hashes[3]));
    assert(top[0] == crate::hash::blake3_digest(nodes[0] + nodes[1]));
}

/// Starting from the value of the `j`-th layer at the query point squared `j` times, the fold
/// steps over the remaining honest queries end in the constant of the last layer.
pub proof fn lemma_assemble_layers<F: PrimeField>(
    w: Seq<int>,
    k: nat,
    j: nat,
    e: nat,
    queries: Seq<int>,
    alphas: Seq<int>,
)
    requires
        w.len() == pow2(k),
        canonical(w, F::modulus()),
        k + 3 <= F::two_adicity(),
        1 <= j <= k,
        queries.len() == k - 1,
        alphas.len() == k,
        forall|i: int|
            0 <= i < k - 1 ==> #[trigger] queries[i] == poly_eval(
                layer::<F>(w, (i + 1) as nat),
                fneg(
                    fpow(
                        fpow(subgroup_generator::<F>(k + 3), e, F::modulus()),
                        pow2((i + 1) as nat),
                        F::modulus(),
                    ),
                    F::modulus(),
                ),
                F::modulus(),
            ),
        forall|i: int|
            0 <= i < k ==> #[trigger] alphas[i] == challenge_of::<F>(
                commitment_root::<F>(layer::<F>(w, (i + 1) as nat)),
            ),
    ensures
        ({
            let p = F::modulus();
            let rho = fpow(subgroup_generator::<F>(k + 3), e, p);
            let point = fpow(rho, pow2(j), p);
            assemble(
                poly_eval(layer::<F>(w, j), point, p),
                point,
                queries.subrange(j - 1, k - 1),
                alphas.subrange(j - 1, k as int),
                p,
            ) == layer::<F>(w, k)[0]
        }),
    decreases k - j,
{
    F::lemma_parameters();
    let p = F::modulus();
    let rho = fpow(subgroup_generator::<F>(k + 3), e, p);
    let point = fpow(rho, pow2(j), p);
    let here = layer::<F>(w, j);
    let qs = queries.subrange(j - 1, k - 1);
    let als = alphas.subrange(j - 1, k as int);
    lemma_layer_len::<F>(w, k, j);
    lemma_layer_canonical::<F>(w, j);
    lemma2_to64();
    if j == k {
        assert(here.len() == 1);
        assert(here.drop_first() =~= Seq::<int>::empty());
        assert(poly_eval_int(here.drop_first(), point) == 0);
        assert(poly_eval_int(here, point) == here[0] + point * 0);
        assert(point * 0 == 0);
        lemma_small_mod(here[0] as nat, p as nat);
    } else {
        lemma_pow2_unfold((k - j) as nat);
        assert(qs[0] == queries[j - 1]);
        assert(als[0] == alphas[j - 1]);
        assert(qs.drop_first() =~= queries.subrange(j as int, k - 1));
        assert(als.drop_first() =~= alphas.subrange(j as int, k as int));
        // the point is a unit
        lemma_fpow_mul(subgroup_generator::<F>(k + 3), e, pow2(j), p);
        crate::domains::lemma_generator_is_a_unit::<F>(k + 3, e * pow2(j));
        lemma_mod_bound(pow(rho, pow2(j)), p);
        lemma_next_layer_value::<F>(here, point);
        lemma_fpow_pow2_step(rho, j, p);
        assert(layer::<F>(w, j + 1) == next_layer::<F>(here));
        lemma_assemble_layers::<F>(w, k, j + 1, e, queries, alphas);
    }
}

/// The verifier accepts the proof that the prover builds for a witness: every witness of at
/// least two coefficients whose blown-up domain the field holds.
pub proof fn lemma_honest_proof_accepted<F: PrimeField>(proof: FriProof<F>, w: Seq<int>)
    requires
        is_power_of_two(w.len()),
        w.len() >= 2,
        ceil_log2(w.len()) + 3 <= F::two_adicity(),
        canonical(w, F::modulus()),
        is_proof_for(proof, w),
    ensures
        proof.accepts(),
{
    F::lemma_parameters();
    let p = F::modulus();
    let k = ceil_log2(w.len());
    let c = proof.fri_challenge;
    let g = subgroup_generator::<F>(k + 3);
    let e = (be_value(commitment_root::<F>(layer::<F>(w, k))) % 0x1_0000_0000_0000_0000) as nat;
    let rho = query_point::<F>(w);
    lemma_power_of_two_logs(w.len());
    lemma2_to64();
    if k == 0 {
        assert(false);
    }
    lemma_pow2_unfold(k);
    lemma_layer_len::<F>(w, k, k);
    assert(rho == fpow(g, e, p));
    // the boundary evaluations
    lemma_power_has_leaf::<F>(w, k, e);
    lemma_path_leads_to_commitment(c.positive_authentication_path, w, rho);
    lemma_path_leads_to_commitment(c.negative_authentication_path, w, fneg(rho, p));
    assert(holds(c.positive_authentication_path, c.positive_evaluation));
    assert(holds(c.negative_authentication_path, c.negative_evaluation));
    // the folded layers
    assert forall|i: int| 0 <= i < c.authentication_vector@.len() implies holds(
        #[trigger] c.authentication_vector@[i],
        c.fold_queries@[i],
    ) && c.authentication_vector@[i].derived_root() == c.commitment_vector@[i]@ by {
        let depth = (k - (i + 1)) as nat;
        let here = layer::<F>(w, (i + 1) as nat);
        lemma_layer_len::<F>(w, k, (i + 1) as nat);
        lemma_layer_canonical::<F>(w, (i + 1) as nat);
        lemma_log2_pow2(depth);
        lemma_power_has_leaf::<F>(here, depth, e);
        lemma_point_in_layer_domain::<F>(k + 3, (i + 1) as nat, e);
        lemma_path_leads_to_commitment(
            c.authentication_vector@[i],
            here,
            layer_point::<F>(w, (i + 1) as nat),
        );
    }
    // the recomputed fold
    let last = c.commitment_vector@[c.commitment_vector@.len() - 1]@;
    assert(last == commitment_root::<F>(layer::<F>(w, k)));
    let queries = values(c.fold_queries@);
    let alphas = challenges_of::<F>(commitment_views(c.commitment_vector@));
    lemma_mod_bound(pow(g, e), p);
    crate::domains::lemma_generator_is_a_unit::<F>(k + 3, e);
    lemma_next_layer_value::<F>(w, rho);
    lemma_fpow_pow2_step(rho, 0, p);
    lemma_pow1(rho);
    lemma_small_mod(rho as nat, p as nat);
    assert(layer::<F>(w, 1) == next_layer::<F>(layer::<F>(w, 0)));
    assert(fmul(rho, rho, p) == fpow(rho, pow2(1), p));
    lemma_assemble_layers::<F>(w, k, 1, e, queries, alphas);
    assert(queries.subrange(0, k - 1) =~= queries);
    assert(alphas.subrange(0, k as int) =~= alphas);
    let constant = layer::<F>(w, k)[0];
    assert(c.folded_value(proof.w_com@, rho) == constant);
    lemma_layer_len::<F>(w, k, k);
    lemma_layer_canonical::<F>(w, k);
    assert(layer::<F>(w, k) =~= seq![constant]);
    lemma_constant_commitment::<F>(constant);
}

} // verus!
