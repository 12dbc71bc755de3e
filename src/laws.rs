//! Properties of the permutation and of parameter construction, proved over
//! the specifications that the executable functions meet.
use crate::constants::{loaded_as, ConstantTable};
use crate::field::{fadd, matrix_values, modulus, values, Scalar};
use crate::poseidon::{dot, mix_spec, permutation_spec, sbox5, sbox_full_spec};
use vstd::arithmetic::div_mod::{lemma_add_mod_noop, lemma_mul_mod_noop, lemma_mul_mod_noop_left};
use vstd::arithmetic::power::pow;
use vstd::prelude::*;

verus! {

/// Slot-wise field addition of two states.
pub open spec fn add_states(a: Seq<nat>, b: Seq<nat>) -> Seq<nat> {
    Seq::new(a.len(), |i: int| fadd(a[i], b[i]))
}

/// The permutation is a function of the initial state, the round constants
/// and the MDS matrix: equal inputs give equal outputs.
pub proof fn lemma_permutation_deterministic(
    st1: Seq<nat>,
    rc1: Seq<nat>,
    mds1: Seq<Seq<nat>>,
    st2: Seq<nat>,
    rc2: Seq<nat>,
    mds2: Seq<Seq<nat>>,
)
    requires
        st1 == st2,
        rc1 == rc2,
        mds1 == mds2,
    ensures
        permutation_spec(st1, rc1, mds1) == permutation_spec(st2, rc2, mds2),
{
}

/// Building the parameters of one width twice from one table gives
/// element-wise equal matrices and round-constant sequences.
pub proof fn lemma_params_construction_idempotent(
    table: &ConstantTable,
    t: nat,
    n: nat,
    m1: Seq<Vec<Scalar>>,
    c1: Seq<Scalar>,
    m2: Seq<Vec<Scalar>>,
    c2: Seq<Scalar>,
)
    requires
        loaded_as(table, t, n, m1, c1),
        loaded_as(table, t, n, m2, c2),
    ensures
        matrix_values(m1) == matrix_values(m2),
        values(c1) == values(c2),
{
    assert(values(c1) =~= values(c2));
    assert forall|i: int| 0 <= i < t implies #[trigger] matrix_values(m1)[i] == matrix_values(
        m2,
    )[i] by {
        assert(values(m1[i]@) =~= values(m2[i]@));
    }
    assert(matrix_values(m1) =~= matrix_values(m2));
}

/// The S-box computed by two squarings and a product is `v^5` in the field.
pub proof fn lemma_sbox5_is_fifth_power(v: nat)
    ensures
        sbox5(v) == pow(v as int, 5) % (modulus() as int),
{
    let p = modulus() as int;
    let x = v as int;
    lemma_mul_mod_noop(x * x, x * x, p);
    lemma_mul_mod_noop_left(x * x * (x * x), x, p);
    assert(pow(x, 5) == x * (x * (x * (x * (x * 1))))) by {
        reveal_with_fuel(pow, 6);
    }
    assert(x * x * (x * x) * x == x * (x * (x * (x * (x * 1))))) by (nonlinear_arith);
}

/// With the S-box applied to each slot on its own, a state whose slots all
/// hold `v` becomes a state whose slots all hold `v^5`.
pub proof fn lemma_full_sbox_uniform(st: Seq<nat>, v: nat)
    requires
        forall|i: int| 0 <= i < st.len() ==> st[i] == v,
    ensures
        sbox_full_spec(st).len() == st.len(),
        forall|i: int|
            0 <= i < st.len() ==> #[trigger] sbox_full_spec(st)[i] == pow(v as int, 5) % (
            modulus() as int),
{
    lemma_sbox5_is_fifth_power(v);
}

/// The products with one matrix row, summed over the first `n` slots, add up
/// in the field.
pub proof fn lemma_dot_add(a: Seq<nat>, b: Seq<nat>, row: Seq<nat>, n: nat)
    requires
        a.len() == b.len(),
        n <= a.len(),
        n <= row.len(),
    ensures
        dot(add_states(a, b), row, n) % modulus() == (dot(a, row, n) + dot(b, row, n)) % modulus(),
    decreases n,
{
    if n > 0 {
        let k = (n - 1) as nat;
        lemma_dot_add(a, b, row, k);
        let p = modulus() as int;
        let sa = dot(a, row, k) as int;
        let sb = dot(b, row, k) as int;
        let s = dot(add_states(a, b), row, k) as int;
        let x = a[k as int] as int;
        let y = b[k as int] as int;
        let r = row[k as int] as int;
        assert(add_states(a, b)[k as int] == (x + y) % p);
        lemma_add_mod_noop(s, ((x + y) % p) * r, p);
        lemma_mul_mod_noop_left(x + y, r, p);
        lemma_add_mod_noop(sa + sb, (x + y) * r, p);
        assert((x + y) * r == x * r + y * r) by (nonlinear_arith);
        assert(sa + sb + (x * r + y * r) == (sa + x * r) + (sb + y * r));
    }
}

/// The MDS layer is linear: mixing two states and adding the results equals
/// mixing their slot-wise sum.
pub proof fn lemma_mix_linear(a: Seq<nat>, b: Seq<nat>, mds: Seq<Seq<nat>>)
    requires
        a.len() == b.len(),
        mds.len() == a.len(),
        forall|i: int| 0 <= i < mds.len() ==> (#[trigger] mds[i]).len() == a.len(),
    ensures
        add_states(mix_spec(a, mds), mix_spec(b, mds)) == mix_spec(add_states(a, b), mds),
{
    let t = a.len();
    let p = modulus() as int;
    assert forall|i: int| 0 <= i < t implies #[trigger] add_states(
        mix_spec(a, mds),
        mix_spec(b, mds),
    )[i] == mix_spec(add_states(a, b), mds)[i] by {
        lemma_dot_add(a, b, mds[i], t);
        lemma_add_mod_noop(dot(a, mds[i], t) as int, dot(b, mds[i], t) as int, p);
    }
    assert(add_states(mix_spec(a, mds), mix_spec(b, mds)) =~= mix_spec(add_states(a, b), mds));
}

} // verus!
