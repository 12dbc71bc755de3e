//! The permutation engine: round-constant addition, the S-box and the MDS
//! mixing layer, run over a fixed round schedule.
//!
//! Two choices shape the schedule. The full S-box raises each slot to the
//! fifth power on its own, as in the standard Poseidon full round. Round `r`
//! adds the constants `r * t .. (r + 1) * t`, so a width's table must hold one
//! constant per slot and round; `PoseidonParams::new` refuses any other count
//! instead of running past the end of the sequence.
use crate::constants::{load_constants, load_error, loaded_as, rc_count, ConstantTable, ParamError};
use crate::field::{all_wf, fadd, fmul, matrix_values, modulus, values, Scalar};
use vstd::prelude::*;

verus! {

/// The S-box exponent.
pub const ALPHA: usize = 5;

/// The number of full rounds.
pub const NUM_F: usize = 57;

/// The number of partial rounds.
pub const NUM_P: usize = 8;

/// The multi-block sponge interface; no type implements it yet.
pub trait Sponge {
    fn absorb();

    fn squeeze();

    fn hash();
}

/// The S-box `x ↦ x^5`, computed as `((x²)²)·x`.
pub open spec fn sbox5(x: nat) -> nat {
    fmul(fmul(fmul(x, x), fmul(x, x)), x)
}

/// Adds the constants of round `round` to every slot: slot `i` gains
/// `rc[round * t + i]`, where `t` is the state's width.
pub open spec fn ark_spec(st: Seq<nat>, rc: Seq<nat>, round: nat) -> Seq<nat> {
    Seq::new(st.len(), |i: int| fadd(st[i], rc[round * st.len() + i]))
}

/// The full S-box: every slot raised to the fifth power.
pub open spec fn sbox_full_spec(st: Seq<nat>) -> Seq<nat> {
    st.map_values(|x: nat| sbox5(x))
}

/// The partial S-box: slot 0 raised to the fifth power, the rest untouched.
pub open spec fn sbox_partial_spec(st: Seq<nat>) -> Seq<nat> {
    st.update(0, sbox5(st[0]))
}

/// Round `r` takes the full S-box when `r < P/2` or `r > P/2 + F`.
pub open spec fn is_full_round(r: nat) -> bool {
    r < NUM_P / 2 || r > NUM_P / 2 + NUM_F
}

pub open spec fn sbox_spec(st: Seq<nat>, r: nat) -> Seq<nat> {
    if is_full_round(r) {
        sbox_full_spec(st)
    } else {
        sbox_partial_spec(st)
    }
}

/// `Σ_{j < n} st[j] · row[j]`, over the integers.
pub open spec fn dot(st: Seq<nat>, row: Seq<nat>, n: nat) -> nat
    decreases n,
{
    if n == 0 {
        0
    } else {
        dot(st, row, (n - 1) as nat) + st[n - 1] * row[n - 1]
    }
}

/// The MDS layer: `new[i] = Σ_j st[j] · mds[i][j]` in the field.
pub open spec fn mix_spec(st: Seq<nat>, mds: Seq<Seq<nat>>) -> Seq<nat> {
    Seq::new(st.len(), |i: int| dot(st, mds[i], st.len()) % modulus())
}

/// One round: constants, S-box, then mixing.
pub open spec fn round_spec(st: Seq<nat>, rc: Seq<nat>, mds: Seq<Seq<nat>>, r: nat) -> Seq<nat> {
    mix_spec(sbox_spec(ark_spec(st, rc, r), r), mds)
}

/// The state after the first `n` rounds.
pub open spec fn rounds_spec(st: Seq<nat>, rc: Seq<nat>, mds: Seq<Seq<nat>>, n: nat) -> Seq<nat>
    decreases n,
{
    if n == 0 {
        st
    } else {
        round_spec(rounds_spec(st, rc, mds, (n - 1) as nat), rc, mds, (n - 1) as nat)
    }
}

/// The whole permutation: `F + P` rounds.
pub open spec fn permutation_spec(st: Seq<nat>, rc: Seq<nat>, mds: Seq<Seq<nat>>) -> Seq<nat> {
    rounds_spec(st, rc, mds, (NUM_F + NUM_P) as nat)
}

/// The fixed constants of the permutation and the parsed tables of one width.
pub struct PoseidonParams {
    t: usize,
    alpha: usize,
    num_f: usize,
    num_p: usize,
    pub mds_matrix: Vec<Vec<Scalar>>,
    pub round_constants: Vec<Scalar>,
}

impl PoseidonParams {
    /// A `t × t` matrix, `t * (F + P)` round constants, and canonical elements.
    pub closed spec fn wf(&self) -> bool {
        &&& self.t >= 1
        &&& self.alpha == ALPHA
        &&& self.num_f == NUM_F
        &&& self.num_p == NUM_P
        &&& self.round_constants@.len() == rc_count(self.t as nat, NUM_F as nat, NUM_P as nat)
        &&& all_wf(self.round_constants@)
        &&& self.mds_matrix@.len() == self.t
        &&& forall|i: int|
            0 <= i < self.t ==> (#[trigger] self.mds_matrix@[i])@.len() == self.t && all_wf(
                self.mds_matrix@[i]@,
            )
    }

    pub closed spec fn width_spec(&self) -> nat {
        self.t as nat
    }

    /// The MDS matrix, row by row.
    pub closed spec fn mds_of(&self) -> Seq<Vec<Scalar>> {
        self.mds_matrix@
    }

    /// The round constants, round by round and slot by slot.
    pub closed spec fn rc_of(&self) -> Seq<Scalar> {
        self.round_constants@
    }

    pub open spec fn mds_values(&self) -> Seq<Seq<nat>> {
        matrix_values(self.mds_of())
    }

    pub open spec fn rc_values(&self) -> Seq<nat> {
        values(self.rc_of())
    }

    /// Builds the parameters of width `t` from the constants that `table`
    /// holds for it.
    pub fn new(t: usize, table: &ConstantTable) -> (r: Result<Self, ParamError>)
        ensures
            load_error(table, t as nat, rc_count(t as nat, NUM_F as nat, NUM_P as nat)) matches Some(
                e,
            ) ==> r == Err::<Self, ParamError>(e),
            load_error(table, t as nat, rc_count(t as nat, NUM_F as nat, NUM_P as nat)) is None ==> (
            r matches Ok(p) && p.wf() && p.width_spec() == t && p.mds_of().len() == t && (forall|
                i: int,
            | 0 <= i < t ==> (#[trigger] p.mds_of()[i])@.len() == t) && p.rc_of().len()
                == rc_count(t as nat, NUM_F as nat, NUM_P as nat) && loaded_as(
                table,
                t as nat,
                rc_count(t as nat, NUM_F as nat, NUM_P as nat),
                p.mds_of(),
                p.rc_of(),
            )),
    {
        match load_constants(t, NUM_F, NUM_P, table) {
            Ok((mds_matrix, round_constants)) => Ok(
                PoseidonParams { t, alpha: ALPHA, num_f: NUM_F, num_p: NUM_P, mds_matrix, round_constants },
            ),
            Err(e) => Err(e),
        }
    }

    pub fn alpha(&self) -> (r: usize)
        requires
            self.wf(),
        ensures
            r == ALPHA,
    {
        self.alpha
    }

    pub fn width(&self) -> (r: usize)
        ensures
            r == self.width_spec(),
    {
        self.t
    }

    pub fn num_f(&self) -> (r: usize)
        requires
            self.wf(),
        ensures
            r == NUM_F,
    {
        self.num_f
    }

    pub fn num_p(&self) -> (r: usize)
        requires
            self.wf(),
        ensures
            r == NUM_P,
    {
        self.num_p
    }
}

/// One run of the permutation: a state of `t` elements and the parameters
/// of width `t`.
pub struct Poseidon {
    state: Vec<Scalar>,
    params: PoseidonParams,
    rounds_done: usize,
}

impl Poseidon {
    pub closed spec fn wf(&self) -> bool {
        &&& self.params.wf()
        &&& self.state@.len() == self.params.t
        &&& all_wf(self.state@)
        &&& self.rounds_done <= NUM_F + NUM_P
    }

    pub closed spec fn state_of(&self) -> Seq<Scalar> {
        self.state@
    }

    pub closed spec fn params_of(&self) -> PoseidonParams {
        self.params
    }

    pub closed spec fn rounds_done_spec(&self) -> nat {
        self.rounds_done as nat
    }

    pub open spec fn state_values(&self) -> Seq<nat> {
        values(self.state_of())
    }

    /// Everything but the state is as in `other`.
    pub open spec fn same_setup(&self, other: &Poseidon) -> bool {
        &&& self.params_of() == other.params_of()
        &&& self.rounds_done_spec() == other.rounds_done_spec()
    }

    /// Builds the parameters of width `t` from `table` and takes `state` as
    /// the initial state.
    pub fn new(t: usize, state: Vec<Scalar>, table: &ConstantTable) -> (r: Result<Self, ParamError>)
        requires
            all_wf(state@),
        ensures
            load_error(table, t as nat, rc_count(t as nat, NUM_F as nat, NUM_P as nat)) matches Some(
                e,
            ) ==> r == Err::<Self, ParamError>(e),
            load_error(table, t as nat, rc_count(t as nat, NUM_F as nat, NUM_P as nat)) is None
                && state@.len() != t ==> r == Err::<Self, ParamError>(ParamError::StateWidth),
            load_error(table, t as nat, rc_count(t as nat, NUM_F as nat, NUM_P as nat)) is None
                && state@.len() == t ==> (r matches Ok(p) && p.wf() && p.state_of() == state@
                && p.rounds_done_spec() == 0 && p.params_of().width_spec() == t && loaded_as(
                table,
                t as nat,
                rc_count(t as nat, NUM_F as nat, NUM_P as nat),
                p.params_of().mds_of(),
                p.params_of().rc_of(),
            )),
    {
        let params = match PoseidonParams::new(t, table) {
            Ok(p) => p,
            Err(e) => {
                return Err(e);
            },
        };
        if state.len() != t {
            return Err(ParamError::StateWidth);
        }
        Ok(Poseidon { state, params, rounds_done: 0 })
    }

    pub fn state(&self) -> (r: &Vec<Scalar>)
        ensures
            r@ == self.state_of(),
    {
        &self.state
    }

    pub fn params(&self) -> (r: &PoseidonParams)
        ensures
            *r == self.params_of(),
    {
        &self.params
    }

    /// How many rounds the last run of `hash` went through.
    pub fn rounds_done(&self) -> (r: usize)
        ensures
            r == self.rounds_done_spec(),
    {
        self.rounds_done
    }

    /// Adds the constants of round `ith` to the state.
    pub fn ark(&mut self, ith: usize)
        requires
            old(self).wf(),
            ith < NUM_F + NUM_P,
        ensures
            final(self).wf(),
            final(self).same_setup(&*old(self)),
            final(self).state_values() == ark_spec(
                old(self).state_values(),
                old(self).params_of().rc_values(),
                ith as nat,
            ),
    {
        let ghost pre = *self;
        let t = self.params.width();
        let n = self.params.round_constants.len();
        let mut i: usize = 0;
        while i < t
            invariant
                i <= t,
                t == pre.params.t,
                n == self.params.round_constants@.len(),
                ith < NUM_F + NUM_P,
                pre.wf(),
                self.params == pre.params,
                self.rounds_done == pre.rounds_done,
                self.state@.len() == t,
                all_wf(self.state@),
                forall|k: int|
                    0 <= k < i ==> (#[trigger] self.state@[k])@ == fadd(
                        pre.state@[k]@,
                        self.params.round_constants@[ith * t + k]@,
                    ),
                forall|k: int| i <= k < t ==> #[trigger] self.state@[k] == pre.state@[k],
            decreases t - i,
        {
            assert(ith * t + i < n) by (nonlinear_arith)
                requires
                    i < t,
                    ith < NUM_F + NUM_P,
                    n == t * (NUM_F + NUM_P),
            ;
            let x = self.state[i].add(&self.params.round_constants[ith * t + i]);
            self.state.set(i, x);
            i = i + 1;
        }
        assert forall|k: int| 0 <= k < t implies #[trigger] self.state_values()[k] == fadd(
            pre.state_values()[k],
            pre.params.rc_values()[ith * t + k],
        ) by {
            assert(ith * t + k < n) by (nonlinear_arith)
                requires
                    k < t,
                    ith < NUM_F + NUM_P,
                    n == t * (NUM_F + NUM_P),
            ;
        }
        assert(self.state_values() =~= ark_spec(pre.state_values(), pre.params.rc_values(), ith as nat));
    }

    /// Raises every slot of the state to the fifth power.
    pub fn sbox_full(&mut self)
        requires
            old(self).wf(),
        ensures
            final(self).wf(),
            final(self).same_setup(&*old(self)),
            final(self).state_values() == sbox_full_spec(old(self).state_values()),
    {
        let ghost pre = *self;
        let t = self.params.width();
        let mut i: usize = 0;
        while i < t
            invariant
                i <= t,
                t == pre.params.t,
                pre.wf(),
                self.params == pre.params,
                self.rounds_done == pre.rounds_done,
                self.state@.len() == t,
                all_wf(self.state@),
                forall|k: int| 0 <= k < i ==> (#[trigger] self.state@[k])@ == sbox5(pre.state@[k]@),
                forall|k: int| i <= k < t ==> #[trigger] self.state@[k] == pre.state@[k],
            decreases t - i,
        {
            let x = self.state[i];
            let y = x.square().square().mul(&x);
            self.state.set(i, y);
            i = i + 1;
        }
        assert(self.state_values() =~= sbox_full_spec(pre.state_values()));
    }

    /// Raises slot 0 of the state to the fifth power.
    pub fn sbox_partial(&mut self)
        requires
            old(self).wf(),
        ensures
            final(self).wf(),
            final(self).same_setup(&*old(self)),
            final(self).state_values() == sbox_partial_spec(old(self).state_values()),
    {
        let ghost pre = *self;
        let x = self.state[0];
        let y = x.square().square().mul(&x);
        self.state.set(0, y);
        assert(self.state_values() =~= sbox_partial_spec(pre.state_values()));
    }

    /// The S-box of round `round_i`: full or partial as the round schedule
    /// says.
    pub fn sbox(&mut self, round_i: usize)
        requires
            old(self).wf(),
        ensures
            final(self).wf(),
            final(self).same_setup(&*old(self)),
            final(self).state_values() == sbox_spec(old(self).state_values(), round_i as nat),
    {
        if round_i < self.params.num_p / 2 || round_i > self.params.num_p / 2 + self.params.num_f {
            self.sbox_full()
        } else {
            self.sbox_partial()
        }
    }

    /// Replaces the state by its product with the MDS matrix.
    pub fn mix(&mut self, _round_i: usize)
        requires
            old(self).wf(),
        ensures
            final(self).wf(),
            final(self).same_setup(&*old(self)),
            final(self).state_values() == mix_spec(
                old(self).state_values(),
                old(self).params_of().mds_values(),
            ),
    {
        let ghost st = self.state_values();
        let ghost mds = self.params.mds_values();
        let t = self.params.width();
        let mut new_state: Vec<Scalar> = Vec::new();
        let mut i: usize = 0;
        while i < t
            invariant
                i <= t,
                self.wf(),
                t == self.params.t,
                st == self.state_values(),
                mds == self.params.mds_values(),
                new_state@.len() == i,
                all_wf(new_state@),
                forall|k: int|
                    0 <= k < i ==> (#[trigger] new_state@[k])@ == dot(st, mds[k], t as nat) % modulus(),
            decreases t - i,
        {
            let row = &self.params.mds_matrix[i];
            let mut acc = Scalar::zero();
            let mut j: usize = 0;
            while j < t
                invariant
                    j <= t,
                    i < t,
                    self.wf(),
                    t == self.params.t,
                    st == self.state_values(),
                    mds == self.params.mds_values(),
                    row == self.params.mds_matrix@[i as int],
                    acc.wf(),
                    acc@ == dot(st, mds[i as int], j as nat) % modulus(),
                decreases t - j,
            {
                let prod = self.state[j].mul(&row[j]);
                proof {
                    vstd::arithmetic::div_mod::lemma_add_mod_noop(
                        dot(st, mds[i as int], j as nat) as int,
                        (st[j as int] * mds[i as int][j as int]) as int,
                        modulus() as int,
                    );
                }
                acc = acc.add(&prod);
                j = j + 1;
            }
            new_state.push(acc);
            i = i + 1;
        }
        self.state = new_state;
        assert(self.state_values() =~= mix_spec(st, mds));
    }

    /// Runs the `F + P` rounds of the permutation on the state and returns
    /// its first element.
    pub fn hash(&mut self) -> (r: Result<Scalar, String>)
        requires
            old(self).wf(),
        ensures
            final(self).wf(),
            final(self).params_of() == old(self).params_of(),
            final(self).rounds_done_spec() == NUM_F + NUM_P,
            final(self).state_values() == permutation_spec(
                old(self).state_values(),
                old(self).params_of().rc_values(),
                old(self).params_of().mds_values(),
            ),
            r matches Ok(x) && x.wf() && x@ == final(self).state_values()[0],
    {
        let ghost st0 = self.state_values();
        let ghost rc = self.params.rc_values();
        let ghost mds = self.params.mds_values();
        let ghost params = self.params;
        let num_rounds = self.params.num_f + self.params.num_p;
        self.rounds_done = 0;
        let mut i: usize = 0;
        while i < num_rounds
            invariant
                i <= num_rounds,
                num_rounds == NUM_F + NUM_P,
                self.wf(),
                self.params == params,
                rc == params.rc_values(),
                mds == params.mds_values(),
                self.rounds_done == i,
                self.state_values() == rounds_spec(st0, rc, mds, i as nat),
            decreases num_rounds - i,
        {
            self.ark(i);
            self.sbox(i);
            self.mix(i);
            self.rounds_done = i + 1;
            i = i + 1;
        }
        Ok(self.state[0])
    }
}

} // verus!
