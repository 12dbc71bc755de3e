//! Tables of decimal constants, indexed by state width, and their parsing
//! into field elements.
use crate::field::{all_wf, decimal_value, is_field_literal, modulus, Scalar};
use vstd::prelude::*;

verus! {

/// Round constants and MDS matrices, as decimal literals, indexed first by the
/// state width `t`: `round_constants[t]` is the sequence of round constants
/// for width `t`, `mds[t]` its `t × t` matrix, row by row.
pub struct ConstantTable {
    pub round_constants: Vec<Vec<String>>,
    pub mds: Vec<Vec<Vec<String>>>,
}

/// Why a parameter set cannot be built.
#[derive(Clone, Copy, Debug, PartialEq, Eq, Structural)]
pub enum ParamError {
    /// The width is zero or has no entry in one of the tables.
    UnsupportedWidth,
    /// The width's round-constant row does not hold one constant per slot and round.
    RoundConstantCount,
    /// The width's matrix is not square of the width's size.
    MdsShape,
    /// A constant is not a decimal literal of a field element.
    MalformedConstant,
    /// The initial state does not hold one element per slot.
    StateWidth,
}

pub open spec fn rc_literal(table: &ConstantTable, t: int, i: int) -> Seq<char> {
    table.round_constants@[t]@[i]@
}

pub open spec fn mds_literal(table: &ConstantTable, t: int, i: int, j: int) -> Seq<char> {
    table.mds@[t]@[i]@[j]@
}

/// The field element that a decimal literal denotes.
pub open spec fn parsed(s: Seq<char>) -> nat {
    decimal_value(s) % modulus()
}

/// One round constant per state slot and round.
pub open spec fn rc_count(t: nat, num_f: nat, num_p: nat) -> nat {
    t * (num_f + num_p)
}

pub open spec fn width_supported(table: &ConstantTable, t: nat) -> bool {
    1 <= t && t < table.round_constants@.len() && t < table.mds@.len()
}

pub open spec fn mds_square(table: &ConstantTable, t: nat) -> bool {
    &&& table.mds@[t as int]@.len() == t
    &&& forall|i: int| 0 <= i < t ==> (#[trigger] table.mds@[t as int]@[i])@.len() == t
}

pub open spec fn literals_valid(table: &ConstantTable, t: nat, n: nat) -> bool {
    &&& forall|k: int| 0 <= k < n ==> is_field_literal(#[trigger] rc_literal(table, t as int, k))
    &&& forall|i: int, j: int|
        0 <= i < t && 0 <= j < t ==> is_field_literal(#[trigger] mds_literal(table, t as int, i, j))
}

/// The error that loading the constants of width `t`, with `n` round
/// constants, meets first; `None` where the constants load.
pub open spec fn load_error(table: &ConstantTable, t: nat, n: nat) -> Option<ParamError> {
    if !width_supported(table, t) {
        Some(ParamError::UnsupportedWidth)
    } else if table.round_constants@[t as int]@.len() != n {
        Some(ParamError::RoundConstantCount)
    } else if !mds_square(table, t) {
        Some(ParamError::MdsShape)
    } else if !literals_valid(table, t, n) {
        Some(ParamError::MalformedConstant)
    } else {
        None
    }
}

/// `m` and `c` are the parsed matrix and round constants of width `t`.
pub open spec fn loaded_as(
    table: &ConstantTable,
    t: nat,
    n: nat,
    m: Seq<Vec<Scalar>>,
    c: Seq<Scalar>,
) -> bool {
    &&& c.len() == n
    &&& all_wf(c)
    &&& forall|k: int| 0 <= k < n ==> (#[trigger] c[k])@ == parsed(rc_literal(table, t as int, k))
    &&& m.len() == t
    &&& forall|i: int| 0 <= i < t ==> (#[trigger] m[i])@.len() == t && all_wf(m[i]@)
    &&& forall|i: int, j: int|
        0 <= i < t && 0 <= j < t ==> (#[trigger] m[i]@[j])@ == parsed(
            mds_literal(table, t as int, i, j),
        )
}

/// Parses the round constants and the MDS matrix of width `t` out of `table`,
/// expecting `t * (num_f + num_p)` round constants: one per slot and round.
pub fn load_constants(t: usize, num_f: usize, num_p: usize, table: &ConstantTable) -> (r: Result<
    (Vec<Vec<Scalar>>, Vec<Scalar>),
    ParamError,
>)
    ensures
        load_error(table, t as nat, rc_count(t as nat, num_f as nat, num_p as nat)) matches Some(e) ==> r == Err::<
            (Vec<Vec<Scalar>>, Vec<Scalar>),
            ParamError,
        >(e),
        load_error(table, t as nat, rc_count(t as nat, num_f as nat, num_p as nat)) is None ==> (r matches Ok((m, c))
            && loaded_as(table, t as nat, rc_count(t as nat, num_f as nat, num_p as nat), m@, c@)),
{
    let ghost n: nat = rc_count(t as nat, num_f as nat, num_p as nat);
    if t == 0 || t >= table.round_constants.len() || t >= table.mds.len() {
        return Err(ParamError::UnsupportedWidth);
    }
    let row = &table.round_constants[t];
    let row_len: usize = row.len();
    let count: usize = match num_f.checked_add(num_p) {
        Some(rounds) => match t.checked_mul(rounds) {
            Some(c) => c,
            None => {
                assert(row@.len() != n);
                return Err(ParamError::RoundConstantCount);
            },
        },
        None => {
            assert(n >= num_f + num_p) by (nonlinear_arith)
                requires
                    n == t * (num_f + num_p),
                    t >= 1,
            ;
            assert(row@.len() != n);
            return Err(ParamError::RoundConstantCount);
        },
    };
    if row_len != count {
        return Err(ParamError::RoundConstantCount);
    }
    let matrix = &table.mds[t];
    if matrix.len() != t {
        return Err(ParamError::MdsShape);
    }
    let mut i: usize = 0;
    while i < t
        invariant
            i <= t,
            width_supported(table, t as nat),
            table.round_constants@[t as int]@.len() == n,
            n == rc_count(t as nat, num_f as nat, num_p as nat),
            matrix@ == table.mds@[t as int]@,
            matrix@.len() == t,
            forall|k: int| 0 <= k < i ==> (#[trigger] matrix@[k])@.len() == t,
        decreases t - i,
    {
        if matrix[i].len() != t {
            return Err(ParamError::MdsShape);
        }
        i = i + 1;
    }
    assert(mds_square(table, t as nat));
    let mut round_constants: Vec<Scalar> = Vec::new();
    let mut k: usize = 0;
    while k < count
        invariant
            k <= count,
            count == n,
            mds_square(table, t as nat),
            width_supported(table, t as nat),
            table.round_constants@[t as int]@.len() == n,
            n == rc_count(t as nat, num_f as nat, num_p as nat),

            row@ == table.round_constants@[t as int]@,
            row@.len() == count,
            round_constants@.len() == k,
            all_wf(round_constants@),
            forall|q: int| 0 <= q < k ==> is_field_literal(#[trigger] rc_literal(table, t as int, q)),
            forall|q: int|
                0 <= q < k ==> (#[trigger] round_constants@[q])@ == parsed(
                    rc_literal(table, t as int, q),
                ),
        decreases count - k,
    {
        match Scalar::from_decimal(row[k].as_str()) {
            Some(x) => round_constants.push(x),
            None => {
                assert(!is_field_literal(rc_literal(table, t as int, k as int)));
                return Err(ParamError::MalformedConstant);
            },
        }
        k = k + 1;
    }
    let mut mds: Vec<Vec<Scalar>> = Vec::new();
    let mut i: usize = 0;
    while i < t
        invariant
            i <= t,
            width_supported(table, t as nat),
            table.round_constants@[t as int]@.len() == n,
            n == rc_count(t as nat, num_f as nat, num_p as nat),
            matrix@ == table.mds@[t as int]@,
            mds_square(table, t as nat),
            forall|q: int| 0 <= q < n ==> is_field_literal(#[trigger] rc_literal(table, t as int, q)),
            mds@.len() == i,
            forall|q: int| 0 <= q < i ==> (#[trigger] mds@[q])@.len() == t && all_wf(mds@[q]@),
            forall|q: int, j: int|
                0 <= q < i && 0 <= j < t ==> is_field_literal(
                    #[trigger] mds_literal(table, t as int, q, j),
                ),
            forall|q: int, j: int|
                0 <= q < i && 0 <= j < t ==> (#[trigger] mds@[q]@[j])@ == parsed(
                    mds_literal(table, t as int, q, j),
                ),
        decreases t - i,
    {
        let src = &matrix[i];
        let mut mds_row: Vec<Scalar> = Vec::new();
        let mut j: usize = 0;
        while j < t
            invariant
                i < t,
                j <= t,
                width_supported(table, t as nat),
                table.round_constants@[t as int]@.len() == n,
                n == rc_count(t as nat, num_f as nat, num_p as nat),
                mds_square(table, t as nat),
                forall|q: int| 0 <= q < n ==> is_field_literal(#[trigger] rc_literal(table, t as int, q)),
                forall|q: int, j: int|
                    0 <= q < i && 0 <= j < t ==> is_field_literal(
                        #[trigger] mds_literal(table, t as int, q, j),
                    ),
                src@ == table.mds@[t as int]@[i as int]@,
                src@.len() == t,
                mds_row@.len() == j,
                all_wf(mds_row@),
                forall|q: int| 0 <= q < j ==> is_field_literal(
                    #[trigger] mds_literal(table, t as int, i as int, q),
                ),
                forall|q: int|
                    0 <= q < j ==> (#[trigger] mds_row@[q])@ == parsed(
                        mds_literal(table, t as int, i as int, q),
                    ),
            decreases t - j,
        {
            match Scalar::from_decimal(src[j].as_str()) {
                Some(x) => mds_row.push(x),
                None => {
                    assert(!is_field_literal(mds_literal(table, t as int, i as int, j as int)));
                    return Err(ParamError::MalformedConstant);
                },
            }
            j = j + 1;
        }
        mds.push(mds_row);
        i = i + 1;
    }
    Ok((mds, round_constants))
}

} // verus!
