use ark_bn254::Fr;
use ark_ff::{BigInt, Field};
use poseidon::constants::{load_constants, ConstantTable, ParamError};
use poseidon::field::Scalar;
use poseidon::poseidon::{Poseidon, PoseidonParams, NUM_F, NUM_P};

const MODULUS: &str =
    "21888242871839275222246405745257275088548364400416034343698204186575808495617";

/// Widths 0 to 3: round constant `k` of width `t` is `k + 1`, and the matrix
/// entry `(i, j)` is `i * t + j + 1`.
fn table() -> ConstantTable {
    let mut round_constants = Vec::new();
    let mut mds = Vec::new();
    for t in 0..4usize {
        let row: Vec<String> = (0..t * (NUM_F + NUM_P)).map(|k| format!("{}", k + 1)).collect();
        round_constants.push(row);
        let m: Vec<Vec<String>> = (0..t)
            .map(|i| (0..t).map(|j| format!("{}", i * t + j + 1)).collect())
            .collect();
        mds.push(m);
    }
    ConstantTable { round_constants, mds }
}

fn small(v: u64) -> Scalar {
    Scalar::from_u64(v)
}

fn to_fr(s: &Scalar) -> Fr {
    Fr::from(BigInt::new(s.limbs()))
}

fn engine(state: Vec<Scalar>) -> Poseidon {
    let t = state.len();
    Poseidon::new(t, state, &table()).unwrap()
}

#[test]
fn test_works() {
    let state: Vec<Scalar> = vec![small(1), small(2)];
    let mut pos = Poseidon::new(2, state, &table()).unwrap();

    println!("state: {:?}", pos.state());
    let out = pos.hash().unwrap_or(Scalar::zero());
    println!("out: {:?}", out);
}

#[test]
fn hash_of_one_two_is_not_zero() {
    let mut pos = engine(vec![small(1), small(2)]);
    let out = pos.hash().unwrap();
    assert_ne!(out, Scalar::zero());
    assert_eq!(out, pos.state()[0]);
}

#[test]
fn hash_runs_every_round_once() {
    let mut pos = engine(vec![small(1), small(2)]);
    assert_eq!(pos.rounds_done(), 0);
    pos.hash().unwrap();
    assert_eq!(pos.rounds_done(), NUM_F + NUM_P);
    assert_eq!(pos.rounds_done(), 65);
}

#[test]
fn hash_is_deterministic() {
    let mut a = engine(vec![small(1), small(2), small(3)]);
    let mut b = engine(vec![small(1), small(2), small(3)]);
    assert_eq!(a.hash().unwrap(), b.hash().unwrap());
    assert_eq!(a.state(), b.state());
}

#[test]
fn hash_follows_the_round_schedule() {
    let mut pos = engine(vec![small(1), small(2)]);
    let mut steps = engine(vec![small(1), small(2)]);
    for i in 0..NUM_F + NUM_P {
        steps.ark(i);
        steps.sbox(i);
        steps.mix(i);
    }
    assert_eq!(pos.hash().unwrap(), steps.state()[0]);
    assert_eq!(pos.state(), steps.state());
}

#[test]
fn params_built_twice_are_equal() {
    let t = table();
    let a = PoseidonParams::new(3, &t).unwrap();
    let b = PoseidonParams::new(3, &t).unwrap();
    assert_eq!(a.mds_matrix, b.mds_matrix);
    assert_eq!(a.round_constants, b.round_constants);
}

#[test]
fn params_have_the_width_shape() {
    let p = PoseidonParams::new(3, &table()).unwrap();
    assert_eq!(p.width(), 3);
    assert_eq!(p.alpha(), 5);
    assert_eq!(p.num_f(), 57);
    assert_eq!(p.num_p(), 8);
    assert_eq!(p.mds_matrix.len(), 3);
    for row in &p.mds_matrix {
        assert_eq!(row.len(), 3);
    }
    assert_eq!(p.round_constants.len(), 3 * (57 + 8));
    assert_eq!(p.mds_matrix[1][2], small(6));
    assert_eq!(p.round_constants[194], small(195));
}

#[test]
fn load_constants_parses_the_width_entry() {
    let (mds, rc) = load_constants(2, NUM_F, NUM_P, &table()).unwrap();
    assert_eq!(mds, vec![vec![small(1), small(2)], vec![small(3), small(4)]]);
    assert_eq!(rc.len(), 130);
    assert_eq!(rc[0], small(1));
    assert_eq!(rc[129], small(130));
}

#[test]
fn width_zero_is_unsupported() {
    assert_eq!(PoseidonParams::new(0, &table()).err(), Some(ParamError::UnsupportedWidth));
}

#[test]
fn width_beyond_table_is_unsupported() {
    assert_eq!(PoseidonParams::new(4, &table()).err(), Some(ParamError::UnsupportedWidth));
    let r = Poseidon::new(9, vec![small(1)], &table());
    assert_eq!(r.err(), Some(ParamError::UnsupportedWidth));
}

#[test]
fn short_round_constant_row_is_refused() {
    let mut t = table();
    t.round_constants[2].pop();
    assert_eq!(PoseidonParams::new(2, &t).err(), Some(ParamError::RoundConstantCount));
    let mut u = table();
    u.round_constants[2] = vec!["1".to_string(), "2".to_string()];
    assert_eq!(PoseidonParams::new(2, &u).err(), Some(ParamError::RoundConstantCount));
}

#[test]
fn non_square_matrix_is_refused() {
    let mut t = table();
    t.mds[2][1].push("5".to_string());
    assert_eq!(PoseidonParams::new(2, &t).err(), Some(ParamError::MdsShape));
    let mut u = table();
    u.mds[2].pop();
    assert_eq!(PoseidonParams::new(2, &u).err(), Some(ParamError::MdsShape));
}

#[test]
fn malformed_constants_are_refused() {
    let mut t = table();
    t.round_constants[2][100] = "12a".to_string();
    assert_eq!(PoseidonParams::new(2, &t).err(), Some(ParamError::MalformedConstant));
    let mut u = table();
    u.mds[2][1][0] = "07".to_string();
    assert_eq!(PoseidonParams::new(2, &u).err(), Some(ParamError::MalformedConstant));
    let mut w = table();
    w.mds[1][0][0] = String::new();
    assert_eq!(PoseidonParams::new(1, &w).err(), Some(ParamError::MalformedConstant));
}

#[test]
fn state_of_other_width_is_refused() {
    let r = Poseidon::new(2, vec![small(1), small(2), small(3)], &table());
    assert_eq!(r.err(), Some(ParamError::StateWidth));
}

#[test]
fn decimal_literals_parse_and_reduce() {
    assert_eq!(Scalar::from_decimal("0"), Some(Scalar::zero()));
    assert_eq!(Scalar::from_decimal("42"), Some(small(42)));
    assert_eq!(Scalar::from_decimal("18446744073709551615"), Some(small(u64::MAX)));
    assert_eq!(Scalar::from_decimal(MODULUS), Some(Scalar::zero()));
    let above = "21888242871839275222246405745257275088548364400416034343698204186575808495619";
    assert_eq!(Scalar::from_decimal(above), Some(small(2)));
    assert_eq!(Scalar::from_decimal(""), None);
    assert_eq!(Scalar::from_decimal("00"), None);
    assert_eq!(Scalar::from_decimal("-1"), None);
    assert_eq!(Scalar::from_decimal("1 "), None);
}

#[test]
fn field_operations_compute() {
    assert_eq!(small(2).add(&small(3)), small(5));
    assert_eq!(small(3).mul(&small(4)), small(12));
    assert_eq!(small(5).square(), small(25));
    let minus_one = Scalar::from_decimal(
        "21888242871839275222246405745257275088548364400416034343698204186575808495616",
    )
    .unwrap();
    assert_eq!(minus_one.add(&small(2)), small(1));
    assert_eq!(minus_one.mul(&minus_one), small(1));
    assert_eq!(minus_one.square(), small(1));
    let big = small(u64::MAX).mul(&small(u64::MAX));
    assert_eq!(big.limbs(), [1, u64::MAX - 1, 0, 0]);
}

#[test]
fn ark_adds_the_round_constants() {
    let mut pos = engine(vec![small(1), small(2)]);
    pos.ark(1);
    assert_eq!(pos.state(), &vec![small(4), small(6)]);
    pos.ark(64);
    assert_eq!(pos.state(), &vec![small(4 + 129), small(6 + 130)]);
}

#[test]
fn full_sbox_raises_each_slot() {
    let mut pos = engine(vec![small(2), small(3), small(4)]);
    pos.sbox_full();
    assert_eq!(pos.state(), &vec![small(32), small(243), small(1024)]);
}

#[test]
fn full_sbox_on_equal_slots_gives_fifth_powers() {
    let v = Scalar::from_decimal("123456789123456789123456789").unwrap();
    let mut pos = engine(vec![v, v, v]);
    pos.sbox_full();
    let expected = to_fr(&v).pow([5u64]);
    for x in pos.state() {
        assert_eq!(to_fr(x), expected);
    }
}

#[test]
fn partial_sbox_raises_slot_zero_only() {
    let mut pos = engine(vec![small(2), small(3), small(4)]);
    pos.sbox_partial();
    assert_eq!(pos.state(), &vec![small(32), small(3), small(4)]);
}

#[test]
fn sbox_follows_the_round_thresholds() {
    for (round, full) in [(0usize, true), (3, true), (4, false), (61, false), (62, true), (64, true)] {
        let mut pos = engine(vec![small(2), small(3)]);
        pos.sbox(round);
        let second = if full { small(243) } else { small(3) };
        assert_eq!(pos.state(), &vec![small(32), second], "round {}", round);
    }
}

#[test]
fn mix_multiplies_by_the_matrix() {
    let mut pos = engine(vec![small(1), small(2)]);
    pos.mix(0);
    assert_eq!(pos.state(), &vec![small(5), small(11)]);
}

#[test]
fn mix_is_linear() {
    let a = vec![small(7), Scalar::from_decimal(MODULUS).unwrap(), small(9)];
    let b = vec![
        Scalar::from_decimal("21888242871839275222246405745257275088548364400416034343698204186575808495000")
            .unwrap(),
        small(5),
        small(u64::MAX),
    ];
    let sum: Vec<Scalar> = a.iter().zip(b.iter()).map(|(x, y)| x.add(y)).collect();
    let mut ea = engine(a);
    let mut eb = engine(b);
    let mut es = engine(sum);
    ea.mix(0);
    eb.mix(0);
    es.mix(0);
    for i in 0..3 {
        assert_eq!(ea.state()[i].add(&eb.state()[i]), es.state()[i]);
    }
}
