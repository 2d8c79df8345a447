use openvm_circuit::field::baby_bear::BabyBear;
use openvm_circuit::field::PrimeField32;
use p3_field::Field as OtherField;
use p3_field::PrimeField32 as OtherPrimeField;

const SAMPLES: [u32; 9] = [
    0, 1, 2, 3, 1_006_632_960, 1_006_632_961, 2_013_265_919, 2_013_265_920, 123_456_789,
];

fn ours(n: u32) -> BabyBear {
    BabyBear::from_canonical_u32(n)
}

fn theirs(n: u32) -> p3_baby_bear::BabyBear {
    p3_baby_bear::BabyBear::new(n)
}

#[test]
fn inverse_of_two() {
    assert_eq!(ours(2).inverse().as_canonical_u32(), 1_006_632_961);
}

#[test]
fn arithmetic_agrees_with_the_field_crate() {
    for x in SAMPLES {
        for y in SAMPLES {
            let (a, b) = (theirs(x), theirs(y));
            assert_eq!(ours(x).add(ours(y)).as_canonical_u32(), (a + b).as_canonical_u32());
            assert_eq!(ours(x).sub(ours(y)).as_canonical_u32(), (a - b).as_canonical_u32());
            assert_eq!(ours(x).mul(ours(y)).as_canonical_u32(), (a * b).as_canonical_u32());
        }
    }
}

#[test]
fn inverses_agree_with_the_field_crate() {
    for x in SAMPLES {
        if x != 0 {
            assert_eq!(ours(x).inverse().as_canonical_u32(), theirs(x).inverse().as_canonical_u32());
            assert_eq!(ours(x).mul(ours(x).inverse()).as_canonical_u32(), 1);
        }
    }
}

#[test]
fn small_elements() {
    assert_eq!(BabyBear::order_u32(), 2_013_265_921);
    assert_eq!(BabyBear::zero().as_canonical_u32(), 0);
    assert_eq!(BabyBear::one().as_canonical_u32(), 1);
    assert_eq!(BabyBear::two().as_canonical_u32(), 2);
    assert_eq!(BabyBear::neg_one().as_canonical_u32(), 2_013_265_920);
    assert_eq!(ours(5).neg().as_canonical_u32(), 2_013_265_916);
    assert_eq!(BabyBear::from_bool(true).as_canonical_u32(), 1);
    assert_eq!(BabyBear::from_bool(false).as_canonical_u32(), 0);
    assert!(BabyBear::zero().is_zero());
    assert!(!BabyBear::one().is_zero());
    assert!(ours(7).equals(ours(7)));
    assert!(!ours(7).equals(ours(8)));
}
