use simple_mod_int::residue::normalize;
use simple_mod_int::{InverseError, Mod};

const LARGE: u32 = 4294967291;

#[test]
fn normalize_gives_exact_residues() {
    assert_eq!(normalize(-100, 17), 2);
    assert_eq!(normalize(400, 17), 9);
    assert_eq!(normalize(0, 17), 0);
    assert_eq!(normalize(-17, 17), 0);
    assert_eq!(normalize(-1, 17), 16);
    assert_eq!(normalize(i64::MAX, 1000000007), 291172003);
    assert_eq!(normalize(i64::MIN, 1000000007), 708828003);
    assert_eq!(normalize(i64::MIN, u32::MAX), 2147483647);
    assert_eq!(normalize(5, 1), 0);
}

#[test]
fn normalize_with_modulus_zero_gives_zero() {
    assert_eq!(normalize(5, 0), 0);
    assert_eq!(normalize(-5, 0), 0);
}

#[test]
fn normalize_keeps_a_canonical_value() {
    for v in 0..17i64 {
        assert_eq!(normalize(v, 17) as i64, v);
    }
    let once = normalize(-123456789, 1000);
    assert_eq!(once, 211);
    assert_eq!(normalize(once as i64, 1000), once);
}

#[test]
fn from_every_source_type() {
    let a: Mod<17> = Mod::from(-100i8);
    assert_eq!(a.value, 2);
    let b: Mod<17> = Mod::from(-30000i16);
    assert_eq!(b.value, 5);
    let c: Mod<17> = Mod::from(-100i32);
    assert_eq!(c.value, 2);
    let d: Mod<17> = Mod::from(-100i64);
    assert_eq!(d.value, 2);
    let e: Mod<17> = Mod::from(200u8);
    assert_eq!(e.value, 13);
    let f: Mod<17> = Mod::from(60000u16);
    assert_eq!(f.value, 7);
    let g: Mod<17> = Mod::from(4000000000u32);
    assert_eq!(g.value, 11);
    let h: Mod<17> = Mod::from(i32::MIN);
    assert_eq!(h.value, 8);
    let i: Mod<17> = Mod::from(1000u64);
    assert_eq!(i.value, 14);
}

#[test]
fn from_u64_reads_the_bits_as_signed() {
    let a: Mod<17> = Mod::from(u64::MAX);
    assert_eq!(a.value, 16);
    let b: Mod<17> = Mod::from(1u64 << 63);
    assert_eq!(b.value, 8);
    let c: Mod<17> = Mod::from(i64::MAX as u64);
    assert_eq!(c.value, 8);
}

#[test]
fn from_is_canonical_for_many_inputs() {
    let mut v: i64 = -1000;
    while v <= 1000 {
        let m: Mod<7> = v.into();
        assert!(m.value < 7);
        assert_eq!(m.value as i64, v.rem_euclid(7));
        v += 1;
    }
}

#[test]
fn equality_is_by_residue() {
    let a: Mod<17> = 10.into();
    let b: Mod<17> = 61.into();
    let c: Mod<17> = 11.into();
    assert!(a == b);
    assert!(a != c);
}

#[test]
fn deref_reads_the_residue() {
    let a: Mod<17> = 27.into();
    assert_eq!(*a, 10);
}

#[test]
fn clone_keeps_the_residue() {
    let a: Mod<17> = 27.into();
    let b = a.clone();
    assert!(a == b);
}

#[test]
fn operators_near_the_top_of_the_range() {
    let a: Mod<LARGE> = Mod::from(LARGE - 1);
    let b: Mod<LARGE> = Mod::from(LARGE - 2);
    assert_eq!((a + b).value, LARGE - 3);
    assert_eq!((b - a).value, LARGE - 1);
    assert_eq!((a - b).value, 1);
    assert_eq!((a * b).value, 2);
    assert_eq!((a * a).value, 1);
    assert_eq!(a.pow(2).value, 1);
    assert_eq!(a.pow(3).value, LARGE - 1);
    assert_eq!(a.inv().value, LARGE - 1);
    assert_eq!((b / a).value, 2);
    let mut c = b;
    c /= a;
    assert_eq!(c.value, 2);
}

#[test]
fn operators_take_values_outside_the_range() {
    let a: Mod<17> = Mod { value: 100 };
    let b: Mod<17> = Mod { value: 300 };
    assert_eq!((a + b).value, 9);
    assert_eq!((a - b).value, 4);
    assert_eq!((a * b).value, 12);
    assert_eq!(a.inv().value, 8);
    assert_eq!(a.pow(2).value, 4);
}

#[test]
fn scalar_operators_take_negative_scalars() {
    let a: Mod<17> = 5.into();
    assert_eq!((a + (-7i64)).value, 15);
    assert_eq!((a - (-7i64)).value, 12);
    assert_eq!((a * (-7i64)).value, 16);
    assert_eq!((a / (-7i64)).value, 9);
    assert_eq!((a / 300i64).value, 2);
    assert_eq!((a * i64::MIN).value, 6);
}

#[test]
fn modulus_one_has_the_single_residue_zero() {
    let a: Mod<1> = 5.into();
    let b: Mod<1> = (-3).into();
    assert_eq!(a.value, 0);
    assert_eq!((a + b).value, 0);
    assert_eq!((a - b).value, 0);
    assert_eq!((a * b).value, 0);
    assert_eq!(a.pow(0).value, 0);
    assert_eq!(a.pow(5).value, 0);
    assert_eq!(a.checked_inv().err(), Some(InverseError::NoInverse));
}

#[test]
fn inverse_of_zero_is_refused() {
    let z: Mod<17> = 34.into();
    assert_eq!(z.checked_inv().err(), Some(InverseError::NoInverse));
    let one: Mod<17> = 1.into();
    assert_eq!(one.checked_div(z).err(), Some(InverseError::NoInverse));
    assert_eq!(z.checked_pow(-1).err(), Some(InverseError::NoInverse));
}

#[test]
fn inverse_of_a_value_that_shares_a_factor_is_refused() {
    let m: Mod<18> = 100.into();
    assert_eq!(m.checked_inv().err(), Some(InverseError::NotCoprime));
    let one: Mod<18> = 1.into();
    assert_eq!(one.checked_div(m).err(), Some(InverseError::NotCoprime));
    assert_eq!(m.checked_pow(-3).err(), Some(InverseError::NotCoprime));
}

#[test]
fn checked_forms_agree_with_the_operators() {
    let a: Mod<227> = 100.into();
    let b: Mod<227> = 300.into();
    assert_eq!(b.checked_inv().ok().map(|x| x.value), Some(b.inv().value));
    assert_eq!(a.checked_div(b).ok().map(|x| x.value), Some(76));
    assert_eq!(a.checked_pow(2).ok().map(|x| x.value), Some(a.pow(2).value));
    assert_eq!(a.checked_pow(-2).ok().map(|x| x.value), Some(a.pow(-2).value));
    let z: Mod<227> = 0.into();
    assert_eq!(z.checked_pow(0).ok().map(|x| x.value), Some(1));
    assert_eq!(z.checked_pow(5).ok().map(|x| x.value), Some(0));
}

#[test]
fn inverse_times_value_is_one() {
    for v in 1..227i64 {
        let a: Mod<227> = v.into();
        let x = a.inv();
        assert!(x.value < 227);
        assert_eq!((a * x).value, 1);
    }
    for v in 1..18i64 {
        let a: Mod<18> = v.into();
        match a.checked_inv() {
            Ok(x) => assert_eq!((a * x).value, 1),
            Err(e) => {
                assert_eq!(e, InverseError::NotCoprime);
                assert!(v % 2 == 0 || v % 3 == 0);
            }
        }
    }
}

#[test]
fn ext_gcd_gives_the_divisor_and_its_coefficients() {
    assert_eq!(Mod::<17>::ext_gcd(0, 5), (5, 0, 1));
    assert_eq!(Mod::<17>::ext_gcd(0, 0), (0, 0, 1));
    assert_eq!(Mod::<17>::ext_gcd(5, 0), (5, 1, 0));
    assert_eq!(Mod::<17>::ext_gcd(15, 17), (1, 8, -7));
    assert_eq!(Mod::<17>::ext_gcd(10, 18), (2, 2, -1));
    assert_eq!(Mod::<17>::ext_gcd(5, 18), (1, -7, 2));
    let (g, x, y) = Mod::<17>::ext_gcd(i64::MAX, i64::MAX - 1);
    assert_eq!(g, 1);
    assert_eq!(
        (i64::MAX as i128) * (x as i128) + ((i64::MAX - 1) as i128) * (y as i128),
        1
    );
    let (g, x, y) = Mod::<17>::ext_gcd(1071, 462);
    assert_eq!(g, 21);
    assert_eq!(1071 * x + 462 * y, 21);
}

#[test]
fn power_with_exact_values() {
    let a: Mod<1000000007> = 2.into();
    assert_eq!(a.pow(0).value, 1);
    assert_eq!(a.pow(1).value, 2);
    assert_eq!(a.pow(10).value, 1024);
    assert_eq!(a.pow(62).value, 145586002);
    assert_eq!(a.pow(1000000006).value, 1);
    assert_eq!(a.pow(-1).value, 500000004);
    assert_eq!(a.pow(i64::MAX).value, a.pow(i64::MAX % 1000000006).value);
    assert_eq!((a.pow(i64::MIN) * a.pow(i64::MAX) * a).value, 1);
    assert_eq!(a.pow_unsigned(u64::MAX).value, a.pow((u64::MAX % 1000000006) as i64).value);
    let z: Mod<17> = 0.into();
    assert_eq!(z.pow(0).value, 1);
    assert_eq!(z.pow(3).value, 0);
}

#[test]
fn negative_exponent_is_the_power_of_the_inverse() {
    for v in 1..17i64 {
        let a: Mod<17> = v.into();
        for n in 0..20i64 {
            assert!(a.pow(-n) == a.inv().pow(n));
            assert_eq!((a.pow(-n) * a.pow(n)).value, 1);
        }
    }
    let b: Mod<18> = 5.into();
    assert!(b.pow(-7) == b.inv().pow(7));
}

#[test]
fn dividing_then_multiplying_gives_the_value_back() {
    for v in 0..17i64 {
        for w in 1..17i64 {
            let a: Mod<17> = v.into();
            let b: Mod<17> = w.into();
            assert!((a / b) * b == a);
        }
    }
    let a: Mod<18> = 4.into();
    let b: Mod<18> = 5.into();
    assert!((a / b) * b == a);
}

#[test]
fn results_are_canonical() {
    for v in -20..20i64 {
        for w in -20..20i64 {
            let a: Mod<13> = v.into();
            let b: Mod<13> = w.into();
            assert!((a + b).value < 13);
            assert!((a - b).value < 13);
            assert!((a * b).value < 13);
            assert!(a.pow(w.abs()).value < 13);
            assert!((a + w).value < 13);
            assert!((a - w).value < 13);
            assert!((a * w).value < 13);
            if b.value != 0 {
                assert!((a / b).value < 13);
                assert!((a / w).value < 13);
                assert!(b.inv().value < 13);
                assert!(b.pow(v).value < 13);
            }
        }
    }
}

#[test]
fn assigning_forms_agree_with_the_operators() {
    let a: Mod<227> = 100.into();
    let b: Mod<227> = 300.into();
    let mut c = a;
    c += b;
    assert!(c == a + b);
    c = a;
    c -= b;
    assert!(c == a - b);
    c = a;
    c *= b;
    assert!(c == a * b);
    c = a;
    c /= b;
    assert!(c == a / b);
}

#[test]
fn debug_string_shows_residue_and_modulus() {
    let a: Mod<17> = 10.into();
    assert_eq!(a.debug_string(), "Mod { value: 10, mod: 17 }");
    let b: Mod<17> = 0.into();
    assert_eq!(b.debug_string(), "Mod { value: 0, mod: 17 }");
    let c: Mod<4294967295> = (-1).into();
    assert_eq!(c.debug_string(), "Mod { value: 4294967294, mod: 4294967295 }");
    let d: Mod<1000000007> = 1000000000.into();
    assert_eq!(d.debug_string(), "Mod { value: 1000000000, mod: 1000000007 }");
    let e: Mod<10> = 9.into();
    assert_eq!(e.debug_string(), "Mod { value: 9, mod: 10 }");
}
