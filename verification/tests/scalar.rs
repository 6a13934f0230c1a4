use dualslint::rounding::{bit_length, divide_half_even, power_of_two, round_scaled};
use dualslint::scalar::{Double, Scalar};

fn sc(v: f32) -> Scalar {
    Scalar { bits: v.to_bits() }
}

fn fl(s: Scalar) -> f32 {
    f32::from_bits(s.bits)
}

fn same(a: Scalar, b: f32) -> bool {
    (fl(a).is_nan() && b.is_nan()) || a.bits == b.to_bits()
}

struct Random(u64);

impl Random {
    fn next(&mut self) -> u64 {
        self.0 ^= self.0 << 13;
        self.0 ^= self.0 >> 7;
        self.0 ^= self.0 << 17;
        self.0
    }

    fn scalar(&mut self) -> f32 {
        let r = self.next();
        match r % 4 {
            // Any bit pattern.
            0 => f32::from_bits((r >> 16) as u32),
            // Numbers of everyday size.
            1 => ((r >> 20) as i32 as f32) / 256.0,
            // Subnormal numbers and their neighbours.
            2 => f32::from_bits(((r >> 20) as u32 % 0x0200_0000) | (((r >> 60) as u32 & 1) << 31)),
            // Whole numbers and halves.
            _ => ((r >> 24) as i16 as f32) / 2.0,
        }
    }
}

const EDGES: [f32; 17] = [
    0.0,
    -0.0,
    1.0,
    -1.0,
    0.5,
    1.5,
    2.5,
    f32::MIN_POSITIVE,
    1.0e-45,
    -1.0e-45,
    f32::MAX,
    f32::MIN,
    f32::INFINITY,
    f32::NEG_INFINITY,
    f32::NAN,
    4294967296.0,
    16777216.0,
];

fn check_pair(a: f32, b: f32) {
    assert!(same(sc(a).plus(sc(b)), a + b), "{a} + {b}");
    assert!(same(sc(a).minus(sc(b)), a - b), "{a} - {b}");
    assert!(same(sc(a).times(sc(b)), a * b), "{a} * {b}");
    assert!(same(sc(a).over(sc(b)), a / b), "{a} / {b}");
    assert_eq!(sc(a).less_than(sc(b)), a < b, "{a} < {b}");
    assert_eq!(sc(a).less_or_equal(sc(b)), a <= b, "{a} <= {b}");
    assert_eq!(sc(a).equals(sc(b)), a == b, "{a} == {b}");
}

fn check_one(a: f32) {
    assert!(same(sc(a).negated(), -a));
    assert!(same(sc(a).abs(), a.abs()));
    assert!(same(sc(a).ceil(), a.ceil()), "ceil {a}");
    assert!(same(sc(a).round(), a.round()), "round {a}");
    assert!(same(sc(a).to_radians(), a.to_radians()), "radians {a}");
    assert_eq!(sc(a).to_u32(), a as u32, "u32 {a}");
    assert_eq!(sc(a).is_nan(), a.is_nan());
    assert_eq!(sc(a).is_infinite(), a.is_infinite());
    assert_eq!(sc(a).is_zero(), a == 0.0);
    assert_eq!(sc(a).is_positive(), a > 0.0);
    assert_eq!(sc(a).is_negative(), a.is_sign_negative());
}

#[test]
fn arithmetic_agrees_with_the_machine_on_edges() {
    for a in EDGES {
        check_one(a);
        for b in EDGES {
            check_pair(a, b);
        }
    }
}

#[test]
fn arithmetic_agrees_with_the_machine_on_many_numbers() {
    let mut random = Random(0x9e37_79b9_7f4a_7c15);
    for _ in 0..200_000 {
        let a = random.scalar();
        let b = random.scalar();
        check_one(a);
        check_pair(a, b);
    }
}

#[test]
fn exact_results() {
    assert_eq!(sc(0.1).plus(sc(0.2)).bits, 0x3e99_999a);
    assert_eq!(sc(1.0).over(sc(3.0)).bits, 0x3eaa_aaab);
    assert_eq!(sc(3.0).times(sc(-0.5)).bits, 0xbfc0_0000);
    assert_eq!(sc(180.0).to_radians().bits, 0x4049_0fdb);
    assert_eq!(sc(2.5).round().bits, 0x4040_0000);
    assert_eq!(sc(-2.5).round().bits, 0xc040_0000);
    assert_eq!(sc(-0.5).ceil().bits, 0x8000_0000);
    assert_eq!(sc(1.0e10).to_u32(), u32::MAX);
    assert_eq!(sc(-3.0).to_u32(), 0);
    assert_eq!(sc(f32::NAN).to_u32(), 0);
    assert_eq!(Scalar::from_u32(16_777_217).bits, 0x4b80_0000);
}

#[test]
fn whole_numbers_agree_with_the_machine() {
    let mut random = Random(77);
    for n in [0u32, 1, 2, 3, 0xff_ffff, 0x100_0000, 0x100_0001, 0x100_0003, u32::MAX] {
        assert_eq!(Scalar::from_u32(n).bits, (n as f32).to_bits());
    }
    for _ in 0..100_000 {
        let r = random.next();
        let n = (r >> 32) as u32 >> (r % 32);
        assert_eq!(Scalar::from_u32(n).bits, (n as f32).to_bits());
    }
}

#[test]
fn doubles_agree_with_the_machine() {
    let mut random = Random(4242);
    let check = |d: f64| {
        let narrowed = Double { bits: d.to_bits() }.to_scalar();
        assert!(same(narrowed, d as f32), "{d}");
        let up = Double { bits: d.to_bits() }.ceil_to_scalar();
        assert!(same(up, d.ceil() as f32), "ceil {d}");
    };
    for d in [
        0.0,
        -0.0,
        1.0,
        1.25,
        1.5,
        -0.25,
        0.1,
        1.0e-320,
        3.0e38,
        3.5e38,
        1.0e300,
        f64::INFINITY,
        f64::NEG_INFINITY,
        f64::NAN,
        4503599627370496.5,
        9007199254740993.0,
    ] {
        check(d);
    }
    for _ in 0..200_000 {
        let r = random.next();
        check(f64::from_bits(r));
        check((r >> 11) as f64 / 1048576.0);
        check(f64::from_bits((r & 0x800f_ffff_ffff_ffff) | ((((r >> 52) % 400) + 820) << 52)));
    }
}

#[test]
fn halves_go_to_even() {
    assert_eq!(divide_half_even(5, 2), 2);
    assert_eq!(divide_half_even(7, 2), 4);
    assert_eq!(divide_half_even(8, 3), 3);
    assert_eq!(power_of_two(10), 1024);
    assert_eq!(bit_length(0), 0);
    assert_eq!(bit_length(1023), 10);
    // 2^24 + 1 units lie halfway between two encodable magnitudes.
    assert_eq!(round_scaled(0x100_0001, 0), round_scaled(0x100_0000, 0));
    assert_eq!(round_scaled(0x100_0003, 0), round_scaled(0x100_0004, 0));
}

#[test]
fn order_is_the_order_of_values() {
    let sorted = [-2.0f32, -1.0e-45, 0.0, 1.0e-45, 0.5, 1.0, 3.0e38];
    for i in 0..sorted.len() {
        for j in 0..sorted.len() {
            assert_eq!(sc(sorted[i]).less_than(sc(sorted[j])), i < j);
        }
    }
}

#[test]
fn rounding_gives_whole_numbers() {
    let mut random = Random(0x1357_9bdf_0246_8ace);
    for _ in 0..100_000 {
        let v = random.scalar();
        if v.is_finite() {
            let near = fl(sc(v).round()) as f64;
            assert_eq!(near.fract(), 0.0);
            assert!((near - v as f64).abs() <= 0.5);
            let up = fl(sc(v).ceil()) as f64;
            assert_eq!(up.fract(), 0.0);
            // The difference of a tiny number and one is rounded to one.
            assert!(v as f64 <= up && up - v as f64 <= 1.0);
        }
    }
    assert_eq!(fl(sc(-2.5).round()), -3.0);
    assert_eq!(fl(sc(2.25).ceil()), 3.0);
}
