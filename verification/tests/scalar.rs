use voronoi::scalar::Scalar;

fn s(x: f32) -> Scalar {
    Scalar::from_bits(x.to_bits())
}

fn samples() -> Vec<f32> {
    vec![
        0.0,
        -0.0,
        1.0,
        -1.0,
        0.5,
        -0.5,
        0.70710677,
        0.70710678,
        1.0e-45,
        -1.0e-45,
        1.17549435e-38,
        3.4028235e38,
        -3.4028235e38,
        f32::INFINITY,
        f32::NEG_INFINITY,
        f32::NAN,
        -f32::NAN,
        f32::from_bits(0x7F80_0001),
        f32::from_bits(0xFFFF_FFFF),
        f32::EPSILON,
        255.0,
        16777216.0,
    ]
}

#[test]
fn lt_agrees_with_the_hardware_on_every_pair() {
    let xs = samples();
    for &a in xs.iter() {
        for &b in xs.iter() {
            assert_eq!(s(a).lt(s(b)), a < b, "{:?} < {:?}", a, b);
        }
    }
}

#[test]
fn lt_is_false_on_both_sides_of_a_nan() {
    let nan = s(f32::NAN);
    assert!(!nan.lt(s(1.0)));
    assert!(!s(1.0).lt(nan));
    assert!(!nan.lt(nan));
    assert!(!s(f32::NEG_INFINITY).lt(nan));
}

#[test]
fn the_two_zeros_are_not_less_than_each_other() {
    assert!(!s(-0.0).lt(s(0.0)));
    assert!(!s(0.0).lt(s(-0.0)));
    assert!(s(-0.0) != s(0.0));
}

#[test]
fn lt_orders_negative_numbers_by_magnitude_reversed() {
    assert!(s(-2.0).lt(s(-1.0)));
    assert!(!s(-1.0).lt(s(-2.0)));
    assert!(s(-1.0).lt(s(1.0e-45)));
    assert!(s(f32::NEG_INFINITY).lt(s(-3.4028235e38)));
    assert!(s(3.4028235e38).lt(s(f32::INFINITY)));
}

#[test]
fn bits_go_in_and_come_out_unchanged() {
    assert_eq!(Scalar::from_bits(0x3F00_0000).to_bits(), 0x3F00_0000);
    assert_eq!(s(0.5).to_bits(), 0x3F00_0000);
    assert_eq!(f32::from_bits(s(0.25).to_bits()), 0.25);
    assert_eq!(Scalar::from_bits(7), Scalar { bits: 7 });
}
