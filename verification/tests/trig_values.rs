use raster3d::trig::sin_cos;

fn reference(num: i64, den: i64) -> (f64, f64) {
    let angle = 2.0 * std::f64::consts::PI * (num as f64) / (den as f64);
    (angle.sin() * 65536.0, angle.cos() * 65536.0)
}

#[test]
fn quarter_turns_are_exact() {
    assert_eq!((sin_cos(0, 4).0.raw(), sin_cos(0, 4).1.raw()), (0, 65536));
    assert_eq!((sin_cos(1, 4).0.raw(), sin_cos(1, 4).1.raw()), (65536, 0));
    assert_eq!((sin_cos(2, 4).0.raw(), sin_cos(2, 4).1.raw()), (0, -65536));
    assert_eq!((sin_cos(3, 4).0.raw(), sin_cos(3, 4).1.raw()), (-65536, 0));
    assert_eq!((sin_cos(90 * 65536, 360 * 65536).0.raw()), 65536);
    assert_eq!((sin_cos(-90 * 65536, 360 * 65536).0.raw()), -65536);
    assert_eq!((sin_cos(180, 360).1.raw()), -65536);
}

#[test]
fn sine_and_cosine_are_within_two_raw_units_of_the_true_values() {
    for den in [7i64, 20, 40, 100, 360, 1000, 23592960] {
        for k in 0..400i64 {
            let num = if den > 1000 { k * 58999 - 3_000_000 } else { k - 50 };
            let (s, c) = sin_cos(num, den);
            let (rs, rc) = reference(num, den);
            assert!((s.raw() as f64 - rs).abs() <= 2.0, "sine of {}/{}", num, den);
            assert!((c.raw() as f64 - rc).abs() <= 2.0, "cosine of {}/{}", num, den);
        }
    }
}

#[test]
fn known_values_of_sine_and_cosine() {
    // 30 degrees: sine one half, cosine half the square root of three.
    let (s, c) = sin_cos(30, 360);
    assert_eq!((s.raw(), c.raw()), (32768, 56756));
    // 45 degrees: both 0.70710678.
    let (s, c) = sin_cos(1, 8);
    assert_eq!((s.raw(), c.raw()), (46341, 46341));
    // A hundredth and seven hundredths of a turn.
    let (s, c) = sin_cos(1, 100);
    assert_eq!((s.raw(), c.raw()), (4115, 65407));
    let (s, c) = sin_cos(7, 100);
    assert_eq!((s.raw(), c.raw()), (27904, 59299));
    // Thirty degrees backwards.
    let (s, c) = sin_cos(-1, 12);
    assert_eq!((s.raw(), c.raw()), (-32768, 56756));
    // An angle in raw degrees, as rotations give it.
    let (s, c) = sin_cos(123456, 23592960);
    assert_eq!((s.raw(), c.raw()), (2154, 65501));
}

#[test]
fn a_whole_turn_more_changes_nothing() {
    for num in -30i64..30 {
        let a = sin_cos(num, 13);
        let b = sin_cos(num + 13, 13);
        let c = sin_cos(num - 26, 13);
        assert_eq!(a, b);
        assert_eq!(a, c);
    }
}

#[test]
fn sine_and_cosine_stay_between_minus_one_and_one() {
    for num in 0..2000i64 {
        let (s, c) = sin_cos(num, 2000);
        assert!(-65536 <= s.raw() && s.raw() <= 65536);
        assert!(-65536 <= c.raw() && c.raw() <= 65536);
    }
    let (s, c) = sin_cos(i64::MIN, i64::MAX);
    assert!(-65536 <= s.raw() && s.raw() <= 65536);
    assert!(-65536 <= c.raw() && c.raw() <= 65536);
}

#[test]
fn opposite_angles_have_opposite_sines() {
    for num in 0..500i64 {
        let (s, c) = sin_cos(num, 500);
        let (t, d) = sin_cos(-num, 500);
        assert_eq!(s.raw(), -t.raw());
        assert_eq!(c.raw(), d.raw());
    }
}
