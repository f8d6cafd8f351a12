use raytracer::aspect::readable_aspect_ratio;

#[test]
fn widescreen_ratio_has_four_decimals() {
    assert_eq!(readable_aspect_ratio(1200, 675), "1.7778");
    assert_eq!(readable_aspect_ratio(1920, 1080), "1.7778");
}

#[test]
fn whole_ratio_drops_the_point() {
    assert_eq!(readable_aspect_ratio(800, 400), "2");
    assert_eq!(readable_aspect_ratio(640, 640), "1");
    assert_eq!(readable_aspect_ratio(20, 10), "2");
}

#[test]
fn trailing_zeros_are_removed() {
    assert_eq!(readable_aspect_ratio(3, 2), "1.5");
    assert_eq!(readable_aspect_ratio(5, 4), "1.25");
    assert_eq!(readable_aspect_ratio(1, 8), "0.125");
    assert_eq!(readable_aspect_ratio(4, 3), "1.3333");
    assert_eq!(readable_aspect_ratio(2, 3), "0.6667");
}

#[test]
fn large_ratio_keeps_all_integer_digits() {
    assert_eq!(readable_aspect_ratio(4_000_000_000, 1), "4000000000");
    assert_eq!(readable_aspect_ratio(1001, 10), "100.1");
}

#[test]
fn tiny_ratio_rounds_to_zero() {
    assert_eq!(readable_aspect_ratio(1, 30000), "0");
    assert_eq!(readable_aspect_ratio(0, 7), "0");
}

#[test]
fn exact_tie_rounds_to_even() {
    assert_eq!(readable_aspect_ratio(1, 32), "0.0312");
    assert_eq!(readable_aspect_ratio(3, 32), "0.0938");
}

#[test]
fn inexact_tie_follows_the_nearest_double() {
    assert_eq!(readable_aspect_ratio(1, 20000), "0.0001");
    assert_eq!(readable_aspect_ratio(1, 4000), "0.0003");
}

#[test]
fn zero_height_gives_inf_or_nan() {
    assert_eq!(readable_aspect_ratio(5, 0), "inf");
    assert_eq!(readable_aspect_ratio(0, 0), "NaN");
}

#[test]
fn matches_float_formatting() {
    for (w, h) in [(1200u32, 675u32), (1, 3), (7, 9), (1000, 999), (1, 32), (123, 7), (3, 32), (1, 20000), (1, 4000), (3, 4000), (7, 80000)] {
        let mut expected = format!("{:.4}", f64::from(w) / f64::from(h));
        let len = expected.trim_end_matches('0').trim_end_matches('.').len();
        expected.truncate(len);
        assert_eq!(readable_aspect_ratio(w, h), expected);
    }
}
