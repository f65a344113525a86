use flutgif::pixel::Pixel;

#[test]
fn similarity_of_a_pixel_with_itself_is_zero() {
    assert_eq!(Pixel::Empty.similarity(Pixel::Empty), 0);
    assert_eq!(Pixel::Rgb(0, 0, 0).similarity(Pixel::Rgb(0, 0, 0)), 0);
    assert_eq!(Pixel::Rgb(17, 200, 9).similarity(Pixel::Rgb(17, 200, 9)), 0);
}

#[test]
fn similarity_of_empty_and_real_pixel_is_maximal_both_ways() {
    assert_eq!(Pixel::Empty.similarity(Pixel::Rgb(1, 2, 3)), u32::MAX);
    assert_eq!(Pixel::Rgb(1, 2, 3).similarity(Pixel::Empty), u32::MAX);
}

#[test]
fn similarity_is_symmetric() {
    let a = Pixel::Rgb(10, 250, 3);
    let b = Pixel::Rgb(200, 0, 77);
    assert_eq!(a.similarity(b), b.similarity(a));
}

#[test]
fn similarity_uses_luma_weighted_formula() {
    // |255-0| * 76 / 255 = 76 for a pure red difference.
    assert_eq!(Pixel::Rgb(255, 0, 0).similarity(Pixel::Rgb(0, 0, 0)), 76);
    // (2*76 + 2*150 + 2*29) / 255 = 510 / 255 = 2.
    assert_eq!(Pixel::Rgb(10, 10, 10).similarity(Pixel::Rgb(12, 12, 12)), 2);
    // The weighted sum is floored by the division.
    assert_eq!(Pixel::Rgb(1, 0, 0).similarity(Pixel::Rgb(0, 0, 0)), 0);
}

#[test]
fn combine_with_empty_never_overwrites() {
    let a = Pixel::Rgb(1, 2, 3);
    assert_eq!(a.combine(Pixel::Empty, 0), a);
    assert_eq!(a.combine(Pixel::Empty, u32::MAX), a);
    assert_eq!(Pixel::Empty.combine(Pixel::Empty, 5), Pixel::Empty);
}

#[test]
fn combine_at_zero_threshold_accepts_any_perceptible_difference() {
    let red = Pixel::Rgb(255, 0, 0);
    let black = Pixel::Rgb(0, 0, 0);
    assert_eq!(red.combine(black, 0), black);
    assert_eq!(Pixel::Empty.combine(black, 0), black);
}

#[test]
fn combine_suppresses_differences_within_threshold() {
    let a = Pixel::Rgb(10, 10, 10);
    let b = Pixel::Rgb(12, 12, 12);
    // similarity is 2, at most the threshold 100, so b is treated as noise.
    assert_eq!(a.combine(b, 100), a);
    // With threshold 1 the difference is real.
    assert_eq!(a.combine(b, 1), b);
}

#[test]
fn mut_combine_matches_combine() {
    let mut a = Pixel::Rgb(255, 0, 0);
    a.mut_combine(Pixel::Rgb(0, 0, 0), 0);
    assert_eq!(a, Pixel::Rgb(0, 0, 0));
}

#[test]
fn default_pixel_is_empty() {
    assert_eq!(Pixel::default(), Pixel::Empty);
}

#[test]
fn rgb_to_hex_is_six_lowercase_hex_digits() {
    assert_eq!(Pixel::rgb_to_hex((255, 16, 0)), *b"ff1000");
    assert_eq!(Pixel::rgb_to_hex((0, 0, 0)), *b"000000");
    assert_eq!(Pixel::rgb_to_hex((171, 205, 239)), *b"abcdef");
}
