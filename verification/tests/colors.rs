use bento::color::Color;

#[test]
fn rgb_is_opaque() {
    assert_eq!(Color::rgb(1, 2, 3), Color { r: 1, g: 2, b: 3, a: 255 });
    assert_eq!(Color::rgba(1, 2, 3, 4), Color { r: 1, g: 2, b: 3, a: 4 });
    assert_eq!(Color::new(9, 8, 7, 6), Color { r: 9, g: 8, b: 7, a: 6 });
}

#[test]
fn hex_with_six_digits() {
    assert_eq!(Color::hex("#ff8000"), Color::rgb(255, 128, 0));
    assert_eq!(Color::hex("FF8000"), Color::rgb(255, 128, 0));
    assert_eq!(Color::hex("#0a0B0c"), Color::rgb(10, 11, 12));
}

#[test]
fn hex_with_three_digits_doubles_each() {
    assert_eq!(Color::hex("#f80"), Color::rgb(255, 136, 0));
    assert_eq!(Color::hex("abc"), Color::rgb(170, 187, 204));
}

#[test]
fn hex_with_eight_digits_has_alpha() {
    assert_eq!(Color::hex("#11223344"), Color::rgba(17, 34, 51, 68));
    assert_eq!(Color::hex("#112233zz"), Color::rgba(17, 34, 51, 255));
}

#[test]
fn hex_skips_every_leading_hash() {
    assert_eq!(Color::hex("###f80"), Color::rgb(255, 136, 0));
    assert_eq!(Color::hex("#"), Color::black());
}

#[test]
fn hex_of_another_length_is_black() {
    assert_eq!(Color::hex(""), Color::black());
    assert_eq!(Color::hex("#ffff"), Color::black());
    assert_eq!(Color::hex("#ff80001"), Color::black());
}

#[test]
fn hex_with_a_bad_channel_zeroes_that_channel() {
    assert_eq!(Color::hex("#gg8000"), Color::rgb(0, 128, 0));
    assert_eq!(Color::hex("#ffx0ff"), Color::rgb(255, 0, 255));
    assert_eq!(Color::hex("#x80"), Color::rgb(0, 136, 0));
}

#[test]
fn hex_takes_a_plus_sign_before_one_digit() {
    assert_eq!(Color::hex("#+5+a+f"), Color::rgb(5, 10, 15));
    assert_eq!(Color::hex("#+++"), Color::rgb(0, 0, 0));
    assert_eq!(Color::hex("#5+0000"), Color::rgb(0, 0, 0));
}

#[test]
fn alpha_and_arrays() {
    let c = Color::rgb(10, 20, 30).with_alpha(40);
    assert_eq!(c, Color::rgba(10, 20, 30, 40));
    assert_eq!(c.to_array(), [10, 20, 30, 40]);
    assert_eq!(Color::from_array([10, 20, 30, 40]), c);
}

#[test]
fn opacity_scales_alpha() {
    assert_eq!(Color::rgba(1, 2, 3, 255).with_opacity(255).a, 255);
    assert_eq!(Color::rgba(1, 2, 3, 255).with_opacity(128).a, 128);
    assert_eq!(Color::rgba(1, 2, 3, 100).with_opacity(128).a, 50);
    assert_eq!(Color::rgba(1, 2, 3, 100).with_opacity(0).a, 0);
    assert_eq!(Color::rgba(1, 2, 3, 100).with_opacity(128), Color::rgba(1, 2, 3, 50));
}

#[test]
fn brightened_stops_at_white() {
    assert_eq!(Color::rgba(10, 250, 255, 7).brightened(20), Color::rgb(30, 255, 255));
}

#[test]
fn named_colors() {
    assert_eq!(Color::red(), Color::rgb(255, 0, 0));
    assert_eq!(Color::green(), Color::rgb(0, 255, 0));
    assert_eq!(Color::blue(), Color::rgb(0, 0, 255));
    assert_eq!(Color::white(), Color::rgb(255, 255, 255));
    assert_eq!(Color::black(), Color::rgb(0, 0, 0));
    assert_eq!(Color::transparent(), Color::rgba(0, 0, 0, 0));
}
