use bento::size::{align_offset, clamp, resolve, resolve_clamped, resolve_natural, Align, Size};
use bento::units::{centered, inner_extent, percent_of, sat, sat_add, sat_sub, times};

#[test]
fn fixed_resolves_to_its_value() {
    assert_eq!(resolve(Size::Fixed(120), 7, 300), 120);
    assert_eq!(resolve(Size::Fixed(-5), 7, 300), -5);
}

#[test]
fn fill_resolves_to_the_available_extent() {
    assert_eq!(resolve(Size::Fill, 7, 300), 300);
    assert_eq!(resolve(Size::Fill, 7, i32::MAX), i32::MAX);
}

#[test]
fn percent_resolves_against_the_available_extent() {
    assert_eq!(resolve(Size::Percent(50), 7, 200), 100);
    assert_eq!(resolve(Size::Percent(25), 7, 300), 75);
    assert_eq!(resolve(Size::Percent(30), 7, 1000), 300);
    assert_eq!(resolve(Size::Percent(0), 7, 1000), 0);
    assert_eq!(resolve(Size::Percent(200), 7, 40), 80);
}

#[test]
fn percent_rounds_down() {
    assert_eq!(percent_of(10, 33), 3);
    assert_eq!(percent_of(199, 50), 99);
    assert_eq!(percent_of(-10, 33), -4);
    assert_eq!(percent_of(10, -33), -4);
    assert_eq!(percent_of(-199, -50), 99);
    assert_eq!(percent_of(-200, 50), -100);
}

#[test]
fn percent_saturates() {
    assert_eq!(percent_of(i32::MAX, 1000), i32::MAX);
    assert_eq!(percent_of(i32::MAX, -1000), i32::MIN);
    assert_eq!(percent_of(i32::MIN, i32::MIN), i32::MAX);
    assert_eq!(percent_of(i32::MAX, 100), i32::MAX);
}

#[test]
fn auto_resolves_to_the_natural_extent() {
    assert_eq!(resolve(Size::Auto, 7, 300), 7);
    assert_eq!(Size::default(), Size::Auto);
}

#[test]
fn clamp_raises_and_lowers() {
    assert_eq!(clamp(5, Some(10), None), 10);
    assert_eq!(clamp(50, None, Some(20)), 20);
    assert_eq!(clamp(15, Some(10), Some(20)), 15);
    assert_eq!(clamp(15, None, None), 15);
    assert_eq!(clamp(10, Some(10), Some(10)), 10);
}

#[test]
fn clamp_with_crossed_bounds_ends_at_the_maximum() {
    assert_eq!(clamp(0, Some(30), Some(20)), 20);
    assert_eq!(clamp(25, Some(30), Some(20)), 20);
    assert_eq!(clamp(100, Some(30), Some(20)), 20);
}

#[test]
fn clamping_twice_changes_nothing() {
    for v in [-40, 0, 5, 10, 15, 20, 99] {
        let once = clamp(v, Some(10), Some(20));
        assert_eq!(clamp(once, Some(10), Some(20)), once);
    }
}

#[test]
fn resolving_twice_gives_the_same() {
    let sizes = [Size::Fixed(40), Size::Fill, Size::Percent(37), Size::Auto];
    for s in sizes {
        let a = resolve_clamped(s, 12, 333, Some(5), Some(200));
        let b = resolve_clamped(s, 12, 333, Some(5), Some(200));
        assert_eq!(a, b);
        assert_eq!(resolve_clamped(Size::Fixed(a), 12, 333, Some(5), Some(200)), a);
    }
}

#[test]
fn resolve_clamped_applies_the_clamps() {
    assert_eq!(resolve_clamped(Size::Fill, 0, 500, None, Some(300)), 300);
    assert_eq!(resolve_clamped(Size::Percent(10), 0, 500, Some(80), None), 80);
    assert_eq!(resolve_clamped(Size::Fixed(40), 0, 500, Some(10), Some(100)), 40);
}

#[test]
fn natural_extent_ignores_the_parent() {
    assert_eq!(resolve_natural(Size::Fill, 33, None, None), 0);
    assert_eq!(resolve_natural(Size::Percent(50), 33, None, None), 0);
    assert_eq!(resolve_natural(Size::Auto, 33, None, None), 33);
    assert_eq!(resolve_natural(Size::Fixed(12), 33, None, None), 12);
    assert_eq!(resolve_natural(Size::Fill, 33, Some(8), None), 8);
}

#[test]
fn align_offset_of_each_policy() {
    assert_eq!(align_offset(Align::Start, 100, 40), 0);
    assert_eq!(align_offset(Align::Center, 100, 40), 30);
    assert_eq!(align_offset(Align::End, 100, 40), 60);
    assert_eq!(align_offset(Align::Center, 101, 40), 30);
    assert_eq!(align_offset(Align::SpaceBetween, 100, 40), 0);
    assert_eq!(align_offset(Align::SpaceAround, 100, 40), 0);
    assert_eq!(align_offset(Align::SpaceEvenly, 100, 40), 0);
    assert_eq!(Align::default(), Align::Start);
}

#[test]
fn align_offset_is_never_negative() {
    assert_eq!(align_offset(Align::Center, 40, 100), 0);
    assert_eq!(align_offset(Align::End, 40, 100), 0);
    assert_eq!(align_offset(Align::End, i32::MAX, i32::MIN), i32::MAX);
    assert_eq!(align_offset(Align::Center, i32::MAX, i32::MIN), i32::MAX);
}

#[test]
fn arithmetic_saturates() {
    assert_eq!(sat(5_000_000_000), i32::MAX);
    assert_eq!(sat(-5_000_000_000), i32::MIN);
    assert_eq!(sat(17), 17);
    assert_eq!(sat_add(i32::MAX, 1), i32::MAX);
    assert_eq!(sat_add(i32::MIN, -1), i32::MIN);
    assert_eq!(sat_add(3, 4), 7);
    assert_eq!(sat_sub(i32::MIN, 1), i32::MIN);
    assert_eq!(sat_sub(10, 4), 6);
    assert_eq!(times(10, 3), 30);
    assert_eq!(times(10, 0), 0);
    assert_eq!(times(0, usize::MAX), 0);
    assert_eq!(times(1, usize::MAX), i32::MAX);
    assert_eq!(times(-1, usize::MAX), i32::MIN);
    assert_eq!(times(-7, 2), -14);
}

#[test]
fn inner_extent_is_never_negative() {
    assert_eq!(inner_extent(100, 10, 20), 70);
    assert_eq!(inner_extent(10, 10, 20), 0);
    assert_eq!(inner_extent(100, -10, 0), 110);
    assert_eq!(inner_extent(-5, 0, 0), 0);
}

#[test]
fn centered_rounds_down() {
    assert_eq!(centered(0, 100, 40), 30);
    assert_eq!(centered(10, 100, 41), 39);
    assert_eq!(centered(0, 40, 100), -30);
    assert_eq!(centered(0, 40, 101), -31);
}
