use bento::clip::{intersect, is_outside, make_child_clip, ClipRect};
use bento::style::Overflow;

fn clip(x0: i32, y0: i32, x1: i32, y1: i32) -> ClipRect {
    ClipRect { x0, y0, x1, y1 }
}

#[test]
fn intersect_takes_the_inner_edges() {
    assert_eq!(intersect(clip(0, 0, 100, 100), clip(50, 20, 150, 80)), clip(50, 20, 100, 80));
}

#[test]
fn intersect_in_either_order() {
    let a = clip(0, 0, 100, 100);
    let b = clip(50, 20, 150, 80);
    let c = clip(60, 10, 90, 300);
    assert_eq!(intersect(a, b), intersect(b, a));
    assert_eq!(intersect(intersect(a, b), c), intersect(a, intersect(b, c)));
    assert_eq!(intersect(a, a), a);
}

#[test]
fn a_hidden_container_clips_to_itself() {
    assert_eq!(make_child_clip(10, 20, 100, 50, Overflow::Hidden, None), Some(clip(10, 20, 110, 70)));
    assert_eq!(make_child_clip(10, 20, 100, 50, Overflow::Scroll, None), Some(clip(10, 20, 110, 70)));
}

#[test]
fn a_visible_container_hands_the_clip_on() {
    assert_eq!(make_child_clip(10, 20, 100, 50, Overflow::Visible, None), None);
    let p = clip(0, 0, 5, 5);
    assert_eq!(make_child_clip(10, 20, 100, 50, Overflow::Visible, Some(p)), Some(p));
}

#[test]
fn nested_hidden_containers_intersect() {
    let a = make_child_clip(0, 0, 100, 100, Overflow::Hidden, None);
    let ab = make_child_clip(50, 20, 100, 60, Overflow::Hidden, a);
    assert_eq!(ab, Some(intersect(clip(0, 0, 100, 100), clip(50, 20, 150, 80))));
    let b = make_child_clip(50, 20, 100, 60, Overflow::Hidden, None);
    let ba = make_child_clip(0, 0, 100, 100, Overflow::Hidden, b);
    assert_eq!(ab, ba);
    assert_eq!(ab, Some(clip(50, 20, 100, 80)));
}

#[test]
fn the_corner_of_a_clip_saturates() {
    assert_eq!(
        make_child_clip(i32::MAX, 0, 10, i32::MAX, Overflow::Hidden, None),
        Some(clip(i32::MAX, 0, i32::MAX, i32::MAX))
    );
}

#[test]
fn nothing_is_outside_without_a_clip() {
    assert!(!is_outside(-1000, -1000, 1, 1, None));
}

#[test]
fn fully_outside_is_culled() {
    let c = Some(clip(100, 100, 200, 200));
    assert!(is_outside(0, 150, 99, 10, c));
    assert!(is_outside(150, 0, 10, 99, c));
    assert!(is_outside(201, 150, 10, 10, c));
    assert!(is_outside(150, 201, 10, 10, c));
}

#[test]
fn touching_or_overlapping_is_drawn() {
    let c = Some(clip(100, 100, 200, 200));
    assert!(!is_outside(0, 150, 100, 10, c));
    assert!(!is_outside(200, 200, 10, 10, c));
    assert!(!is_outside(150, 150, 10, 10, c));
    assert!(!is_outside(50, 50, 500, 500, c));
    assert!(!is_outside(90, 90, 20, 20, c));
}

#[test]
fn is_outside_does_not_overflow() {
    let c = Some(clip(0, 0, 10, 10));
    assert!(!is_outside(i32::MIN, i32::MIN, i32::MAX, i32::MAX, None));
    assert!(is_outside(i32::MAX, 0, i32::MAX, 5, c));
    assert!(is_outside(i32::MIN, 0, 5, 5, c));
}
