use bento::events::{hit, Events, Key, Keyboard, Mouse, MouseButton};

#[test]
fn a_new_keyboard_holds_nothing() {
    let k = Keyboard::default();
    assert!(!k.is_pressed(Key::A));
    assert!(!k.is_just_pressed(Key::A));
    assert!(!k.is_just_released(Key::A));
}

#[test]
fn press_marks_the_key() {
    let mut k = Keyboard::default();
    k.press(Key::L);
    assert!(k.is_pressed(Key::L));
    assert!(k.is_just_pressed(Key::L));
    assert!(!k.is_just_released(Key::L));
    assert!(!k.is_pressed(Key::K));
}

#[test]
fn press_twice_is_press_once() {
    let mut k = Keyboard::default();
    k.press(Key::L);
    k.press(Key::L);
    k.release(Key::L);
    assert!(!k.is_pressed(Key::L));
}

#[test]
fn release_unmarks_the_key_only() {
    let mut k = Keyboard::default();
    k.press(Key::L);
    k.press(Key::Space);
    k.release(Key::L);
    assert!(!k.is_pressed(Key::L));
    assert!(k.is_just_released(Key::L));
    assert!(k.is_just_pressed(Key::L));
    assert!(k.is_pressed(Key::Space));
    assert!(!k.is_just_released(Key::Space));
}

#[test]
fn clear_frame_state_keeps_what_is_down() {
    let mut e = Events::default();
    e.keyboard.press(Key::A);
    e.keyboard.press(Key::B);
    e.keyboard.release(Key::B);
    e.mouse.move_to(10, 20);
    e.mouse.set_button(MouseButton::Left, true);
    e.mouse.scroll(1, -2);
    e.clear_frame_state();
    assert!(e.keyboard.is_pressed(Key::A));
    assert!(!e.keyboard.is_just_pressed(Key::A));
    assert!(!e.keyboard.is_pressed(Key::B));
    assert!(!e.keyboard.is_just_released(Key::B));
    assert_eq!((e.mouse.x, e.mouse.y, e.mouse.dx, e.mouse.dy), (10, 20, 0, 0));
    assert!(e.mouse.left_pressed);
    assert!(!e.mouse.left_just_pressed);
    assert_eq!((e.mouse.scroll_x, e.mouse.scroll_y), (0, 0));
}

#[test]
fn move_to_records_the_movement() {
    let mut m = Mouse::default();
    m.move_to(10, 20);
    assert_eq!((m.x, m.y, m.dx, m.dy), (10, 20, 10, 20));
    m.move_to(7, 25);
    assert_eq!((m.x, m.y, m.dx, m.dy), (7, 25, -3, 5));
    m.move_to(i32::MIN, 25);
    m.move_to(i32::MAX, 25);
    assert_eq!(m.dx, i32::MAX);
}

#[test]
fn a_button_is_just_pressed_once() {
    let mut m = Mouse::default();
    m.set_button(MouseButton::Left, true);
    assert!(m.left_pressed && m.left_just_pressed && !m.left_just_released);
    m.set_button(MouseButton::Left, true);
    assert!(m.left_pressed && !m.left_just_pressed && !m.left_just_released);
    m.set_button(MouseButton::Left, false);
    assert!(!m.left_pressed && !m.left_just_pressed && m.left_just_released);
    m.set_button(MouseButton::Left, false);
    assert!(!m.left_pressed && !m.left_just_pressed && !m.left_just_released);
}

#[test]
fn buttons_do_not_touch_each_other() {
    let mut m = Mouse::default();
    m.set_button(MouseButton::Right, true);
    m.set_button(MouseButton::Middle, true);
    assert!(m.right_pressed && m.right_just_pressed);
    assert!(m.middle_pressed && m.middle_just_pressed);
    assert!(!m.left_pressed && !m.left_just_pressed);
    assert!(m.button(MouseButton::Right).pressed);
    assert!(!m.button(MouseButton::Left).pressed);
    m.set_button(MouseButton::Right, false);
    assert!(m.right_just_released && m.middle_pressed);
}

#[test]
fn over_includes_the_edges() {
    let mut m = Mouse::default();
    m.move_to(50, 50);
    assert!(m.over(0, 0, 100, 40) == false);
    assert!(m.over(0, 0, 100, 50));
    assert!(m.over(50, 50, 0, 0));
    assert!(m.over(0, 10, 50, 40));
    assert!(!m.over(51, 0, 100, 100));
    assert!(!m.over(0, 0, 49, 100));
}

#[test]
fn hit_does_not_overflow() {
    assert!(hit(i32::MAX, 0, i32::MAX - 1, 0, i32::MAX, 0));
    assert!(!hit(i32::MIN, 0, i32::MAX, 0, 5, 0));
    assert!(!hit(5, 5, 0, 0, -1, 10));
}

#[test]
fn keys_type_their_text() {
    assert_eq!(Key::A.text(), "a");
    assert_eq!(Key::Z.text(), "z");
    assert_eq!(Key::Num0.text(), "0");
    assert_eq!(Key::Num7.text(), "7");
    assert_eq!(Key::Numpad9.text(), "9");
    assert_eq!(Key::Enter.text(), "\r\n");
    assert_eq!(Key::Space.text(), " ");
    assert_eq!(Key::Comma.text(), ",");
    assert_eq!(Key::Quote.text(), "'");
    assert_eq!(Key::Escape.text(), "");
    assert_eq!(Key::F5.text(), "");
    assert_eq!(Key::Unknown.text(), "");
}

#[test]
fn a_key_is_held_once() {
    let mut k = Keyboard::default();
    k.press(Key::A);
    k.press(Key::B);
    k.press(Key::A);
    k.press(Key::C);
    assert_eq!(k.pressed, vec![Key::A, Key::B, Key::C]);
    assert_eq!(k.just_pressed, vec![Key::A, Key::B, Key::C]);
    k.release(Key::B);
    k.release(Key::B);
    assert_eq!(k.pressed, vec![Key::A, Key::C]);
    assert_eq!(k.just_released, vec![Key::B]);
    assert_eq!(k.just_pressed, vec![Key::A, Key::B, Key::C]);
    k.release(Key::Z);
    assert_eq!(k.pressed, vec![Key::A, Key::C]);
    assert_eq!(k.just_released, vec![Key::B, Key::Z]);
}

#[test]
fn release_takes_every_occurrence_out_of_a_list_filled_by_hand() {
    let mut k = Keyboard { pressed: vec![Key::A, Key::B, Key::A], just_pressed: vec![], just_released: vec![] };
    assert!(k.is_pressed(Key::A));
    k.release(Key::A);
    assert_eq!(k.pressed, vec![Key::B]);
    assert!(!k.is_pressed(Key::A));
}
