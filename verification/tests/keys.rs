use gg::event::{next_frame_state, next_state, ElementState, KeyCode, KeyError, KeyState, Keys};

const ESCAPE: KeyCode = KeyCode(1);
const SPACE: KeyCode = KeyCode(57);

#[test]
fn unobserved_key_is_not_pressed_since_never() {
    let keys = Keys::new();
    assert_eq!(keys.status(ESCAPE), KeyState::NotPressed(0));
    assert!(!keys.pressed(ESCAPE));
    assert!(!keys.held(ESCAPE));
    assert!(keys.not_pressed(ESCAPE));
}

#[test]
fn unobserved_key_stays_unobserved_over_frames_and_other_keys() {
    let mut keys = Keys::new();
    keys.update(10);
    keys.update_key(SPACE, ElementState::Pressed, 10).unwrap();
    keys.update(20);
    assert_eq!(keys.status(ESCAPE), KeyState::NotPressed(0));
}

#[test]
fn press_shows_for_one_frame_then_the_key_is_held() {
    let mut keys = Keys::new();
    keys.update(100);
    assert_eq!(keys.update_key(ESCAPE, ElementState::Pressed, 100), Ok(()));
    assert_eq!(keys.status(ESCAPE), KeyState::Pressed(100));
    assert!(keys.pressed(ESCAPE));
    assert!(keys.held(ESCAPE));
    assert!(!keys.not_pressed(ESCAPE));

    keys.update(200);
    assert_eq!(keys.status(ESCAPE), KeyState::Held(200));
    assert!(!keys.pressed(ESCAPE));
    assert!(keys.held(ESCAPE));
    assert!(keys.not_pressed(ESCAPE));

    keys.update(300);
    assert_eq!(keys.status(ESCAPE), KeyState::Held(200));
    assert!(!keys.pressed(ESCAPE));
    assert!(keys.held(ESCAPE));
}

#[test]
fn release_shows_for_one_frame_then_the_key_is_idle() {
    let mut keys = Keys::new();
    keys.update_key(ESCAPE, ElementState::Pressed, 1).unwrap();
    keys.update(2);
    assert_eq!(keys.update_key(ESCAPE, ElementState::Released, 2), Ok(()));
    assert_eq!(keys.status(ESCAPE), KeyState::Released(2));
    assert!(!keys.held(ESCAPE));
    assert!(!keys.pressed(ESCAPE));

    keys.update(3);
    assert_eq!(keys.status(ESCAPE), KeyState::NotPressed(3));
    keys.update(4);
    assert_eq!(keys.status(ESCAPE), KeyState::NotPressed(3));

    assert_eq!(keys.update_key(ESCAPE, ElementState::Pressed, 4), Ok(()));
    assert_eq!(keys.status(ESCAPE), KeyState::Pressed(4));
}

#[test]
fn repeated_press_of_a_held_key_is_ignored() {
    let mut keys = Keys::new();
    keys.update_key(ESCAPE, ElementState::Pressed, 1).unwrap();
    keys.update(2);
    assert_eq!(keys.update_key(ESCAPE, ElementState::Pressed, 9), Ok(()));
    assert_eq!(keys.status(ESCAPE), KeyState::Held(2));
}

#[test]
fn release_of_a_key_never_seen_is_refused() {
    let mut keys = Keys::new();
    assert_eq!(
        keys.update_key(ESCAPE, ElementState::Released, 5),
        Err(KeyError { edge: ElementState::Released, current: KeyState::NotPressed(0) })
    );
    assert_eq!(keys.status(ESCAPE), KeyState::NotPressed(0));
}

#[test]
fn release_of_an_idle_key_is_refused() {
    let mut keys = Keys::new();
    keys.update_key(ESCAPE, ElementState::Pressed, 1).unwrap();
    keys.update(2);
    keys.update_key(ESCAPE, ElementState::Released, 2).unwrap();
    keys.update(3);
    assert_eq!(
        keys.update_key(ESCAPE, ElementState::Released, 4),
        Err(KeyError { edge: ElementState::Released, current: KeyState::NotPressed(3) })
    );
    assert_eq!(keys.status(ESCAPE), KeyState::NotPressed(3));
}

#[test]
fn press_of_a_key_pressed_in_this_frame_is_refused() {
    let mut keys = Keys::new();
    keys.update_key(ESCAPE, ElementState::Pressed, 1).unwrap();
    assert_eq!(
        keys.update_key(ESCAPE, ElementState::Pressed, 2),
        Err(KeyError { edge: ElementState::Pressed, current: KeyState::Pressed(1) })
    );
    assert_eq!(keys.status(ESCAPE), KeyState::Pressed(1));
}

#[test]
fn release_of_a_key_pressed_in_this_frame_is_refused() {
    let mut keys = Keys::new();
    keys.update_key(ESCAPE, ElementState::Pressed, 1).unwrap();
    assert_eq!(
        keys.update_key(ESCAPE, ElementState::Released, 2),
        Err(KeyError { edge: ElementState::Released, current: KeyState::Pressed(1) })
    );
    assert_eq!(keys.status(ESCAPE), KeyState::Pressed(1));
}

#[test]
fn events_on_a_key_released_in_this_frame_are_refused() {
    let mut keys = Keys::new();
    keys.update_key(ESCAPE, ElementState::Pressed, 1).unwrap();
    keys.update(2);
    keys.update_key(ESCAPE, ElementState::Released, 3).unwrap();
    assert_eq!(
        keys.update_key(ESCAPE, ElementState::Pressed, 4),
        Err(KeyError { edge: ElementState::Pressed, current: KeyState::Released(3) })
    );
    assert_eq!(
        keys.update_key(ESCAPE, ElementState::Released, 4),
        Err(KeyError { edge: ElementState::Released, current: KeyState::Released(3) })
    );
    assert_eq!(keys.status(ESCAPE), KeyState::Released(3));
}

#[test]
fn keys_do_not_touch_each_other() {
    let mut keys = Keys::new();
    keys.update_key(ESCAPE, ElementState::Pressed, 1).unwrap();
    keys.update(2);
    keys.update_key(SPACE, ElementState::Pressed, 2).unwrap();
    assert_eq!(keys.status(ESCAPE), KeyState::Held(2));
    assert_eq!(keys.status(SPACE), KeyState::Pressed(2));
    keys.update_key(ESCAPE, ElementState::Released, 2).unwrap();
    assert_eq!(keys.status(SPACE), KeyState::Pressed(2));
}

#[test]
fn a_new_frame_moves_every_key_on() {
    let mut keys = Keys::new();
    let held = KeyCode(3);
    let idle = KeyCode(200);
    for key in [held, idle, SPACE] {
        keys.update_key(key, ElementState::Pressed, 1).unwrap();
    }
    keys.update(2);
    keys.update_key(idle, ElementState::Released, 2).unwrap();
    keys.update(3);
    keys.update_key(SPACE, ElementState::Released, 3).unwrap();
    keys.update_key(ESCAPE, ElementState::Pressed, 3).unwrap();
    assert_eq!(keys.status(held), KeyState::Held(2));
    assert_eq!(keys.status(idle), KeyState::NotPressed(3));
    assert_eq!(keys.status(SPACE), KeyState::Released(3));
    assert_eq!(keys.status(ESCAPE), KeyState::Pressed(3));

    keys.update(4);
    assert_eq!(keys.status(held), KeyState::Held(2));
    assert_eq!(keys.status(idle), KeyState::NotPressed(3));
    assert_eq!(keys.status(SPACE), KeyState::NotPressed(4));
    assert_eq!(keys.status(ESCAPE), KeyState::Held(4));
    assert_eq!(keys.status(KeyCode(4)), KeyState::NotPressed(0));
}

#[test]
fn the_largest_and_smallest_codes_are_ordinary_keys() {
    let mut keys = Keys::new();
    keys.update_key(KeyCode(u16::MAX), ElementState::Pressed, 7).unwrap();
    keys.update_key(KeyCode(0), ElementState::Pressed, 8).unwrap();
    assert_eq!(keys.status(KeyCode(u16::MAX)), KeyState::Pressed(7));
    assert_eq!(keys.status(KeyCode(0)), KeyState::Pressed(8));
    assert_eq!(keys.status(KeyCode(u16::MAX - 1)), KeyState::NotPressed(0));
    keys.update(u64::MAX);
    assert_eq!(keys.status(KeyCode(u16::MAX)), KeyState::Held(u64::MAX));
}

#[test]
fn next_state_follows_the_table_of_edges() {
    let press = ElementState::Pressed;
    let release = ElementState::Released;
    assert_eq!(next_state(KeyState::NotPressed(1), press, 9), Some(KeyState::Pressed(9)));
    assert_eq!(next_state(KeyState::NotPressed(1), release, 9), None);
    assert_eq!(next_state(KeyState::Pressed(1), press, 9), None);
    assert_eq!(next_state(KeyState::Pressed(1), release, 9), None);
    assert_eq!(next_state(KeyState::Held(1), press, 9), Some(KeyState::Held(1)));
    assert_eq!(next_state(KeyState::Held(1), release, 9), Some(KeyState::Released(9)));
    assert_eq!(next_state(KeyState::Released(1), press, 9), None);
    assert_eq!(next_state(KeyState::Released(1), release, 9), None);
}

#[test]
fn next_frame_state_lets_edges_decay() {
    assert_eq!(next_frame_state(KeyState::Pressed(1), 9), KeyState::Held(9));
    assert_eq!(next_frame_state(KeyState::Released(1), 9), KeyState::NotPressed(9));
    assert_eq!(next_frame_state(KeyState::Held(1), 9), KeyState::Held(1));
    assert_eq!(next_frame_state(KeyState::NotPressed(1), 9), KeyState::NotPressed(1));
}
