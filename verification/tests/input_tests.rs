use rpg_battle::input::KeyInputHashMap;

#[test]
fn keys_follow_their_last_event() {
    let mut m = KeyInputHashMap::new();
    assert!(!m.pressed(1));
    m.set_down(1);
    assert!(m.pressed(1));
    assert!(!m.pressed(2));
    m.set_down(2);
    m.set_up(1);
    assert!(!m.pressed(1));
    assert!(m.pressed(2));
}

#[test]
fn reset_releases_every_key() {
    let mut m = KeyInputHashMap::new();
    m.set_down(10);
    m.set_down(20);
    m.set_up(30);
    m.reset();
    assert!(!m.pressed(10));
    assert!(!m.pressed(20));
    assert!(!m.pressed(30));
    m.set_down(20);
    assert!(m.pressed(20));
}

#[test]
fn reset_of_empty_map() {
    let mut m = KeyInputHashMap::new();
    m.reset();
    assert!(!m.pressed(0));
}
