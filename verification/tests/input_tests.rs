use chip8::input::{key_code, update, InputEvent, ESCAPE};
use chip8::keypad::Keypad;

#[test]
fn layout_maps_sixteen_symbols() {
    let layout = [
        ('1', 0x1u8),
        ('2', 0x2),
        ('3', 0x3),
        ('4', 0xC),
        ('q', 0x4),
        ('w', 0x5),
        ('e', 0x6),
        ('r', 0xD),
        ('a', 0x7),
        ('s', 0x8),
        ('d', 0x9),
        ('f', 0xE),
        ('z', 0xA),
        ('x', 0x0),
        ('c', 0xB),
        ('v', 0xF),
    ];
    let mut seen = [false; 16];
    for (symbol, code) in layout {
        assert_eq!(key_code(symbol as i32), Some(code));
        seen[code as usize] = true;
    }
    assert!(seen.iter().all(|&s| s));
}

#[test]
fn other_symbols_map_to_no_key() {
    let mapped = "1234qwerasdfzxcv";
    for symbol in -5i32..300 {
        let is_mapped = symbol >= 0 && mapped.contains(char::from_u32(symbol as u32).unwrap());
        assert_eq!(key_code(symbol).is_some(), is_mapped);
    }
    assert_eq!(key_code(ESCAPE), None);
    assert_eq!(key_code('Q' as i32), None);
    assert_eq!(key_code(i32::MAX), None);
    assert_eq!(key_code(i32::MIN), None);
}

#[test]
fn update_presses_and_releases_in_order() {
    let mut pad = Keypad::new();
    let quit = update(
        &mut pad,
        &[
            InputEvent::KeyDown('q' as i32),
            InputEvent::KeyDown('x' as i32),
            InputEvent::Other,
            InputEvent::KeyDown('p' as i32),
            InputEvent::KeyUp('q' as i32),
            InputEvent::KeyDown('v' as i32),
            InputEvent::KeyUp('p' as i32),
        ],
    );
    assert!(!quit);
    let mut expected = [false; 16];
    expected[0x0] = true;
    expected[0xF] = true;
    assert_eq!(pad.keys, expected);
}

#[test]
fn update_stops_at_a_quit_request() {
    let mut pad = Keypad::new();
    let quit = update(
        &mut pad,
        &[InputEvent::KeyDown('1' as i32), InputEvent::Quit, InputEvent::KeyDown('2' as i32)],
    );
    assert!(quit);
    assert!(pad.is_key_pressed(1));
    assert!(!pad.is_key_pressed(2));
}

#[test]
fn update_stops_at_escape_going_down() {
    let mut pad = Keypad::new();
    pad.key_press(3);
    let quit = update(
        &mut pad,
        &[
            InputEvent::KeyUp(ESCAPE),
            InputEvent::KeyUp('3' as i32),
            InputEvent::KeyDown(ESCAPE),
            InputEvent::KeyDown('3' as i32),
        ],
    );
    assert!(quit);
    assert!(!pad.is_key_pressed(3));
}

#[test]
fn update_with_no_events_changes_nothing() {
    let mut pad = Keypad::new();
    pad.key_press(9);
    assert!(!update(&mut pad, &[]));
    assert!(pad.is_key_pressed(9));
    assert_eq!(pad.first_pressed(), Some(9));
}
