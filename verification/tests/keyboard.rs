use osdev::kernel::ps2::keyboard::{
    get_key, KeyCode, KeyState, KeyboardDriver, KeyboardLayout, Modifiers, ModifierFilter,
};

fn feed(driver: &mut KeyboardDriver, bytes: &[u8]) {
    for &b in bytes {
        assert!(driver.accepts(b));
        driver.handle_message(b);
    }
}

fn no_modifiers() -> Modifiers {
    Modifiers { shift: false, alt: false, control: false, meta: false, altgr: false }
}

#[test]
fn press_a_gives_lower_case_a() {
    let mut driver = KeyboardDriver::new();
    feed(&mut driver, &[0x1C]);
    let event = get_key(&mut driver).unwrap();
    assert!(event.key_code == KeyCode::A);
    assert!(event.key_state == KeyState::Pressed);
    assert_eq!(event.char, Some('a'));
    assert!(get_key(&mut driver).is_none());
}

#[test]
fn shift_and_a_gives_upper_case_a() {
    let mut driver = KeyboardDriver::new();
    feed(&mut driver, &[0x12, 0x1C]);
    let event = get_key(&mut driver).unwrap();
    assert!(event.key_code == KeyCode::A);
    assert!(event.modifiers.shift);
    assert_eq!(event.char, Some('A'));
    let shift = get_key(&mut driver).unwrap();
    assert!(shift.key_code == KeyCode::LShift);
    assert_eq!(shift.char, None);
}

#[test]
fn releases_are_not_handed_out() {
    let mut driver = KeyboardDriver::new();
    feed(&mut driver, &[0x1C, 0xF0, 0x1C]);
    // The release event comes last in the queue and is dropped on the way.
    let event = get_key(&mut driver).unwrap();
    assert!(event.key_code == KeyCode::A);
    assert!(event.key_state == KeyState::Pressed);
    assert!(get_key(&mut driver).is_none());
}

#[test]
fn second_press_is_held() {
    let mut driver = KeyboardDriver::new();
    feed(&mut driver, &[0x1C, 0x1C]);
    let second = get_key(&mut driver).unwrap();
    assert!(second.key_state == KeyState::Held);
    let first = get_key(&mut driver).unwrap();
    assert!(first.key_state == KeyState::Pressed);
}

#[test]
fn press_release_press_is_pressed_again() {
    let mut driver = KeyboardDriver::new();
    feed(&mut driver, &[0x1C, 0xF0, 0x1C, 0x1C]);
    let last = get_key(&mut driver).unwrap();
    assert!(last.key_state == KeyState::Pressed);
}

#[test]
fn extended_keys_decode() {
    let mut driver = KeyboardDriver::new();
    feed(&mut driver, &[0xE0, 0x75]);
    let event = get_key(&mut driver).unwrap();
    assert!(event.key_code == KeyCode::Up);
    assert_eq!(event.char, None);
    feed(&mut driver, &[0xE0, 0x11]);
    let event = get_key(&mut driver).unwrap();
    assert!(event.key_code == KeyCode::RAlt);
    assert!(event.modifiers.altgr);
}

#[test]
fn unknown_code_is_unknown_key() {
    let mut driver = KeyboardDriver::new();
    feed(&mut driver, &[0x02]);
    let event = get_key(&mut driver).unwrap();
    assert!(event.key_code == KeyCode::Unknown);
}

#[test]
fn long_sequences_are_collected_whole() {
    let mut driver = KeyboardDriver::new();
    feed(&mut driver, &[0xE0, 0x12, 0xE0]);
    assert!(get_key(&mut driver).is_none());
    // The print screen make code has no decoding: the driver refuses its last byte.
    assert!(!driver.accepts(0x7C));
    let mut driver = KeyboardDriver::new();
    feed(&mut driver, &[0xE0, 0xF0, 0x7C, 0xE0, 0xF0, 0x12]);
    assert!(get_key(&mut driver).is_none());
    let mut driver = KeyboardDriver::new();
    feed(&mut driver, &[0xE1, 0x14, 0x77, 0xE1, 0xF0, 0x14, 0xF0, 0x77]);
    let event = get_key(&mut driver).unwrap();
    assert!(event.key_code == KeyCode::Unknown);
    assert!(event.key_state == KeyState::Pressed);
}

#[test]
fn bytes_of_unrecognised_shape_are_refused() {
    let mut driver = KeyboardDriver::new();
    feed(&mut driver, &[0xE1]);
    // 0xE1 followed by a byte that does not continue pause completes a code of no known shape.
    assert!(!driver.accepts(0x01));
}

#[test]
fn swedish_layout_characters() {
    let mut layout = KeyboardLayout::empty();
    osdev::kernel::ps2::keyboard::generate_swedish_layout(&mut layout);
    assert_eq!(layout.transform(KeyCode::Digit2, no_modifiers()), Some('2'));
    let shift = Modifiers { shift: true, ..no_modifiers() };
    assert_eq!(layout.transform(KeyCode::Digit2, shift), Some('"'));
    let altgr = Modifiers { altgr: true, ..no_modifiers() };
    assert_eq!(layout.transform(KeyCode::Digit2, altgr), None);
    assert_eq!(layout.transform(KeyCode::LBracket, no_modifiers()), Some('å'));
    assert_eq!(layout.transform(KeyCode::F1, no_modifiers()), None);
}

#[test]
fn layout_slots_fill_up() {
    let mut layout = KeyboardLayout::empty();
    let f = ModifierFilter::new();
    assert!(layout.add_transform(KeyCode::Q, f, 'a').is_ok());
    assert!(layout.add_transform(KeyCode::Q, f, 'b').is_ok());
    assert!(layout.add_transform(KeyCode::Q, f, 'c').is_ok());
    assert!(layout.add_transform(KeyCode::Q, f, 'd').is_ok());
    assert!(layout.add_transform(KeyCode::Q, f, 'e').is_err());
    assert_eq!(layout.transform(KeyCode::Q, no_modifiers()), Some('a'));
}

#[test]
fn modifier_filters() {
    let m = Modifiers { shift: true, ..no_modifiers() };
    assert!(ModifierFilter::shift_filter().matches(m));
    assert!(!ModifierFilter::new().matches(m));
    assert!(ModifierFilter::altgr_filter().matches(m));
    let c = Modifiers { control: true, ..no_modifiers() };
    assert!(ModifierFilter::new().control().matches(c));
    assert!(!ModifierFilter::new().alt().matches(c));
    assert!(ModifierFilter::new().meta().altgr().matches(Modifiers { meta: true, altgr: true, ..no_modifiers() }));
}

#[test]
fn key_indices_are_distinct_codes() {
    assert_eq!(KeyCode::A.index(), 0x61);
    assert_eq!(KeyCode::Digit2.index(), 0x22);
}

#[test]
fn idle_driver_takes_every_byte() {
    for b in 0..=255u8 {
        let driver = KeyboardDriver::new();
        assert!(driver.accepts(b));
    }
}

#[test]
fn release_events_carry_no_character() {
    let mut driver = KeyboardDriver::new();
    feed(&mut driver, &[0xF0, 0x1C]);
    // The only event is a release, which `get_key` drops.
    assert!(get_key(&mut driver).is_none());
}
