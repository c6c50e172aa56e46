use pc_keyboard::KeyCode;
use xv0::keyboard::{
    dispatch_scancode, pump_keyboard, record_key_event, unsubscribe, HeldKeys, KeyDecoder,
    KeyEvent, KeyTransition, ScancodeOutcome, ScancodeStream, SubscriberRegistry,
    SCANCODE_QUEUE_CAPACITY,
};

fn same_event(a: Option<KeyEvent>, b: Option<KeyEvent>) -> bool {
    match (a, b) {
        (None, None) => true,
        (Some(KeyEvent::Unicode(x)), Some(KeyEvent::Unicode(y))) => x == y,
        (Some(KeyEvent::Raw(x)), Some(KeyEvent::Raw(y))) => x == y,
        _ => false,
    }
}

#[test]
fn code_from_raw_gives_the_code_of_raw_events_only() {
    assert_eq!(KeyEvent::Raw(KeyCode::F1).code_from_raw(), Some(KeyCode::F1));
    assert_eq!(KeyEvent::Unicode('z').code_from_raw(), None);
}

#[test]
fn pressed_keys_are_held_once() {
    let mut h = HeldKeys::new();
    h.set_key_state(KeyCode::W, KeyTransition::Down);
    h.set_key_state(KeyCode::W, KeyTransition::Down);
    h.set_key_state(KeyCode::A, KeyTransition::Down);
    assert!(h.is_key_down(KeyCode::W));
    assert!(h.is_key_down(KeyCode::A));
    assert!(!h.is_key_down(KeyCode::S));
}

#[test]
fn released_keys_are_no_longer_held() {
    let mut h = HeldKeys::new();
    h.set_key_state(KeyCode::W, KeyTransition::Down);
    h.set_key_state(KeyCode::A, KeyTransition::Down);
    h.set_key_state(KeyCode::W, KeyTransition::Up);
    assert!(!h.is_key_down(KeyCode::W));
    assert!(h.is_key_down(KeyCode::A));
    h.set_key_state(KeyCode::D, KeyTransition::Up);
    assert!(!h.is_key_down(KeyCode::D));
}

#[test]
fn single_shot_changes_nothing() {
    let mut h = HeldKeys::new();
    h.set_key_state(KeyCode::X, KeyTransition::SingleShot);
    assert!(!h.is_key_down(KeyCode::X));
}

#[test]
fn press_then_release_restores_held_keys() {
    let mut h = HeldKeys::new();
    h.set_key_state(KeyCode::A, KeyTransition::Down);
    h.set_key_state(KeyCode::S, KeyTransition::Down);
    h.set_key_state(KeyCode::D, KeyTransition::Up);
    assert!(h.is_key_down(KeyCode::A) && h.is_key_down(KeyCode::S));
}

#[test]
fn scancode_stream_is_fifo() {
    let mut s = ScancodeStream::new();
    assert_eq!(s.next_scancode(), None);
    assert!(s.add_scancode(1));
    assert!(s.add_scancode(2));
    assert_eq!(s.next_scancode(), Some(1));
    assert_eq!(s.next_scancode(), Some(2));
    assert_eq!(s.next_scancode(), None);
}

#[test]
fn pump_keyboard_keeps_each_key_once() {
    let mut s = ScancodeStream::new();
    let mut d = KeyDecoder::new();
    let mut h = HeldKeys::new();
    for sc in [0x1eu8, 0x1e, 0x11] {
        s.add_scancode(sc);
    }
    pump_keyboard(&mut s, &mut d, &mut h);
    assert_eq!(h.held(), &[KeyCode::A, KeyCode::W]);
    assert_eq!(s.next_scancode(), None);
}

#[test]
fn pump_keyboard_follows_prefix_bytes() {
    let mut s = ScancodeStream::new();
    let mut d = KeyDecoder::new();
    let mut h = HeldKeys::new();
    for sc in [0xe0u8, 0x4b, 0x4b, 0xe0, 0xcb] {
        s.add_scancode(sc);
    }
    let events = pump_keyboard(&mut s, &mut d, &mut h);
    assert_eq!(
        events,
        vec![
            (KeyCode::ArrowLeft, KeyTransition::Down),
            (KeyCode::Numpad4, KeyTransition::Down),
            (KeyCode::ArrowLeft, KeyTransition::Up)
        ]
    );
    assert_eq!(h.held(), &[KeyCode::Numpad4]);
}

#[test]
fn decoder_add_byte_tracks_prefixes() {
    let mut d = KeyDecoder::new();
    assert!(matches!(d.add_byte(0xe0), Ok(None)));
    assert!(matches!(d.add_byte(0x48), Ok(Some((KeyCode::ArrowUp, KeyTransition::Down)))));
    assert!(matches!(d.add_byte(0x48), Ok(Some((KeyCode::Numpad8, KeyTransition::Down)))));
    assert!(matches!(d.add_byte(0xc8), Ok(Some((KeyCode::Numpad8, KeyTransition::Up)))));
    assert!(d.add_byte(0x00).is_err());
}

#[test]
fn dispatch_reports_the_modifiers_held() {
    let mut d = KeyDecoder::new();
    let mut h = HeldKeys::new();
    let mut r = SubscriberRegistry::new();
    match dispatch_scancode(&mut d, &mut h, &mut r, 0x2a) {
        ScancodeOutcome::Key { modifiers, .. } => assert!(!modifiers.lshift),
        other => panic!("unexpected outcome {:?}", other),
    }
    match dispatch_scancode(&mut d, &mut h, &mut r, 0x1e) {
        ScancodeOutcome::Key { modifiers, decoded, .. } => {
            assert!(modifiers.lshift && !modifiers.rshift && !modifiers.capslock);
            assert!(same_event(decoded, Some(KeyEvent::Unicode('A'))));
        }
        other => panic!("unexpected outcome {:?}", other),
    }
    match dispatch_scancode(&mut d, &mut h, &mut r, 0x0e) {
        ScancodeOutcome::Key { decoded, .. } => assert!(same_event(decoded, Some(KeyEvent::Unicode('\u{8}')))),
        other => panic!("unexpected outcome {:?}", other),
    }
}

#[test]
fn scancode_stream_drops_when_full() {
    let mut s = ScancodeStream::new();
    for i in 0..SCANCODE_QUEUE_CAPACITY {
        assert!(s.add_scancode(i as u8));
    }
    assert!(!s.add_scancode(0xff));
    assert_eq!(s.next_scancode(), Some(0));
    assert!(s.add_scancode(0xfe));
}

#[test]
fn subscribers_get_increasing_ids() {
    let mut r = SubscriberRegistry::new();
    let a = r.subscribe(4);
    let b = r.subscribe(4);
    assert_eq!(a.id(), 1);
    assert_eq!(b.id(), 2);
}

#[test]
fn broadcast_reaches_every_subscriber() {
    let mut r = SubscriberRegistry::new();
    let a = r.subscribe(4);
    let b = r.subscribe(4);
    r.broadcast(KeyEvent::Unicode('k'));
    assert!(same_event(r.next_event(a.id()), Some(KeyEvent::Unicode('k'))));
    assert!(same_event(r.next_event(b.id()), Some(KeyEvent::Unicode('k'))));
    assert!(same_event(r.next_event(a.id()), None));
}

#[test]
fn full_subscriber_queue_drops_oldest() {
    let mut r = SubscriberRegistry::new();
    let a = r.subscribe(2);
    r.broadcast(KeyEvent::Unicode('1'));
    r.broadcast(KeyEvent::Unicode('2'));
    r.broadcast(KeyEvent::Unicode('3'));
    assert!(same_event(r.next_event(a.id()), Some(KeyEvent::Unicode('2'))));
    assert!(same_event(r.next_event(a.id()), Some(KeyEvent::Unicode('3'))));
    assert!(same_event(r.next_event(a.id()), None));
}

#[test]
fn unsubscribed_queue_no_longer_receives() {
    let mut r = SubscriberRegistry::new();
    let a = r.subscribe(4);
    let b = r.subscribe(4);
    unsubscribe(&mut r, a.id());
    r.broadcast(KeyEvent::Raw(KeyCode::Escape));
    assert!(same_event(r.next_event(b.id()), Some(KeyEvent::Raw(KeyCode::Escape))));
    // Removing an id that is not there changes nothing.
    unsubscribe(&mut r, 99);
    r.broadcast(KeyEvent::Unicode('q'));
    assert!(same_event(r.next_event(b.id()), Some(KeyEvent::Unicode('q'))));
}

#[test]
fn record_key_event_updates_keys_and_subscribers() {
    let mut h = HeldKeys::new();
    let mut r = SubscriberRegistry::new();
    let a = r.subscribe(4);
    record_key_event(&mut h, &mut r, KeyCode::Q, KeyTransition::Down, Some(KeyEvent::Unicode('q')));
    assert!(h.is_key_down(KeyCode::Q));
    assert!(same_event(r.next_event(a.id()), Some(KeyEvent::Unicode('q'))));
    record_key_event(&mut h, &mut r, KeyCode::Q, KeyTransition::Up, None);
    assert!(!h.is_key_down(KeyCode::Q));
    assert!(same_event(r.next_event(a.id()), None));
}

#[test]
fn scancodes_decode_into_keys_and_events() {
    let mut d = KeyDecoder::new();
    let mut h = HeldKeys::new();
    let mut r = SubscriberRegistry::new();
    let a = r.subscribe(8);
    match dispatch_scancode(&mut d, &mut h, &mut r, 0x1e) {
        ScancodeOutcome::Key { code, transition, decoded, .. } => {
            assert_eq!(code, KeyCode::A);
            assert_eq!(transition, KeyTransition::Down);
            assert!(same_event(decoded, Some(KeyEvent::Unicode('a'))));
        }
        other => panic!("unexpected outcome {:?}", other),
    }
    assert!(h.is_key_down(KeyCode::A));
    assert!(same_event(r.next_event(a.id()), Some(KeyEvent::Unicode('a'))));
    match dispatch_scancode(&mut d, &mut h, &mut r, 0x9e) {
        ScancodeOutcome::Key { code, transition, decoded, .. } => {
            assert_eq!(code, KeyCode::A);
            assert_eq!(transition, KeyTransition::Up);
            assert!(decoded.is_none());
        }
        other => panic!("unexpected outcome {:?}", other),
    }
    assert!(!h.is_key_down(KeyCode::A));
    assert!(same_event(r.next_event(a.id()), None));
}

#[test]
fn shift_changes_the_decoded_character() {
    let mut d = KeyDecoder::new();
    let mut h = HeldKeys::new();
    let mut r = SubscriberRegistry::new();
    let a = r.subscribe(8);
    dispatch_scancode(&mut d, &mut h, &mut r, 0x2a);
    dispatch_scancode(&mut d, &mut h, &mut r, 0x1e);
    assert!(same_event(r.next_event(a.id()), Some(KeyEvent::Raw(KeyCode::LShift))));
    assert!(same_event(r.next_event(a.id()), Some(KeyEvent::Unicode('A'))));
    assert!(h.is_key_down(KeyCode::LShift));
}

#[test]
fn prefix_bytes_and_unknown_codes() {
    let mut d = KeyDecoder::new();
    let mut h = HeldKeys::new();
    let mut r = SubscriberRegistry::new();
    assert!(matches!(dispatch_scancode(&mut d, &mut h, &mut r, 0xe0), ScancodeOutcome::Incomplete));
    assert!(matches!(dispatch_scancode(&mut d, &mut h, &mut r, 0x4b), ScancodeOutcome::Key { code: KeyCode::ArrowLeft, .. }));
    assert!(matches!(dispatch_scancode(&mut d, &mut h, &mut r, 0x00), ScancodeOutcome::Failed(_)));
    assert!(h.is_key_down(KeyCode::ArrowLeft));
}

#[test]
fn pump_keyboard_drains_the_stream() {
    let mut s = ScancodeStream::new();
    let mut d = KeyDecoder::new();
    let mut h = HeldKeys::new();
    for sc in [0x11u8, 0x1e, 0x91] {
        s.add_scancode(sc);
    }
    let events = pump_keyboard(&mut s, &mut d, &mut h);
    assert_eq!(
        events,
        vec![
            (KeyCode::W, KeyTransition::Down),
            (KeyCode::A, KeyTransition::Down),
            (KeyCode::W, KeyTransition::Up)
        ]
    );
    assert!(h.is_key_down(KeyCode::A));
    assert!(!h.is_key_down(KeyCode::W));
    assert_eq!(s.next_scancode(), None);
}

#[test]
fn decoder_starts_with_num_lock_on_and_tracks_caps_lock() {
    let mut d = KeyDecoder::new();
    let (before, key) = d.process_keyevent(KeyCode::CapsLock, KeyTransition::Down);
    assert!(before.numlock && !before.capslock && !before.lshift);
    assert!(same_event(key, Some(KeyEvent::Raw(KeyCode::CapsLock))));
    let (after, key) = d.process_keyevent(KeyCode::A, KeyTransition::Down);
    assert!(after.capslock);
    assert!(same_event(key, Some(KeyEvent::Unicode('A'))));
    let (_, key) = d.process_keyevent(KeyCode::A, KeyTransition::Up);
    assert!(key.is_none());
}

#[test]
fn registry_contains_only_live_ids() {
    let mut r = SubscriberRegistry::new();
    let a = r.subscribe(2);
    assert!(r.contains(a.id()));
    unsubscribe(&mut r, a.id());
    assert!(!r.contains(a.id()));
}

#[test]
fn decoded_keys_convert_to_key_events() {
    assert!(same_event(Some(KeyEvent::from(pc_keyboard::DecodedKey::Unicode('x'))), Some(KeyEvent::Unicode('x'))));
    assert!(same_event(
        Some(KeyEvent::from(pc_keyboard::DecodedKey::RawKey(KeyCode::F5))),
        Some(KeyEvent::Raw(KeyCode::F5))
    ));
}
