use nicotine::config::CharacterHotkey;
use nicotine::keys::{
    canonical_modifier, hotkey_label, is_bindable_main_key, is_modifier_vk, poll_capture,
    vk_to_label, CaptureBuffer, CapturedKey,
};

fn keys_down(list: &[usize]) -> [i16; 256] {
    let mut raw = [0i16; 256];
    for vk in list {
        raw[*vk] = i16::MIN;
    }
    raw
}

fn primed(list: &[usize]) -> CaptureBuffer {
    let mut buf = CaptureBuffer::new();
    assert!(poll_capture(&mut buf, &keys_down(list)).is_none());
    buf
}

#[test]
fn modifiers_are_known_by_all_their_codes() {
    let modifiers = [0x10, 0x11, 0x12, 0xA0, 0xA1, 0xA2, 0xA3, 0xA4, 0xA5];
    for vk in 0..=u16::MAX {
        assert_eq!(is_modifier_vk(vk), modifiers.contains(&vk));
    }
    assert_eq!(canonical_modifier(0xA1), 0x10);
    assert_eq!(canonical_modifier(0xA2), 0x11);
    assert_eq!(canonical_modifier(0xA5), 0x12);
    assert_eq!(canonical_modifier(0x12), 0x12);
    assert_eq!(canonical_modifier(0x41), 0x41);
}

#[test]
fn some_keys_cannot_be_bound() {
    for vk in 0..=u16::MAX {
        let refused = vk < 0x08
            || matches!(
                vk,
                0x14 | 0x15..=0x1F | 0x5B..=0x5F | 0x90 | 0x91 | 0xA6..=0xB7 | 0xE0..=0xFE
            );
        assert_eq!(is_bindable_main_key(vk), !refused, "{vk:x}");
    }
}

#[test]
fn the_first_poll_only_remembers() {
    let mut buf = CaptureBuffer::new();
    assert!(poll_capture(&mut buf, &keys_down(&[0x41])).is_none());
    assert!(poll_capture(&mut buf, &keys_down(&[0x41])).is_none());
    assert!(poll_capture(&mut buf, &keys_down(&[])).is_none());
    assert_eq!(
        poll_capture(&mut buf, &keys_down(&[0x41])),
        Some(CapturedKey::Main { vk: 0x41, ctrl: false, shift: false, alt: false })
    );
    buf.reset();
    assert!(poll_capture(&mut buf, &keys_down(&[0x42])).is_none());
}

#[test]
fn held_modifiers_combine_with_a_key() {
    let mut buf = primed(&[0xA2, 0x11]);
    assert_eq!(
        poll_capture(&mut buf, &keys_down(&[0xA2, 0x11, 0xA1, 0x61])),
        Some(CapturedKey::Main { vk: 0x61, ctrl: true, shift: true, alt: false })
    );
}

#[test]
fn a_modifier_alone_is_caught_by_its_plain_code() {
    let mut buf = primed(&[]);
    assert_eq!(
        poll_capture(&mut buf, &keys_down(&[0xA4, 0xA5])),
        Some(CapturedKey::Modifier(0x12))
    );
}

#[test]
fn the_lowest_key_is_caught() {
    let mut buf = primed(&[]);
    assert_eq!(
        poll_capture(&mut buf, &keys_down(&[0x7B, 0x30, 0x1B, 0x01])),
        Some(CapturedKey::Main { vk: 0x30, ctrl: false, shift: false, alt: false })
    );
}

#[test]
fn a_low_bit_is_no_press() {
    let mut buf = primed(&[]);
    let mut raw = [0i16; 256];
    raw[0x41] = 1;
    assert!(poll_capture(&mut buf, &raw).is_none());
}

#[test]
fn keys_have_names() {
    let cases = [
        (0x70, "F1"),
        (0x79, "F10"),
        (0x7A, "F11"),
        (0x87, "F24"),
        (0x09, "Tab"),
        (0x20, "Space"),
        (0x0D, "Enter"),
        (0x08, "Backspace"),
        (0x2D, "Insert"),
        (0x2E, "Delete"),
        (0x24, "Home"),
        (0x23, "End"),
        (0x21, "PgUp"),
        (0x22, "PgDown"),
        (0x1B, "Escape"),
        (0xA1, "Shift"),
        (0x11, "Ctrl"),
        (0xA4, "Alt"),
        (0xC0, "`"),
        (0x30, "0"),
        (0x39, "9"),
        (0x41, "A"),
        (0x5A, "Z"),
        (0x60, "Num 0"),
        (0x69, "Num 9"),
        (0x6A, "Num *"),
        (0x6B, "Num +"),
        (0x6C, "VK 0x6C"),
        (0x6D, "Num -"),
        (0x6E, "Num ."),
        (0x6F, "Num /"),
        (0x26, "Up"),
        (0x28, "Down"),
        (0x25, "Left"),
        (0x27, "Right"),
        (0xBA, ";"),
        (0xBB, "="),
        (0xBC, ","),
        (0xBD, "-"),
        (0xBE, "."),
        (0xBF, "/"),
        (0xDB, "["),
        (0xDC, "\\"),
        (0xDD, "]"),
        (0xDE, "'"),
        (0x01, "VK 0x01"),
        (0x100, "VK 0x100"),
        (0xFFFF, "VK 0xFFFF"),
    ];
    for (vk, name) in cases {
        assert_eq!(vk_to_label(vk), name);
    }
}

#[test]
fn combinations_have_names() {
    let hotkey = |ctrl, shift, alt| CharacterHotkey { vk: 0x61, ctrl, shift, alt };
    assert_eq!(hotkey_label(&hotkey(true, true, false)), "Ctrl+Shift+Num 1");
    assert_eq!(hotkey_label(&hotkey(true, true, true)), "Ctrl+Shift+Alt+Num 1");
    assert_eq!(hotkey_label(&hotkey(false, false, true)), "Alt+Num 1");
    assert_eq!(hotkey_label(&hotkey(false, false, false)), "Num 1");
}

#[test]
fn labels_tell_keys_apart() {
    let mut labels: Vec<(String, u16)> =
        (0..=u16::MAX).map(|vk| (vk_to_label(vk), canonical_modifier(vk))).collect();
    labels.sort();
    for pair in labels.windows(2) {
        assert!(!pair[0].0.is_empty());
        assert_eq!(pair[0].0 == pair[1].0, pair[0].1 == pair[1].1, "{pair:?}");
    }
}
