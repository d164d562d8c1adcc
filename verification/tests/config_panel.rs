use nicotine::config::{CharacterEntry, CharacterHotkey, Config, DisplayMode, LiveSettings};
use nicotine::config_panel::{
    Autosave, CaptureEdge, CaptureTarget, ConfigPanel, AUTOSAVE_DEBOUNCE,
};
use nicotine::keys::CapturedKey;

const NONE: [i16; 256] = [0; 256];

fn panel(names: &[&str]) -> ConfigPanel {
    let mut config = Config::build_default(1920, 1080);
    config.characters = names.iter().map(|n| CharacterEntry::new(n.to_string())).collect();
    ConfigPanel::new(config)
}

fn with_key(vk: usize) -> [i16; 256] {
    let mut raw = NONE;
    raw[vk] = i16::MIN;
    raw
}

fn hotkey(vk: u16) -> CharacterHotkey {
    CharacterHotkey { vk, ctrl: false, shift: false, alt: false }
}

fn names(p: &ConfigPanel) -> Vec<&str> {
    p.config.characters.iter().map(|c| c.name.as_str()).collect()
}

#[test]
fn a_pressed_key_is_bound() {
    let mut p = panel(&[]);
    p.toggle_capture(&CaptureTarget::ForwardKey);
    assert_eq!(p.settle_capture(), CaptureEdge::Began);
    p.capture_tick(&NONE, false, 1);
    p.capture_tick(&with_key(0x41), false, 2);
    assert_eq!(p.config.forward_key, 0x41);
    assert!(p.capturing.is_none());
    assert_eq!(p.last_change, Some(2));
    assert_eq!(p.settle_capture(), CaptureEdge::Ended { save: true });
    assert_eq!(p.last_change, None);
    assert_eq!(p.settle_capture(), CaptureEdge::Still);
}

#[test]
fn each_binding_gets_its_key() {
    let mut p = panel(&["A"]);
    let main = CapturedKey::Main { vk: 0x62, ctrl: true, shift: false, alt: false };
    p.toggle_capture(&CaptureTarget::BackwardKey);
    p.apply_capture(Some(main), false, 1);
    assert_eq!(p.config.backward_key, 0x62);
    p.toggle_capture(&CaptureTarget::Character("A".into()));
    p.apply_capture(Some(main), false, 2);
    assert_eq!(
        p.config.character_hotkeys.get("A"),
        Some(&CharacterHotkey { vk: 0x62, ctrl: true, shift: false, alt: false })
    );
    p.toggle_capture(&CaptureTarget::ModifierKey);
    p.apply_capture(Some(main), false, 3);
    assert!(p.capturing.is_some());
    p.apply_capture(Some(CapturedKey::Modifier(0x11)), false, 4);
    assert_eq!(p.config.modifier_key, Some(0x11));
    assert!(p.capturing.is_none());
    p.toggle_capture(&CaptureTarget::ForwardKey);
    p.apply_capture(Some(CapturedKey::Modifier(0x10)), false, 5);
    assert!(p.capturing.is_some());
    assert_eq!(p.config.forward_key, 0x7A);
    assert_eq!(p.last_change, Some(4));
}

#[test]
fn escape_binds_nothing() {
    let mut p = panel(&[]);
    p.toggle_capture(&CaptureTarget::ForwardKey);
    p.capture_tick(&NONE, false, 1);
    p.capture_tick(&with_key(0x1B), true, 2);
    assert!(p.capturing.is_none());
    assert_eq!(p.config.forward_key, 0x7A);
    assert_eq!(p.last_change, None);
    p.settle_capture();
    assert_eq!(p.settle_capture(), CaptureEdge::Still);
}

#[test]
fn keys_held_from_before_bind_nothing() {
    let mut p = panel(&[]);
    p.toggle_capture(&CaptureTarget::ForwardKey);
    p.capture_tick(&with_key(0x41), false, 1);
    p.capture_tick(&with_key(0x41), false, 2);
    assert!(p.capturing.is_some());
    p.capture_tick(&NONE, false, 3);
    p.capture_tick(&with_key(0x41), false, 4);
    assert_eq!(p.config.forward_key, 0x41);
    p.toggle_capture(&CaptureTarget::BackwardKey);
    p.capture_tick(&with_key(0x42), false, 5);
    assert_eq!(p.config.backward_key, 0x79);
}

#[test]
fn without_a_capture_keys_mean_nothing() {
    let mut p = panel(&[]);
    p.capture_tick(&with_key(0x41), true, 1);
    p.capture_tick(&with_key(0x42), true, 2);
    assert_eq!(p.config.forward_key, 0x7A);
    assert_eq!(p.last_change, None);
}

#[test]
fn a_second_click_cancels() {
    let mut p = panel(&[]);
    let target = CaptureTarget::Character("A".into());
    assert_eq!(p.bind_text(&target, "F1".into()), "F1");
    p.toggle_capture(&target);
    assert_eq!(p.bind_text(&target, "F1".into()), "[press key — Esc]");
    assert_eq!(p.bind_text(&CaptureTarget::Character("B".into()), "F2".into()), "F2");
    p.toggle_capture(&target);
    assert!(p.capturing.is_none());
    p.toggle_capture(&target);
    p.settle_capture();
    p.toggle_capture(&target);
    assert_eq!(p.settle_capture(), CaptureEdge::Ended { save: false });
}

#[test]
fn settings_of_the_previews_take_effect_at_once() {
    let mut p = panel(&[]);
    p.set_display_mode(DisplayMode::List, 1);
    p.set_positions_locked(true, 2);
    p.set_preview_size(400, 200, 3);
    assert_eq!(
        p.live,
        LiveSettings {
            preview_width: 400,
            preview_height: 200,
            display_mode: DisplayMode::List,
            positions_locked: true,
        }
    );
    assert_eq!(p.config.preview_width, 400);
    assert_eq!(p.last_change, Some(3));
    p.set_preview_size(400, 200, 4);
    p.set_positions_locked(true, 5);
    p.set_display_mode(DisplayMode::List, 6);
    assert_eq!(p.last_change, Some(3));
}

#[test]
fn switches_are_edits_only_when_they_change() {
    let mut p = panel(&[]);
    p.set_enable_keyboard(true, 1);
    p.set_enable_mouse(false, 2);
    p.set_show_previews(true, 3);
    p.clear_modifier(4);
    assert_eq!(p.last_change, None);
    p.set_enable_keyboard(false, 5);
    p.set_enable_mouse(true, 6);
    p.set_show_previews(false, 7);
    assert_eq!(p.last_change, Some(7));
    assert!(!p.config.enable_keyboard_buttons);
    assert!(p.config.enable_mouse_buttons);
    assert!(!p.config.show_previews);
    assert_eq!(p.modifier_text(), "None");
    p.config.modifier_key = Some(0x10);
    assert_eq!(p.modifier_text(), "Shift");
    p.clear_modifier(8);
    assert_eq!(p.config.modifier_key, None);
    assert_eq!(p.last_change, Some(8));
}

#[test]
fn settings_are_written_once_they_rest() {
    let mut p = panel(&[]);
    assert_eq!(p.autosave(0), Autosave::Idle);
    p.set_enable_mouse(true, 1_000);
    assert_eq!(p.autosave(1_000), Autosave::Wait(AUTOSAVE_DEBOUNCE));
    assert_eq!(p.autosave(101_000), Autosave::Wait(AUTOSAVE_DEBOUNCE - 100_000));
    p.set_enable_mouse(false, 200_001_000);
    assert_eq!(p.autosave(300_001_000), Autosave::Wait(200_000_000));
    assert_eq!(p.autosave(500_001_000), Autosave::Save);
    assert_eq!(p.autosave(500_001_001), Autosave::Idle);
    assert_eq!(AUTOSAVE_DEBOUNCE, 300_000_000);
}

#[test]
fn a_hotkey_follows_its_character() {
    let mut p = panel(&["A", "B", "C"]);
    p.config.character_hotkeys.insert("A".into(), hotkey(0x70));
    p.rename_character(0, "Anna".into(), 1);
    assert_eq!(names(&p), vec!["Anna", "B", "C"]);
    assert_eq!(p.config.character_hotkeys.get("Anna"), Some(&hotkey(0x70)));
    assert_eq!(p.config.character_hotkeys.get("A"), None);
    p.swap_characters(0, 1, 2);
    assert_eq!(names(&p), vec!["B", "Anna", "C"]);
    assert_eq!(p.config.character_hotkeys.get("Anna"), Some(&hotkey(0x70)));
    p.rename_character(1, "Anna".into(), 9);
    assert_eq!(p.last_change, Some(2));
}

#[test]
fn the_last_character_does_not_move_down() {
    let mut p = panel(&["A", "B"]);
    p.swap_characters(1, 2, 1);
    assert_eq!(names(&p), vec!["A", "B"]);
    assert_eq!(p.last_change, None);
}

#[test]
fn a_removed_character_takes_its_hotkey_along() {
    let mut p = panel(&["A", "B"]);
    p.config.character_hotkeys.insert("A".into(), hotkey(0x70));
    p.config.character_hotkeys.insert("B".into(), hotkey(0x71));
    p.remove_character(0, 5);
    assert_eq!(names(&p), vec!["B"]);
    assert_eq!(p.config.character_hotkeys.get("A"), None);
    assert_eq!(p.config.character_hotkeys.get("B"), Some(&hotkey(0x71)));
    assert_eq!(p.last_change, Some(5));
}

#[test]
fn new_characters_are_trimmed_and_take_part() {
    let mut p = panel(&["A"]);
    p.new_character_buffer = "  Main Character\t".into();
    p.add_character(1);
    assert_eq!(names(&p), vec!["A", "Main Character"]);
    assert!(p.config.characters[1].in_cycle);
    assert_eq!(p.new_character_buffer, "");
    p.new_character_buffer = "   ".into();
    p.add_character(2);
    assert_eq!(p.config.characters.len(), 2);
    assert_eq!(p.new_character_buffer, "   ");
    assert_eq!(p.last_change, Some(1));
}

#[test]
fn scouts_leave_and_join_the_cycle() {
    let mut p = panel(&["A"]);
    p.set_in_cycle(0, true, 1);
    assert_eq!(p.last_change, None);
    p.set_in_cycle(0, false, 2);
    assert!(!p.config.characters[0].in_cycle);
    assert_eq!(p.last_change, Some(2));
}

#[test]
fn modifiers_can_be_chosen_before_a_key() {
    let mut p = panel(&["A"]);
    assert_eq!(p.hotkey_text("A"), "none");
    p.set_hotkey_modifiers("A", false, false, false, 1);
    assert_eq!(p.last_change, None);
    p.set_hotkey_modifiers("A", true, false, true, 2);
    assert_eq!(p.hotkey_text("A"), "none");
    assert_eq!(p.last_change, Some(2));
    p.config.character_hotkeys.insert(
        "A".into(),
        CharacterHotkey { vk: 0x70, ctrl: true, shift: false, alt: true },
    );
    assert_eq!(p.hotkey_text("A"), "Ctrl+Alt+F1");
    p.set_hotkey_modifiers("A", false, true, false, 3);
    assert_eq!(p.hotkey_text("A"), "Shift+F1");
    p.clear_hotkey("A", 4);
    assert_eq!(p.config.character_hotkeys.get("A"), None);
    p.clear_hotkey("A", 5);
    assert_eq!(p.last_change, Some(4));
}
