use nicotine::config::{
    CharacterEntry, CharacterHotkey, Config, ConfigError, DisplayMode, LiveSettings, RawCharacter,
    RawConfig, RawHotkey, Required,
};
use nicotine::name_map::NameMap;

fn sample_config() -> Config {
    Config {
        display_width: 1920,
        display_height: 1080,
        panel_height: 40,
        eve_width: 1000,
        eve_height: 1080,
        enable_mouse_buttons: false,
        forward_button: 2,
        backward_button: 1,
        enable_keyboard_buttons: true,
        forward_key: 0x7A,
        backward_key: 0x79,
        minimize_inactive: false,
        modifier_key: None,
        preview_width: 320,
        preview_height: 180,
        show_previews: true,
        characters: Vec::new(),
        display_mode: DisplayMode::Previews,
        positions_locked: false,
        character_hotkeys: NameMap::new(),
    }
}

fn number(table: &toml::Table, key: &str) -> Option<u32> {
    table.get(key).map(|v| u32::try_from(v.as_integer().unwrap()).unwrap())
}

fn code(table: &toml::Table, key: &str) -> Option<u16> {
    table.get(key).map(|v| u16::try_from(v.as_integer().unwrap()).unwrap())
}

fn flag(table: &toml::Table, key: &str) -> Option<bool> {
    table.get(key).map(|v| v.as_bool().unwrap())
}

fn raw_character(value: &toml::Value) -> RawCharacter {
    match value.as_str() {
        Some(name) => RawCharacter::Name(name.to_string()),
        None => {
            let table = value.as_table().unwrap();
            RawCharacter::Entry {
                name: table["name"].as_str().unwrap().to_string(),
                in_cycle: flag(table, "in_cycle"),
            }
        }
    }
}

fn raw_hotkey(value: &toml::Value) -> RawHotkey {
    let table = value.as_table().unwrap();
    RawHotkey {
        vk: code(table, "vk").unwrap(),
        ctrl: flag(table, "ctrl").unwrap_or(false),
        shift: flag(table, "shift").unwrap_or(false),
        alt: flag(table, "alt").unwrap_or(false),
        modifier: code(table, "modifier"),
    }
}

fn read(source: &str) -> RawConfig {
    let t: toml::Table = toml::from_str(source).unwrap();
    RawConfig {
        display_width: number(&t, "display_width"),
        display_height: number(&t, "display_height"),
        panel_height: number(&t, "panel_height"),
        eve_width: number(&t, "eve_width"),
        eve_height: number(&t, "eve_height"),
        enable_mouse_buttons: flag(&t, "enable_mouse_buttons"),
        forward_button: code(&t, "forward_button"),
        backward_button: code(&t, "backward_button"),
        enable_keyboard_buttons: flag(&t, "enable_keyboard_buttons"),
        forward_key: code(&t, "forward_key"),
        backward_key: code(&t, "backward_key"),
        minimize_inactive: flag(&t, "minimize_inactive"),
        modifier_key: code(&t, "modifier_key"),
        preview_width: number(&t, "preview_width"),
        preview_height: number(&t, "preview_height"),
        show_previews: flag(&t, "show_previews"),
        characters: t
            .get("characters")
            .map(|v| v.as_array().unwrap().iter().map(raw_character).collect()),
        display_mode: t.get("display_mode").map(|v| match v.as_str().unwrap() {
            "Previews" => DisplayMode::Previews,
            "List" => DisplayMode::List,
            other => panic!("{other}"),
        }),
        positions_locked: flag(&t, "positions_locked"),
        character_hotkeys: t.get("character_hotkeys").map(|v| {
            v.as_table()
                .unwrap()
                .iter()
                .map(|(name, hotkey)| (name.clone(), raw_hotkey(hotkey)))
                .collect()
        }),
    }
}

fn put<T: Into<toml::Value>>(table: &mut toml::Table, key: &str, value: Option<T>) {
    if let Some(value) = value {
        table.insert(key.to_string(), value.into());
    }
}

fn written(raw: RawConfig) -> String {
    let mut t = toml::Table::new();
    put(&mut t, "display_width", raw.display_width);
    put(&mut t, "display_height", raw.display_height);
    put(&mut t, "panel_height", raw.panel_height);
    put(&mut t, "eve_width", raw.eve_width);
    put(&mut t, "eve_height", raw.eve_height);
    put(&mut t, "enable_mouse_buttons", raw.enable_mouse_buttons);
    put(&mut t, "forward_button", raw.forward_button.map(u32::from));
    put(&mut t, "backward_button", raw.backward_button.map(u32::from));
    put(&mut t, "enable_keyboard_buttons", raw.enable_keyboard_buttons);
    put(&mut t, "forward_key", raw.forward_key.map(u32::from));
    put(&mut t, "backward_key", raw.backward_key.map(u32::from));
    put(&mut t, "minimize_inactive", raw.minimize_inactive);
    put(&mut t, "modifier_key", raw.modifier_key.map(u32::from));
    put(&mut t, "preview_width", raw.preview_width);
    put(&mut t, "preview_height", raw.preview_height);
    put(&mut t, "show_previews", raw.show_previews);
    put(&mut t, "positions_locked", raw.positions_locked);
    put(
        &mut t,
        "display_mode",
        raw.display_mode.map(|mode| match mode {
            DisplayMode::Previews => "Previews",
            DisplayMode::List => "List",
        }),
    );
    let characters: Option<Vec<toml::Value>> = raw.characters.map(|list| {
        list.into_iter()
            .map(|character| match character {
                RawCharacter::Name(name) => toml::Value::from(name),
                RawCharacter::Entry { name, in_cycle } => {
                    let mut entry = toml::Table::new();
                    put(&mut entry, "name", Some(name));
                    put(&mut entry, "in_cycle", in_cycle);
                    toml::Value::Table(entry)
                }
            })
            .collect()
    });
    put(&mut t, "characters", characters);
    let hotkeys: Option<toml::Table> = raw.character_hotkeys.map(|list| {
        list.into_iter()
            .map(|(name, hotkey)| {
                let mut entry = toml::Table::new();
                put(&mut entry, "vk", Some(u32::from(hotkey.vk)));
                put(&mut entry, "ctrl", Some(hotkey.ctrl));
                put(&mut entry, "shift", Some(hotkey.shift));
                put(&mut entry, "alt", Some(hotkey.alt));
                put(&mut entry, "modifier", hotkey.modifier.map(u32::from));
                (name, toml::Value::Table(entry))
            })
            .collect()
    });
    put(&mut t, "character_hotkeys", hotkeys);
    toml::to_string(&t).unwrap()
}

const REQUIRED: &str = "\
display_width = 1920\n\
display_height = 1080\n\
panel_height = 0\n\
eve_width = 1000\n\
eve_height = 1080\n";

#[test]
fn test_eve_height_adjusted_with_panel() {
    let config = sample_config();
    // Height should be: 1080 - 40 = 1040
    assert_eq!(config.eve_height_adjusted(), 1040);
}

#[test]
fn test_eve_height_adjusted_without_panel() {
    let mut config = sample_config();
    config.panel_height = 0;
    assert_eq!(config.eve_height_adjusted(), 1080);
}

#[test]
fn test_config_serialization() {
    let mut config = sample_config();
    config.display_width = 7680;
    config.display_height = 2160;
    config.panel_height = 0;
    config.eve_width = 4147;
    config.eve_height = 2160;

    let toml_str = written(config.save());
    let deserialized = Config::from_raw(read(&toml_str)).unwrap();

    assert_eq!(deserialized.display_width, 7680);
    assert_eq!(deserialized.display_height, 2160);
    assert_eq!(deserialized.eve_width, 4147);
}

#[test]
fn legacy_character_strings_deserialize_as_in_cycle() {
    let toml_src = "\
display_width = 1920\n\
display_height = 1080\n\
panel_height = 0\n\
eve_width = 1000\n\
eve_height = 1080\n\
characters = [\"Alpha\", \"Beta\"]\n";
    let c = Config::from_raw(read(toml_src)).unwrap();
    assert_eq!(c.characters.len(), 2);
    assert_eq!(c.characters[0].name, "Alpha");
    assert!(c.characters[0].in_cycle);
    assert!(c.characters[1].in_cycle);
}

#[test]
fn legacy_hotkey_modifier_translates_to_bool() {
    let toml_src = "\
display_width = 1920\n\
display_height = 1080\n\
panel_height = 0\n\
eve_width = 1000\n\
eve_height = 1080\n\
[character_hotkeys.Alpha]\n\
vk = 0x70\n\
modifier = 0x11\n";
    let c = Config::from_raw(read(toml_src)).unwrap();
    let hk = c.character_hotkeys.get("Alpha").unwrap();
    assert_eq!(hk.vk, 0x70);
    assert!(hk.ctrl);
    assert!(!hk.shift);
    assert!(!hk.alt);
}

#[test]
fn scout_entry_round_trips() {
    let mut config = sample_config();
    config.characters = vec![
        CharacterEntry::new("Cycler".into()),
        CharacterEntry {
            name: "Scout".into(),
            in_cycle: false,
        },
    ];
    let toml_str = written(config.save());
    let back = Config::from_raw(read(&toml_str)).unwrap();
    assert_eq!(back.characters[0].name, "Cycler");
    assert!(back.characters[0].in_cycle);
    assert_eq!(back.characters[1].name, "Scout");
    assert!(!back.characters[1].in_cycle);
}

#[test]
fn names_and_tables_may_be_mixed() {
    let source = format!(
        "{REQUIRED}characters = [\"Main\", {{ name = \"Scout\", in_cycle = false }}, {{ name = \"Alt\" }}]\n"
    );
    let config = Config::from_raw(read(&source)).unwrap();
    let seen: Vec<(&str, bool)> =
        config.characters.iter().map(|c| (c.name.as_str(), c.in_cycle)).collect();
    assert_eq!(seen, vec![("Main", true), ("Scout", false), ("Alt", true)]);
}

#[test]
fn missing_settings_take_their_defaults() {
    let config = Config::from_raw(read(REQUIRED)).unwrap();
    assert!(!config.enable_mouse_buttons);
    assert_eq!(config.forward_button, 2);
    assert_eq!(config.backward_button, 1);
    assert!(config.enable_keyboard_buttons);
    assert_eq!(config.forward_key, 0x7A);
    assert_eq!(config.backward_key, 0x79);
    assert!(!config.minimize_inactive);
    assert_eq!(config.modifier_key, None);
    assert_eq!(config.preview_width, 320);
    assert_eq!(config.preview_height, 180);
    assert!(config.show_previews);
    assert!(config.characters.is_empty());
    assert_eq!(config.display_mode, DisplayMode::Previews);
    assert!(!config.positions_locked);
    assert!(config.character_hotkeys.names().is_empty());
}

#[test]
fn required_settings_are_asked_for_in_turn() {
    let cases = [
        ("display_width", Required::DisplayWidth),
        ("display_height", Required::DisplayHeight),
        ("panel_height", Required::PanelHeight),
        ("eve_width", Required::EveWidth),
        ("eve_height", Required::EveHeight),
    ];
    for (key, missing) in cases {
        let source: String = REQUIRED
            .lines()
            .filter(|line| !line.starts_with(&format!("{key} ")))
            .map(|line| format!("{line}\n"))
            .collect();
        match Config::load(Some(Ok(read(&source))), 0, 0) {
            Err(ConfigError::Missing(which)) => assert_eq!(which, missing),
            other => panic!("{other:?}"),
        }
    }
}

#[test]
fn an_unreadable_file_is_an_error() {
    match Config::load(Some(Err("line 3".to_string())), 1920, 1080) {
        Err(ConfigError::Malformed(reason)) => assert_eq!(reason, "line 3"),
        other => panic!("{other:?}"),
    }
}

#[test]
fn without_a_file_the_display_decides() {
    let loaded = Config::load(None, 1920, 1080).unwrap();
    assert!(loaded.fresh);
    assert_eq!(loaded.config.display_width, 1920);
    assert_eq!(loaded.config.display_height, 1080);
    assert_eq!(loaded.config.panel_height, 0);
    assert_eq!(loaded.config.eve_width, 1037);
    assert_eq!(loaded.config.eve_height, 1080);
    let stored = Config::load(Some(Ok(read(REQUIRED))), 2560, 1440).unwrap();
    assert!(!stored.fresh);
    assert_eq!(stored.config.display_width, 1920);
}

#[test]
fn client_width_is_54_percent_of_the_display() {
    assert_eq!(Config::build_default(1920, 1080).eve_width, 1037);
    assert_eq!(Config::build_default(7680, 2160).eve_width, 4147);
    assert_eq!(Config::build_default(2560, 1440).eve_width, 1382);
    assert_eq!(Config::build_default(0, 0).eve_width, 0);
    assert!(Config::build_default(u32::MAX, 1).eve_width < u32::MAX);
}

#[test]
fn an_unknown_display_is_taken_for_full_hd() {
    assert_eq!(Config::detect_display_size(2560, 1440), (2560, 1440));
    assert_eq!(Config::detect_display_size(0, 1440), (1920, 1080));
    assert_eq!(Config::detect_display_size(2560, -1), (1920, 1080));
}

#[test]
fn the_default_file_is_complete() {
    let text = written(Config::save_default(1920, 1080));
    let config = Config::from_raw(read(&text)).unwrap();
    assert_eq!(config.eve_width, 1037);
    let raw = read(&text);
    assert_eq!(raw.preview_width, Some(320));
    assert_eq!(raw.preview_height, Some(180));
    assert_eq!(raw.forward_key, Some(0x7A));
    assert_eq!(raw.display_mode, Some(DisplayMode::Previews));
    assert_eq!(raw.positions_locked, Some(false));
    assert_eq!(raw.modifier_key, None);
}

#[test]
fn what_is_saved_is_loaded() {
    let mut config = sample_config();
    config.modifier_key = Some(0x10);
    config.display_mode = DisplayMode::List;
    config.positions_locked = true;
    config.characters = vec![CharacterEntry::new("A".into())];
    let hotkey = CharacterHotkey { vk: 0x61, ctrl: true, shift: false, alt: true };
    config.character_hotkeys.insert("A".into(), hotkey);
    let back = Config::from_raw(read(&written(config.save()))).unwrap();
    assert_eq!(back.modifier_key, Some(0x10));
    assert_eq!(back.display_mode, DisplayMode::List);
    assert!(back.positions_locked);
    assert_eq!(back.characters, config.characters);
    assert_eq!(back.character_hotkeys.get("A"), Some(&hotkey));
    assert_eq!(back.panel_height, 40);
}

#[test]
fn older_modifier_codes_become_flags() {
    let key = |modifier| RawHotkey { vk: 0x70, ctrl: false, shift: false, alt: false, modifier };
    for code in [0x10, 0xA0, 0xA1] {
        let hotkey = CharacterHotkey::from_raw(key(Some(code)));
        assert_eq!((hotkey.ctrl, hotkey.shift, hotkey.alt), (false, true, false));
    }
    for code in [0x11, 0xA2, 0xA3] {
        let hotkey = CharacterHotkey::from_raw(key(Some(code)));
        assert_eq!((hotkey.ctrl, hotkey.shift, hotkey.alt), (true, false, false));
    }
    for code in [0x12, 0xA4, 0xA5] {
        let hotkey = CharacterHotkey::from_raw(key(Some(code)));
        assert_eq!((hotkey.ctrl, hotkey.shift, hotkey.alt), (false, false, true));
    }
    for code in [0, 0x41, 0xA6] {
        let hotkey = CharacterHotkey::from_raw(key(Some(code)));
        assert_eq!((hotkey.ctrl, hotkey.shift, hotkey.alt), (false, false, false));
    }
    let both = RawHotkey { vk: 1, ctrl: true, shift: false, alt: false, modifier: Some(0x12) };
    assert_eq!(
        CharacterHotkey::from_raw(both),
        CharacterHotkey { vk: 1, ctrl: true, shift: false, alt: true }
    );
    assert_eq!(CharacterHotkey::from_raw(both).to_raw().modifier, None);
}

#[test]
fn live_settings_come_from_the_configuration() {
    let mut config = sample_config();
    config.preview_width = 400;
    config.preview_height = 225;
    config.display_mode = DisplayMode::List;
    config.positions_locked = true;
    assert_eq!(
        LiveSettings::from_config(&config),
        LiveSettings {
            preview_width: 400,
            preview_height: 225,
            display_mode: DisplayMode::List,
            positions_locked: true,
        }
    );
}

#[test]
fn a_later_entry_for_a_name_wins() {
    let mut map: NameMap<u32> = NameMap::new();
    map.insert("a".into(), 1);
    map.insert("b".into(), 2);
    map.insert("a".into(), 3);
    assert_eq!(map.get("a"), Some(&3));
    assert_eq!(map.names().len(), 2);
    assert!(map.contains_key("b"));
    assert_eq!(map.remove("b"), Some(2));
    assert_eq!(map.remove("b"), None);
    assert!(!map.contains_key("b"));
    assert_eq!(map.clone().get("a"), Some(&3));
}
