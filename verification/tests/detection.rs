use nicotine::config::DetectionMode;
use nicotine::windows_manager::{
    begin_activation, hwnd_to_id, id_to_hwnd, input_to_share, lowered_program, mode_from_u8,
    mode_to_u8, normalize_exe, normalize_extras, process_exe_filename, read_window_title,
    Activation, DetectionCells, DetectionConfig, ScannedWindow, WindowsManager,
};

fn window(handle: usize, title: &str, exe: Option<&str>) -> ScannedWindow {
    ScannedWindow {
        handle,
        visible: true,
        title: title.to_string(),
        exe: exe.map(|e| e.to_string()),
    }
}

fn found(
    manager: &WindowsManager,
    cells: &DetectionCells,
    report: Vec<ScannedWindow>,
) -> Vec<(u32, String)> {
    manager.get_eve_windows(cells, &report).into_iter().map(|w| (w.id, w.title)).collect()
}

fn units(s: &str) -> Vec<u16> {
    s.encode_utf16().collect()
}

#[test]
fn modes_come_back_from_their_numbers() {
    assert_eq!(mode_to_u8(DetectionMode::Title), 0);
    assert_eq!(mode_to_u8(DetectionMode::Process), 1);
    assert_eq!(mode_from_u8(0), DetectionMode::Title);
    assert_eq!(mode_from_u8(1), DetectionMode::Process);
    assert_eq!(mode_from_u8(200), DetectionMode::Title);
}

#[test]
fn program_names_take_one_form() {
    assert_eq!(normalize_exe("  InnerSpace "), "innerspace.exe");
    assert_eq!(normalize_exe("ISBoxer.EXE"), "isboxer.exe");
    assert_eq!(normalize_exe("   "), "");
    assert_eq!(normalize_exe(".exe"), ".exe");
    assert_eq!(normalize_exe(&normalize_exe("A b")), "a b.exe");
    assert_eq!(
        normalize_extras(vec!["One".into(), "  ".into(), "two.exe".into()]),
        vec!["one.exe".to_string(), "two.exe".to_string()]
    );
}

#[test]
fn clients_are_found_by_their_title() {
    let mut cells = DetectionCells::new();
    let manager = WindowsManager::new(&mut cells, DetectionMode::Title, Vec::new());
    let mut hidden = window(9, "EVE - Hidden", None);
    hidden.visible = false;
    let report = vec![
        window(1, "EVE - Main Character", None),
        window(2, "EVE - Launcher", None),
        window(3, "Notepad", Some("exefile.exe")),
        window(4, "", None),
        hidden,
        window(5, "EVE - ", None),
        window(0x1_0000_0006, "EVE - Alt", None),
    ];
    assert_eq!(
        found(&manager, &cells, report),
        vec![
            (1, "Main Character".to_string()),
            (5, String::new()),
            (6, "Alt".to_string()),
        ]
    );
}

#[test]
fn clients_are_found_by_their_program() {
    let mut cells = DetectionCells::new();
    let manager =
        WindowsManager::new(&mut cells, DetectionMode::Process, vec!["MyEve".into()]);
    let report = || {
        vec![
            window(1, "EVE - Main", Some("ExeFile.exe")),
            window(2, "Character Set 1", Some("myeve.exe")),
            window(3, "EVE - Fake", Some("notepad.exe")),
            window(4, "EVE - Denied", None),
            window(5, "", Some("exefile.exe")),
        ]
    };
    assert_eq!(
        found(&manager, &cells, report()),
        vec![(1, "Main".to_string()), (2, "Character Set 1".to_string())]
    );
    assert!(manager.needs_program(&cells, true, "x"));
    assert!(!manager.needs_program(&cells, false, "x"));
    assert!(!manager.needs_program(&cells, true, ""));
    manager.detection_config().update(&mut cells, DetectionMode::Title, Vec::new());
    assert_eq!(found(&manager, &cells, report()).len(), 3);
    assert!(!manager.needs_program(&cells, true, "x"));
}

#[test]
fn detection_settings_are_replaced() {
    let mut cells = DetectionCells::new();
    let detection = DetectionConfig::new(&mut cells, DetectionMode::Title, vec!["A".into()]);
    assert!(detection.belongs_to(&cells));
    assert!(!detection.belongs_to(&DetectionCells::new()));
    assert_eq!(detection.current_mode(&cells), DetectionMode::Title);
    detection.update(&mut cells, DetectionMode::Process, vec!["b".into()]);
    assert_eq!(detection.current_mode(&cells), DetectionMode::Process);
    assert_eq!(detection.extras_snapshot(&cells), vec!["b.exe".to_string()]);
}

#[test]
fn copies_of_a_handle_see_changes() {
    let mut cells = DetectionCells::new();
    let manager = WindowsManager::new(&mut cells, DetectionMode::Title, Vec::new());
    let separate = DetectionConfig::new(&mut cells, DetectionMode::Title, vec!["x".into()]);
    let earlier = manager.detection_config();
    let copy = earlier.clone();
    copy.update(&mut cells, DetectionMode::Process, vec!["My".into()]);
    for handle in [earlier, copy, manager.detection_config()] {
        assert_eq!(handle.current_mode(&cells), DetectionMode::Process);
        assert_eq!(handle.extras_snapshot(&cells), vec!["my.exe".to_string()]);
    }
    assert_eq!(separate.current_mode(&cells), DetectionMode::Title);
    assert_eq!(separate.extras_snapshot(&cells), vec!["x.exe".to_string()]);
    let report = vec![window(1, "Set 1", Some("my.exe")), window(2, "EVE - B", None)];
    assert_eq!(found(&manager, &cells, report), vec![(1, "Set 1".to_string())]);
}

#[test]
fn window_numbers_come_back() {
    for id in [0u32, 1, 0x10_0a2c, u32::MAX] {
        assert_eq!(hwnd_to_id(id_to_hwnd(id)), id);
    }
    assert_eq!(hwnd_to_id(0x1_0000_0001), 1);
}

#[test]
fn titles_are_decoded() {
    let mut buf = units("EVE - Ωmega");
    buf.push(0);
    assert_eq!(read_window_title(11, 11, &buf), "EVE - Ωmega");
    assert_eq!(read_window_title(11, 3, &buf), "EVE");
    assert_eq!(read_window_title(0, 3, &buf), "");
    assert_eq!(read_window_title(11, 0, &buf), "");
    assert_eq!(read_window_title(-1, -1, &buf), "");
    assert_eq!(read_window_title(2, 2, &units("🚬")), "🚬");
    assert_eq!(read_window_title(1, 1, &vec![0xD800]), "\u{FFFD}");
}

#[test]
fn program_names_are_read_from_their_path() {
    let path = units("C:/EVE/SharedCache/tq/bin64/ExeFile.EXE");
    let size = path.len() as u32;
    assert_eq!(process_exe_filename(true, size, &path), Some("exefile.exe".to_string()));
    assert_eq!(process_exe_filename(false, size, &path), None);
    assert_eq!(process_exe_filename(true, 0, &path), None);
    let bare = units("Game.exe\0\0");
    assert_eq!(process_exe_filename(true, 8, &bare), Some("game.exe".to_string()));
    assert_eq!(lowered_program(Some("ABC.exe".into())), Some("abc.exe".into()));
    assert_eq!(lowered_program(None), None);
}

#[test]
fn windows_come_to_the_front() {
    assert_eq!(begin_activation(5, 5, true), Activation::Done);
    assert_eq!(begin_activation(5, 6, true), Activation::Ask { restore: true });
    assert_eq!(begin_activation(5, 0, false), Activation::Ask { restore: false });
}

#[test]
fn input_is_shared_with_other_threads_only() {
    assert_eq!(input_to_share(1, 2, 3), (true, true));
    assert_eq!(input_to_share(1, 2, 2), (true, false));
    assert_eq!(input_to_share(1, 1, 3), (false, true));
    assert_eq!(input_to_share(1, 0, 0), (false, false));
    assert_eq!(input_to_share(1, 2, 1), (true, false));
}

#[test]
fn program_paths_with_backslashes_name_their_last_component() {
    let paths = [
        "C:\\EVE\\SharedCache\\tq\\bin64\\ExeFile.exe",
        "C:\\ExeFile.exe",
        "\\ExeFile.exe",
        "EVE\\ExeFile.exe",
        "\\EVE\\ExeFile.exe",
        "C:/EVE\\bin64\\ExeFile.exe",
        "\\\\server\\games\\EVE\\ExeFile.exe",
        "\\\\server\\games\\ExeFile.exe",
    ];
    for path in paths {
        let buf = units(path);
        assert_eq!(
            process_exe_filename(true, buf.len() as u32, &buf),
            Some("exefile.exe".to_string()),
            "{path}"
        );
    }
    let buf = units("C:\\E");
    assert_eq!(process_exe_filename(true, 4, &buf), Some("e".to_string()));
    assert_eq!(lowered_program(Some("a\\B.exe".into())), Some("b.exe".into()));
}

#[test]
fn units_are_decoded_like_in_the_standard_library() {
    let parts: [u16; 12] = [
        0x0000, 0x0041, 0x03A9, 0xD7FF, 0xD800, 0xD83D, 0xDBFF, 0xDC00, 0xDEAC, 0xDFFF, 0xE000,
        0xFFFF,
    ];
    for a in parts {
        for b in parts {
            for c in parts {
                let buf = vec![a, b, c];
                assert_eq!(read_window_title(3, 3, &buf), String::from_utf16_lossy(&buf));
            }
        }
    }
    for first in 0xD800..=0xDBFFu16 {
        let buf = vec![first, 0xDC00 + (first - 0xD800)];
        assert_eq!(read_window_title(2, 2, &buf), String::from_utf16_lossy(&buf));
    }
    for unit in 0..=u16::MAX {
        let buf = vec![unit];
        assert_eq!(read_window_title(1, 1, &buf), String::from_utf16_lossy(&buf));
    }
}
