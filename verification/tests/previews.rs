use nicotine::config::{Config, DisplayMode, LiveSettings};
use nicotine::cycle_state::{CycleState, CycleStep};
use nicotine::geometry::Screen;
use nicotine::painting::ListMetrics;
use nicotine::preview_windows::{
    list_spawn_position, ListUpdate, PreviewAction, PreviewManager, PreviewPositions,
    RawPositions, SpawnPlace, Teardown, RECONCILE_INTERVAL_MS, RECONCILE_TIMER_ID,
};
use nicotine::window_manager::EveWindow;

const SCREEN: Screen = Screen { x: 0, y: 0, width: 1920, height: 1080 };

const METRICS: ListMetrics = ListMetrics {
    title_height: 24,
    row_height: 24,
    padding: 6,
    top_gap: 2,
    left_pad: 10,
    right_pad: 6,
};

fn window(id: u32, title: &str) -> EveWindow {
    EveWindow { id, title: title.to_string() }
}

fn live(mode: DisplayMode) -> LiveSettings {
    LiveSettings {
        preview_width: 320,
        preview_height: 180,
        display_mode: mode,
        positions_locked: false,
    }
}

fn manager(mode: DisplayMode) -> PreviewManager {
    PreviewManager::new(&Config::build_default(1920, 1080), live(mode), true)
}

fn catch_up(m: &mut PreviewManager, windows: &Vec<EveWindow>) -> Vec<PreviewAction> {
    m.retain_live(windows);
    windows
        .iter()
        .map(|w| {
            let action = m.preview_action(w);
            m.settle_window(w, true);
            action
        })
        .collect()
}

#[test]
fn positions_are_remembered_by_name() {
    let mut positions = PreviewPositions::default();
    assert_eq!(positions.get("A"), None);
    positions.set("A".into(), 10, 20);
    positions.set("B".into(), 30, 40);
    positions.set("A".into(), 50, 60);
    assert_eq!(positions.get("A"), Some((50, 60)));
    assert_eq!(positions.get("B"), Some((30, 40)));
    assert_eq!(positions.get("C"), None);
}

#[test]
fn saved_positions_are_loaded() {
    let mut positions = PreviewPositions::default();
    positions.set("A".into(), -5, 7);
    positions.list_position = Some((1, 2));
    let back = PreviewPositions::load(Some(positions.save()));
    assert_eq!(back.get("A"), Some((-5, 7)));
    assert_eq!(back.list_position, Some((1, 2)));
    let none = PreviewPositions::load(None);
    assert_eq!(none.get("A"), None);
    assert_eq!(none.list_position, None);
    let empty = RawPositions { positions: None, list_position: Some((3, 4)) };
    assert_eq!(PreviewPositions::load(Some(empty)).list_position, Some((3, 4)));
}

#[test]
fn new_previews_stand_on_a_diagonal() {
    let mut m = manager(DisplayMode::Previews);
    let mut positions = PreviewPositions::default();
    for k in 0..25 {
        assert_eq!(
            m.spawn_position(&positions, "New", SCREEN),
            SpawnPlace::Diagonal { distance: 10 + 32 * (k % 10) }
        );
    }
    positions.set("Old".into(), 700, 300);
    positions.set("Lost".into(), 65000, 1000);
    assert_eq!(m.spawn_position(&positions, "Old", SCREEN), SpawnPlace::Saved { x: 700, y: 300 });
    assert_eq!(
        m.spawn_position(&positions, "Lost", SCREEN),
        SpawnPlace::Diagonal { distance: 170 }
    );
    assert_eq!(m.preview_size(), (320, 180));
}

#[test]
fn the_list_comes_back_where_it_was() {
    let mut positions = PreviewPositions::default();
    assert_eq!(list_spawn_position(&positions, SCREEN), (20, 20));
    positions.list_position = Some((400, 500));
    assert_eq!(list_spawn_position(&positions, SCREEN), (400, 500));
    positions.list_position = Some((1920, 500));
    assert_eq!(list_spawn_position(&positions, SCREEN), (20, 20));
}

#[test]
fn previews_follow_the_clients() {
    let mut m = manager(DisplayMode::Previews);
    let both = vec![window(1, "A"), window(2, "B")];
    assert_eq!(catch_up(&mut m, &both), vec![PreviewAction::Create, PreviewAction::Create]);
    assert_eq!(catch_up(&mut m, &both), vec![PreviewAction::Keep, PreviewAction::Keep]);
    let moved = vec![window(7, "A")];
    assert_eq!(m.retain_live(&moved), vec!["B".to_string()]);
    assert_eq!(m.preview_action(&moved[0]), PreviewAction::Rebind);
    m.settle_window(&moved[0], true);
    assert_eq!(m.preview_action(&moved[0]), PreviewAction::Keep);
    assert_eq!(m.preview_action(&both[1]), PreviewAction::Create);
}

#[test]
fn a_preview_that_could_not_be_made_is_tried_again() {
    let mut m = manager(DisplayMode::Previews);
    m.settle_window(&window(1, "A"), false);
    assert_eq!(m.preview_action(&window(1, "A")), PreviewAction::Create);
    m.settle_window(&window(1, "A"), true);
    m.settle_window(&window(2, "A"), false);
    assert_eq!(m.preview_action(&window(1, "A")), PreviewAction::Create);
}

#[test]
fn the_highlight_follows_the_focus() {
    let mut m = manager(DisplayMode::Previews);
    let mut state = CycleState::new();
    state.update_windows(vec![window(1, "A"), window(2, "B")]);
    catch_up(&mut m, &state.get_windows());
    let change = m.update_active(&mut state, 1);
    assert_eq!(change.flipped, vec![("A".to_string(), true)]);
    assert!(!change.repaint_list);
    assert_eq!(m.active_id(), 1);
    assert!(m.update_active(&mut state, 1).flipped.is_empty());
    let mut flipped = m.update_active(&mut state, 2).flipped;
    flipped.sort();
    assert_eq!(flipped, vec![("A".to_string(), false), ("B".to_string(), true)]);
    assert_eq!(m.update_active(&mut state, 99).flipped, vec![("B".to_string(), false)]);
    assert_eq!(state.cycle_forward(false), CycleStep { activate: Some(1), minimize: None });
}

#[test]
fn modes_take_turns() {
    let mut m = manager(DisplayMode::Previews);
    catch_up(&mut m, &vec![window(1, "A")]);
    assert_eq!(m.switch_mode(DisplayMode::Previews), Teardown::Nothing);
    assert_eq!(m.switch_mode(DisplayMode::List), Teardown::Previews);
    assert_eq!(m.preview_action(&window(1, "A")), PreviewAction::Create);
    assert!(m.needs_list());
    m.list_opened();
    assert!(!m.needs_list());
    assert_eq!(m.switch_mode(DisplayMode::Previews), Teardown::List);
    assert!(m.needs_list());
}

#[test]
fn the_list_changes_only_with_the_clients() {
    let mut m = manager(DisplayMode::List);
    m.list_opened();
    let two = vec![window(1, "A"), window(2, "B")];
    assert_eq!(
        m.reconcile_list(&two, 54, &METRICS),
        ListUpdate { resize: Some(78), repaint: true }
    );
    assert_eq!(
        m.reconcile_list(&two, 54, &METRICS),
        ListUpdate { resize: None, repaint: false }
    );
    let swapped = vec![window(2, "B"), window(1, "A")];
    assert_eq!(
        m.reconcile_list(&swapped, 78, &METRICS),
        ListUpdate { resize: None, repaint: true }
    );
    let mut state = CycleState::new();
    assert!(m.update_active(&mut state, 2).repaint_list);
    assert!(!m.update_active(&mut state, 2).repaint_list);
}

#[test]
fn live_settings_are_applied_once() {
    let mut m = manager(DisplayMode::Previews);
    let mut settings = live(DisplayMode::Previews);
    assert_eq!(m.apply_live_size(settings), None);
    settings.preview_width = 400;
    assert_eq!(m.apply_live_size(settings), Some((400, 180)));
    assert_eq!(m.apply_live_size(settings), None);
    assert_eq!(m.preview_size(), (400, 180));
    assert_eq!(m.apply_live_show_names(true), None);
    assert_eq!(m.apply_live_show_names(false), Some(false));
    assert!(!m.show_names());
    assert_eq!((RECONCILE_TIMER_ID, RECONCILE_INTERVAL_MS), (1, 100));
}
