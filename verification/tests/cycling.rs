use nicotine::config::{CharacterEntry, Config};
use nicotine::cycle_state::{cycle_order, run_cycle_direct, CycleOp, CycleState, CycleStep};
use nicotine::window_manager::{stack_placement, stack_windows, EveWindow, Placement};

fn windows(list: &[(u32, &str)]) -> Vec<EveWindow> {
    list.iter().map(|(id, title)| EveWindow { id: *id, title: title.to_string() }).collect()
}

fn order(list: &[(&str, bool)]) -> Option<Vec<CharacterEntry>> {
    Some(
        list.iter()
            .map(|(name, in_cycle)| CharacterEntry { name: name.to_string(), in_cycle: *in_cycle })
            .collect(),
    )
}

fn to(id: u32) -> CycleStep {
    CycleStep { activate: Some(id), minimize: None }
}

fn nowhere() -> CycleStep {
    CycleStep { activate: None, minimize: None }
}

#[test]
fn cycling_goes_round() {
    let mut state = CycleState::new();
    state.update_windows(windows(&[(1, "A"), (2, "B"), (3, "C")]));
    assert_eq!(state.cycle_forward(false), to(1));
    assert_eq!(state.cycle_forward(false), to(2));
    assert_eq!(state.cycle_forward(false), to(3));
    assert_eq!(state.cycle_forward(false), to(1));
    assert_eq!(state.cycle_backward(false), to(3));
    assert_eq!(state.cycle_backward(false), to(2));
}

#[test]
fn without_clients_nothing_happens() {
    let mut state = CycleState::new();
    assert_eq!(state.cycle_forward(true), nowhere());
    assert_eq!(state.cycle_backward(true), nowhere());
    assert_eq!(state.switch_to(1, true, &None), nowhere());
    state.set_character_order(order(&[("Scout", false)]));
    state.update_windows(windows(&[(1, "Scout")]));
    assert_eq!(state.cycle_forward(false), nowhere());
}

#[test]
fn scouts_are_stepped_over() {
    let mut state = CycleState::new();
    state.set_character_order(order(&[("A", true), ("Scout", false), ("B", true)]));
    state.update_windows(windows(&[(3, "B"), (2, "Scout"), (1, "A")]));
    let seen: Vec<u32> = state.get_ordered_windows().iter().map(|w| w.id).collect();
    assert_eq!(seen, vec![1, 2, 3]);
    assert_eq!(state.cycle_forward(false), to(1));
    assert_eq!(state.cycle_forward(false), to(3));
    assert_eq!(state.cycle_forward(false), to(1));
    assert_eq!(state.cycle_backward(false), to(3));
}

#[test]
fn the_list_orders_and_others_follow() {
    let mut state = CycleState::new();
    state.set_character_order(order(&[("B", true), ("A", true)]));
    state.update_windows(windows(&[(9, "X"), (1, "A"), (8, "Y"), (2, "B")]));
    let ids: Vec<u32> = state.get_ordered_windows().iter().map(|w| w.id).collect();
    assert_eq!(ids, vec![2, 1, 9, 8]);
    let found: Vec<u32> = state.get_windows().iter().map(|w| w.id).collect();
    assert_eq!(found, vec![9, 1, 8, 2]);
}

#[test]
fn cycling_goes_on_from_the_focus() {
    let mut state = CycleState::new();
    state.update_windows(windows(&[(1, "A"), (2, "B"), (3, "C")]));
    state.cycle_forward(false);
    state.sync_with_active(2);
    state.sync_with_active(77);
    assert_eq!(state.cycle_forward(false), to(3));
}

#[test]
fn the_client_that_is_left_is_minimized() {
    let mut state = CycleState::new();
    state.update_windows(windows(&[(1, "A"), (2, "B")]));
    assert_eq!(state.cycle_forward(true), to(1));
    assert_eq!(state.cycle_forward(true), CycleStep { activate: Some(2), minimize: Some(1) });
    state.update_windows(windows(&[(1, "A")]));
    assert_eq!(state.cycle_forward(true), to(1));
    assert_eq!(state.cycle_forward(true), to(1));
}

#[test]
fn numbers_go_by_the_list() {
    let list = order(&[("A", true), ("Scout", false), ("Gone", true)]);
    let mut state = CycleState::new();
    state.set_character_order(list.clone());
    state.update_windows(windows(&[(5, "X"), (2, "Scout"), (1, "A")]));
    assert_eq!(state.switch_to(1, false, &list), to(1));
    assert_eq!(state.switch_to(2, false, &list), to(2));
    assert_eq!(state.switch_to(3, false, &list), nowhere());
    assert_eq!(state.switch_to(4, false, &list), nowhere());
    assert_eq!(state.switch_to(0, false, &list), nowhere());
    assert_eq!(state.switch_to(1, true, &list), CycleStep { activate: Some(1), minimize: Some(2) });
}

#[test]
fn without_a_list_numbers_go_by_detection() {
    let mut state = CycleState::new();
    state.update_windows(windows(&[(5, "X"), (2, "B")]));
    assert_eq!(state.switch_to(1, false, &None), to(5));
    assert_eq!(state.switch_to(2, false, &None), to(2));
    assert_eq!(state.switch_to(3, false, &None), nowhere());
    assert_eq!(state.switch_to(0, false, &None), nowhere());
}

#[test]
fn one_command_by_itself_starts_from_the_focus() {
    let mut config = Config::build_default(1920, 1080);
    let all = || windows(&[(1, "A"), (2, "B"), (3, "C")]);
    assert_eq!(run_cycle_direct(all(), Some(2), &config, CycleOp::Forward), to(3));
    assert_eq!(run_cycle_direct(all(), Some(2), &config, CycleOp::Backward), to(1));
    assert_eq!(run_cycle_direct(all(), Some(9), &config, CycleOp::Forward), to(1));
    assert_eq!(run_cycle_direct(all(), None, &config, CycleOp::Backward), to(3));
    assert_eq!(run_cycle_direct(all(), None, &config, CycleOp::Switch(2)), to(2));
    assert_eq!(run_cycle_direct(Vec::new(), Some(1), &config, CycleOp::Forward), nowhere());
    assert!(cycle_order(&config).is_none());
    config.characters = vec![CharacterEntry::new("C".into()), CharacterEntry::new("A".into())];
    config.minimize_inactive = true;
    assert_eq!(
        run_cycle_direct(all(), Some(3), &config, CycleOp::Forward),
        CycleStep { activate: Some(1), minimize: Some(3) }
    );
    assert_eq!(run_cycle_direct(all(), None, &config, CycleOp::Switch(1)), to(3));
    assert_eq!(cycle_order(&config).unwrap().len(), 2);
}

#[test]
fn clients_are_stacked_in_the_middle() {
    let mut config = Config::build_default(1920, 1080);
    config.eve_width = 1000;
    config.panel_height = 40;
    let place = Placement { x: 460, y: 0, width: 1000, height: 1040 };
    assert_eq!(stack_placement(&config), place);
    assert_eq!(
        stack_windows(&windows(&[(4, "A"), (7, "B")]), &config),
        vec![(4, place), (7, place)]
    );
    config.eve_width = 1037;
    assert_eq!(stack_placement(&config).x, 441);
    assert!(stack_windows(&Vec::new(), &config).is_empty());
}
