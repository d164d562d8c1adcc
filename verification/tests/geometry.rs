use nicotine::geometry::{
    position_on_screen, snap_position, unpack_xy, Area, DragState, Rect, Release, Screen,
};
use nicotine::painting::{
    chrome_color, chrome_frame, list_body_area, list_rows, list_title_area, list_window_height,
    nameplate_color, nameplate_position, nameplate_size, nameplate_text_area, thumbnail_area,
    ListMetrics, BORDER_WIDTH, INARI_BG_PRIMARY, INARI_ORANGE, INARI_TEXT, LIST_LEFT_PAD,
    LIST_PADDING, LIST_RIGHT_PAD, LIST_ROW_HEIGHT, LIST_TITLE_HEIGHT, LIST_TOP_GAP, LIST_WIDTH,
    NICOTINE_RED, SNAP_THRESHOLD,
};
use nicotine::tray::{WM_DESTROY, WM_LBUTTONUP};
use nicotine::window_manager::EveWindow;
use nicotine::window_messages::{
    collect_other_rects, is_focus_event, is_reconcile_tick, list_release, nameplate_message,
    place_dragged, preview_release, window_message, Ask, PreviewMove, PreviewRelease,
    WM_LBUTTONDOWN, WM_MOUSEMOVE, WM_PAINT, WM_TIMER,
};

fn metrics() -> ListMetrics {
    ListMetrics {
        title_height: LIST_TITLE_HEIGHT,
        row_height: LIST_ROW_HEIGHT,
        padding: LIST_PADDING,
        top_gap: LIST_TOP_GAP,
        left_pad: LIST_LEFT_PAD,
        right_pad: LIST_RIGHT_PAD,
    }
}

fn rect(left: i32, top: i32, right: i32, bottom: i32) -> Rect {
    Rect { left, top, right, bottom }
}

#[test]
fn packed_coordinates_have_a_sign() {
    assert_eq!(unpack_xy(0x0014_000a), (10, 20));
    assert_eq!(unpack_xy(0xffff_fffe_u32 as isize), (-2, -1));
    assert_eq!(unpack_xy(-1), (-1, -1));
    assert_eq!(unpack_xy(0x8000_7fff_u32 as isize), (32767, -32768));
    assert_eq!(unpack_xy(0), (0, 0));
}

#[test]
fn a_dragged_preview_docks() {
    let snap = SNAP_THRESHOLD;
    let others = vec![rect(100, 100, 420, 280)];
    // Right of the other one, with the tops in line.
    assert_eq!(snap_position(425, 95, 320, 180, &others, snap), (420, 100));
    // Left of it.
    assert_eq!(snap_position(-225, 400, 320, 180, &others, snap), (-220, 400));
    // Below it, with the left edges in line.
    assert_eq!(snap_position(108, 290, 320, 180, &others, snap), (100, 280));
    // Above it, with the right edges in line.
    assert_eq!(snap_position(215, -70, 200, 180, &others, snap), (220, -80));
    // Bottoms in line.
    assert_eq!(snap_position(600, 190, 320, 100, &others, snap), (600, 180));
    // Nothing near.
    assert_eq!(snap_position(700, 600, 320, 180, &others, snap), (700, 600));
    assert_eq!(snap_position(433, 600, 320, 180, &others, snap), (433, 600));
    assert_eq!(snap_position(432, 600, 320, 180, &others, snap), (420, 600));
    assert_eq!(snap_position(5, 6, 320, 180, &Vec::new(), snap), (5, 6));
}

#[test]
fn the_first_preview_nearby_wins() {
    let a = rect(0, 0, 100, 100);
    let b = rect(300, 300, 405, 400);
    let c = rect(800, 0, 900, 100);
    assert_eq!(snap_position(402, 500, 390, 90, &vec![a, b, c], 12), (405, 500));
    assert_eq!(snap_position(402, 500, 390, 90, &vec![a, c, b], 12), (410, 500));
}

#[test]
fn places_off_the_desktop_are_refused() {
    let screen = Screen { x: -1920, y: 0, width: 3840, height: 1080 };
    assert!(position_on_screen(-1920, 0, screen));
    assert!(position_on_screen(1919, 1079, screen));
    assert!(!position_on_screen(1920, 10, screen));
    assert!(!position_on_screen(10, 1080, screen));
    assert!(!position_on_screen(-1921, 10, screen));
    assert!(!position_on_screen(65000, 1000, screen));
    let huge = Screen { x: i32::MAX, y: i32::MAX, width: i32::MAX, height: i32::MAX };
    assert!(position_on_screen(i32::MAX, i32::MAX, huge));
}

#[test]
fn a_small_move_is_a_click() {
    let mut drag = DragState::new();
    assert_eq!(drag.release(), Release::Nothing);
    assert_eq!(drag.motion((50, 50), false, 4), None);
    drag.press((10, 10), (100, 200));
    assert_eq!(drag.motion((14, 6), false, 4), None);
    assert_eq!(drag.release(), Release::Click);
    assert_eq!(drag.release(), Release::Nothing);
}

#[test]
fn a_far_move_drags_the_window_along() {
    let mut drag = DragState::new();
    drag.press((10, 10), (100, 200));
    assert_eq!(drag.motion((15, 10), false, 4), Some((105, 200)));
    assert_eq!(drag.motion((11, 10), false, 4), Some((101, 200)));
    assert_eq!(drag.motion((10, 0), false, 4), Some((100, 190)));
    assert_eq!(drag.release(), Release::Dropped);
    drag.press((0, 0), (0, 0));
    assert_eq!(drag.release(), Release::Click);
}

#[test]
fn locked_windows_do_not_move_but_click() {
    let mut drag = DragState::new();
    drag.press((10, 10), (100, 200));
    assert_eq!(drag.motion((500, 500), true, 4), None);
    assert_eq!(drag.release(), Release::Click);
}

#[test]
fn extreme_moves_do_not_overflow() {
    let mut drag = DragState::new();
    drag.press((i32::MIN, 0), (i32::MAX, 0));
    let far = i64::from(i32::MAX) + i64::from(i32::MAX) - i64::from(i32::MIN);
    assert_eq!(drag.motion((i32::MAX, 0), false, 4), Some((far, 0)));
}

#[test]
fn the_frame_surrounds_the_thumbnail() {
    let frame = chrome_frame(320, 180, BORDER_WIDTH);
    assert_eq!(frame.top, Area { left: 0, top: 0, right: 320, bottom: 3 });
    assert_eq!(frame.left, Area { left: 0, top: 0, right: 3, bottom: 180 });
    assert_eq!(frame.right, Area { left: 317, top: 0, right: 320, bottom: 180 });
    assert_eq!(frame.bottom, Area { left: 0, top: 177, right: 320, bottom: 180 });
    let shown = thumbnail_area(320, 180, BORDER_WIDTH);
    assert_eq!(shown, Area { left: 3, top: 3, right: 317, bottom: 177 });
}

#[test]
fn the_focus_has_its_colors() {
    assert_eq!(chrome_color(true), INARI_ORANGE);
    assert_eq!(chrome_color(false), INARI_BG_PRIMARY);
    assert_eq!(nameplate_color(true), INARI_ORANGE);
    assert_eq!(nameplate_color(false), INARI_TEXT);
    assert_eq!(INARI_ORANGE, 0x0000_77FF);
    assert_eq!(NICOTINE_RED, 196 + (30 << 8) + (58 << 16));
}

#[test]
fn nameplates_fit_their_names() {
    assert_eq!(nameplate_position(100, -50, 3, 4), (107, -43));
    assert_eq!(nameplate_size((60, 13), (6, 2), (20, 14)), (72, 17));
    assert_eq!(nameplate_size((0, 0), (6, 2), (20, 14)), (20, 14));
    assert_eq!(
        nameplate_text_area(72, 17, 6),
        Area { left: 6, top: 0, right: 66, bottom: 17 }
    );
}

#[test]
fn the_list_grows_with_its_rows() {
    assert_eq!(list_window_height(0, &metrics()), 54);
    assert_eq!(list_window_height(1, &metrics()), 54);
    assert_eq!(list_window_height(5, &metrics()), 150);
    assert_eq!(
        list_title_area(LIST_WIDTH, &metrics()),
        Area { left: 0, top: 0, right: 260, bottom: 24 }
    );
    assert_eq!(
        list_body_area(LIST_WIDTH, 150, &metrics()),
        Area { left: 0, top: 24, right: 260, bottom: 150 }
    );
}

#[test]
fn the_active_row_is_marked() {
    let windows = vec![
        EveWindow { id: 4, title: "Alpha".into() },
        EveWindow { id: 9, title: "Beta".into() },
    ];
    let rows = list_rows(&windows, 9, LIST_WIDTH, &metrics());
    assert_eq!(rows.len(), 2);
    assert_eq!(rows[0].text, "     Alpha");
    assert_eq!(rows[0].color, INARI_TEXT);
    assert_eq!(rows[0].area, Area { left: 10, top: 26, right: 254, bottom: 50 });
    assert_eq!(rows[1].text, "🚬 Beta");
    assert_eq!(rows[1].color, NICOTINE_RED);
    assert_eq!(rows[1].area, Area { left: 10, top: 50, right: 254, bottom: 74 });
    assert!(rows[1].area.bottom <= list_window_height(2, &metrics()));
}

#[test]
fn messages_are_sorted() {
    let cases = [
        (WM_PAINT, Ask::Paint, Ask::Paint),
        (WM_LBUTTONDOWN, Ask::Press, Ask::Default),
        (WM_MOUSEMOVE, Ask::Move, Ask::Default),
        (WM_LBUTTONUP, Ask::Release, Ask::Default),
        (WM_DESTROY, Ask::Nothing, Ask::Nothing),
        (WM_TIMER, Ask::Default, Ask::Default),
        (0x0014, Ask::Default, Ask::Default),
    ];
    for (msg, window, nameplate) in cases {
        assert_eq!(window_message(true, msg), window);
        assert_eq!(nameplate_message(true, msg), nameplate);
        assert_eq!(window_message(false, msg), Ask::Default);
        assert_eq!(nameplate_message(false, msg), Ask::Default);
    }
    assert!(is_reconcile_tick(WM_TIMER, 1));
    assert!(!is_reconcile_tick(WM_TIMER, 2));
    assert!(!is_reconcile_tick(WM_PAINT, 1));
    assert!(is_focus_event(3));
    assert!(!is_focus_event(4));
}

#[test]
fn a_preview_does_not_dock_to_itself() {
    let a = rect(0, 0, 320, 180);
    let b = rect(500, 500, 820, 680);
    let windows = vec![(1, Some(a)), (2, None), (3, Some(b))];
    assert_eq!(collect_other_rects(&windows, 1), vec![b]);
    assert_eq!(collect_other_rects(&windows, 9), vec![a, b]);
}

#[test]
fn the_nameplate_goes_along() {
    let others = vec![rect(100, 100, 420, 280)];
    let own = Some(rect(0, 0, 320, 180));
    assert_eq!(
        place_dragged((425, 95), own, &others, 12, 3, 4),
        PreviewMove { preview: (420, 100), nameplate: (427, 107) }
    );
    assert_eq!(
        place_dragged((425, 95), None, &others, 12, 3, 4),
        PreviewMove { preview: (425, 95), nameplate: (432, 102) }
    );
}

#[test]
fn a_press_activates_or_moves() {
    let mut drag = DragState::new();
    assert_eq!(preview_release(&mut drag, 7), PreviewRelease::Nothing);
    drag.press((0, 0), (0, 0));
    assert_eq!(preview_release(&mut drag, 7), PreviewRelease::Activate(7));
    drag.press((0, 0), (0, 0));
    drag.motion((50, 0), true, 4);
    assert_eq!(preview_release(&mut drag, 7), PreviewRelease::Activate(7));
    drag.press((0, 0), (0, 0));
    drag.motion((50, 0), false, 4);
    drag.motion((0, 0), false, 4);
    assert_eq!(preview_release(&mut drag, 7), PreviewRelease::Remember);
    drag.press((0, 0), (0, 0));
    assert!(!list_release(&mut drag));
    drag.press((0, 0), (0, 0));
    drag.motion((0, -5), false, 4);
    assert!(list_release(&mut drag));
    assert!(!list_release(&mut drag));
}
