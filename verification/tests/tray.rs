use nicotine::tray::{
    set_main_hwnd, Effect, Reply, Tray, TrayEvent, MENU_EXIT, MENU_SHOW, WM_COMMAND, WM_DESTROY,
    WM_LBUTTONUP, WM_RBUTTONUP, WM_TRAYICON,
};

const NOTHING: Effect = Effect { show: None, wake: false, close: None };

fn ready() -> Tray {
    let mut tray = Tray::new();
    set_main_hwnd(&mut tray, 42);
    assert!(tray.create());
    tray
}

#[test]
fn the_first_main_window_stays() {
    let mut tray = Tray::new();
    assert_eq!(tray.main_hwnd(), None);
    set_main_hwnd(&mut tray, 1);
    set_main_hwnd(&mut tray, 2);
    assert_eq!(tray.main_hwnd(), Some(1));
}

#[test]
fn there_is_one_icon() {
    let mut tray = Tray::new();
    assert!(tray.create());
    assert!(!tray.create());
}

#[test]
fn a_left_click_shows_the_window() {
    let mut tray = ready();
    let lparam = 0x0001_0000 + WM_LBUTTONUP as isize;
    assert_eq!(
        tray.tray_wndproc(WM_TRAYICON, 0, lparam),
        Reply::Done(Effect { show: Some(42), wake: true, close: None })
    );
    assert_eq!(tray.try_recv(), Some(TrayEvent::Show));
    assert_eq!(tray.try_recv(), None);
}

#[test]
fn a_right_click_opens_the_menu() {
    let mut tray = ready();
    assert_eq!(tray.tray_wndproc(WM_TRAYICON, 0, WM_RBUTTONUP as isize), Reply::ContextMenu);
    assert_eq!(tray.tray_wndproc(WM_TRAYICON, 0, 0x0200), Reply::Done(NOTHING));
    assert_eq!(tray.try_recv(), None);
}

#[test]
fn the_menu_shows_and_ends() {
    let mut tray = ready();
    assert_eq!(
        tray.dispatch_menu_command(MENU_SHOW),
        Effect { show: Some(42), wake: true, close: None }
    );
    assert_eq!(
        tray.tray_wndproc(WM_COMMAND, 0x0001_0000 + MENU_EXIT, 0),
        Reply::Done(Effect { show: Some(42), wake: true, close: Some(42) })
    );
    assert_eq!(tray.dispatch_menu_command(0), NOTHING);
    assert_eq!(tray.try_recv(), Some(TrayEvent::Show));
    assert_eq!(tray.try_recv(), Some(TrayEvent::Exit));
    assert_eq!(tray.try_recv(), None);
}

#[test]
fn without_an_icon_events_go_nowhere() {
    let mut tray = Tray::new();
    assert!(!tray.send_event(TrayEvent::Exit));
    assert_eq!(tray.try_recv(), None);
    assert_eq!(tray.dispatch_menu_command(MENU_EXIT), NOTHING);
}

#[test]
fn other_messages_go_to_the_system() {
    let mut tray = ready();
    assert_eq!(tray.tray_wndproc(WM_DESTROY, 0, 0), Reply::Quit);
    assert_eq!(tray.tray_wndproc(0x0001, 0, 0), Reply::Default);
}
