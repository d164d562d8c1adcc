//! The icon in the notification area: what a click on it and a choice from
//! its menu do.

use vstd::prelude::*;

verus! {

/// The message that carries events of the icon: the first one after those
/// that the system reserves.
pub const WM_TRAYICON: u32 = 0x8001;

/// The system's message for a choice from a menu.
pub const WM_COMMAND: u32 = 0x0111;

/// The system's message for the end of a window.
pub const WM_DESTROY: u32 = 0x0002;

/// The system's message for the left mouse button coming up.
pub const WM_LBUTTONUP: u32 = 0x0202;

/// The system's message for the right mouse button coming up.
pub const WM_RBUTTONUP: u32 = 0x0205;

/// The menu entry that shows the main window. Zero means that nothing was
/// chosen, so no entry has it.
pub const MENU_SHOW: usize = 1;

/// The menu entry that ends the program.
pub const MENU_EXIT: usize = 2;

/// What the icon tells the main window.
#[derive(Debug, Clone, Copy, PartialEq, Eq, Structural)]
pub enum TrayEvent {
    /// Show the main window.
    Show,
    /// End the program.
    Exit,
}

/// The icon: the main window, once it is known; whether the icon was created;
/// and the events that the main window has not taken yet, the oldest first.
pub struct Tray {
    main_hwnd: Option<isize>,
    created: bool,
    pending: Vec<TrayEvent>,
}

/// The icon as a mathematical value.
#[verifier::ext_equal]
pub struct TrayModel {
    pub main_hwnd: Option<isize>,
    pub created: bool,
    pub pending: Seq<TrayEvent>,
}

impl View for Tray {
    type V = TrayModel;

    closed spec fn view(&self) -> TrayModel {
        TrayModel { main_hwnd: self.main_hwnd, created: self.created, pending: self.pending@ }
    }
}

/// The main window made known: the first one stays.
pub open spec fn with_main(t: TrayModel, hwnd: isize) -> TrayModel {
    match t.main_hwnd {
        Some(_) => t,
        None => TrayModel { main_hwnd: Some(hwnd), ..t },
    }
}

/// An event for the main window; without an icon there is none.
pub open spec fn with_event(t: TrayModel, event: TrayEvent) -> TrayModel {
    if t.created {
        TrayModel { pending: t.pending.push(event), ..t }
    } else {
        t
    }
}

/// What is to be done about the main window.
#[derive(Debug, Clone, Copy, PartialEq, Eq, Structural)]
pub struct Effect {
    /// The window to bring to the front.
    pub show: Option<isize>,
    /// The main window must be woken to take an event.
    pub wake: bool,
    /// The window to close.
    pub close: Option<isize>,
}

/// The entry that shows the window, or a left click on the icon.
pub open spec fn shows(t: TrayModel) -> (Effect, TrayModel) {
    (
        Effect { show: t.main_hwnd, wake: t.created, close: None },
        with_event(t, TrayEvent::Show),
    )
}

/// What an entry of the menu does. To end the program the window is shown
/// first, since a hidden one would not see that it is to close.
pub open spec fn menu_choice(t: TrayModel, id: usize) -> (Effect, TrayModel) {
    if id == MENU_SHOW {
        shows(t)
    } else if id == MENU_EXIT {
        (
            Effect { show: t.main_hwnd, wake: t.created, close: t.main_hwnd },
            with_event(t, TrayEvent::Exit),
        )
    } else {
        (Effect { show: None, wake: false, close: None }, t)
    }
}

/// What a message to the icon asks for.
#[derive(Debug, Clone, Copy, PartialEq, Eq, Structural)]
pub enum Reply {
    /// The message is dealt with.
    Done(Effect),
    /// The menu is to be shown.
    ContextMenu,
    /// The icon goes.
    Quit,
    /// The message is one that the system deals with.
    Default,
}

/// The low sixteen bits of a message's parameter.
pub open spec fn low_word(param: u32) -> u32 {
    param % 0x1_0000
}

/// What a message asks for, and the icon after it.
pub open spec fn on_message(t: TrayModel, msg: u32, wparam: usize, lparam: isize) -> (
    Reply,
    TrayModel,
) {
    if msg == WM_TRAYICON {
        if low_word(lparam as u32) == WM_LBUTTONUP {
            (Reply::Done(shows(t).0), shows(t).1)
        } else if low_word(lparam as u32) == WM_RBUTTONUP {
            (Reply::ContextMenu, t)
        } else {
            (Reply::Done(Effect { show: None, wake: false, close: None }), t)
        }
    } else if msg == WM_COMMAND {
        let choice = menu_choice(t, wparam % 0x1_0000);
        (Reply::Done(choice.0), choice.1)
    } else if msg == WM_DESTROY {
        (Reply::Quit, t)
    } else {
        (Reply::Default, t)
    }
}

/// Makes the main window known. Only the first one counts.
pub fn set_main_hwnd(tray: &mut Tray, hwnd: isize)
    ensures
        final(tray)@ == with_main(old(tray)@, hwnd),
{
    if tray.main_hwnd.is_none() {
        tray.main_hwnd = Some(hwnd);
    }
}

impl Tray {
    /// Before there is an icon.
    pub fn new() -> (r: Self)
        ensures
            r@ == (TrayModel { main_hwnd: None, created: false, pending: Seq::empty() }),
    {
        Tray { main_hwnd: None, created: false, pending: Vec::new() }
    }

    /// Creates the icon; `false` if there was one before. There is one for the
    /// whole time that the program runs.
    pub fn create(&mut self) -> (r: bool)
        ensures
            r == !old(self)@.created,
            final(self)@ == (TrayModel { created: true, ..old(self)@ }),
    {
        let first: bool = !self.created;
        self.created = true;
        first
    }

    /// The main window, once it is known.
    pub fn main_hwnd(&self) -> (r: Option<isize>)
        ensures
            r == self@.main_hwnd,
    {
        self.main_hwnd
    }

    /// Takes the oldest event that is waiting.
    pub fn try_recv(&mut self) -> (r: Option<TrayEvent>)
        ensures
            match r {
                Some(event) => old(self)@.pending.len() > 0 && event == old(self)@.pending.first()
                    && final(self)@ == (TrayModel {
                    pending: old(self)@.pending.drop_first(),
                    ..old(self)@
                }),
                None => old(self)@.pending.len() == 0 && final(self)@ == old(self)@,
            },
    {
        if self.pending.len() == 0 {
            None
        } else {
            let event: TrayEvent = self.pending.remove(0);
            assert(self.pending@ =~= old(self).pending@.drop_first());
            Some(event)
        }
    }

    /// Adds an event for the main window, and tells whether the window must be
    /// woken.
    pub fn send_event(&mut self, event: TrayEvent) -> (r: bool)
        ensures
            r == old(self)@.created,
            final(self)@ == with_event(old(self)@, event),
    {
        if self.created {
            self.pending.push(event);
        }
        self.created
    }

    /// A left click, or the entry that shows the window.
    fn show(&mut self) -> (r: Effect)
        ensures
            r == shows(old(self)@).0,
            final(self)@ == shows(old(self)@).1,
    {
        let wake: bool = self.send_event(TrayEvent::Show);
        Effect { show: self.main_hwnd, wake, close: None }
    }

    /// What an entry of the menu does.
    pub fn dispatch_menu_command(&mut self, id: usize) -> (r: Effect)
        ensures
            r == menu_choice(old(self)@, id).0,
            final(self)@ == menu_choice(old(self)@, id).1,
    {
        if id == MENU_SHOW {
            self.show()
        } else if id == MENU_EXIT {
            let wake: bool = self.send_event(TrayEvent::Exit);
            Effect { show: self.main_hwnd, wake, close: self.main_hwnd }
        } else {
            Effect { show: None, wake: false, close: None }
        }
    }

    /// What a message to the icon asks for.
    pub fn tray_wndproc(&mut self, msg: u32, wparam: usize, lparam: isize) -> (r: Reply)
        ensures
            r == on_message(old(self)@, msg, wparam, lparam).0,
            final(self)@ == on_message(old(self)@, msg, wparam, lparam).1,
    {
        if msg == WM_TRAYICON {
            let event: u32 = (lparam as u32) % 0x1_0000;
            if event == WM_LBUTTONUP {
                Reply::Done(self.show())
            } else if event == WM_RBUTTONUP {
                Reply::ContextMenu
            } else {
                Reply::Done(Effect { show: None, wake: false, close: None })
            }
        } else if msg == WM_COMMAND {
            Reply::Done(self.dispatch_menu_command(wparam % 0x1_0000))
        } else if msg == WM_DESTROY {
            Reply::Quit
        } else {
            Reply::Default
        }
    }
}

/// The main window stays the one that was made known first.
pub proof fn law_first_main_window_stays(t: TrayModel, first: isize, second: isize)
    ensures
        with_main(with_main(t, first), second) == with_main(t, first),
{
}

/// Events wait in the order in which they were sent, behind those that waited
/// before.
pub proof fn law_events_keep_their_order(t: TrayModel, first: TrayEvent, second: TrayEvent)
    requires
        t.created,
    ensures
        with_event(with_event(t, first), second).pending == t.pending + seq![first, second],
{
    assert(t.pending.push(first).push(second) =~= t.pending + seq![first, second]);
}

/// Whatever shows or ends, the window to show is the main window, and only the
/// entry that ends the program closes it.
pub proof fn law_only_exit_closes(t: TrayModel, id: usize)
    ensures
        menu_choice(t, id).0.close is Some ==> id == MENU_EXIT,
        id == MENU_EXIT ==> menu_choice(t, id).0.close == t.main_hwnd && menu_choice(t, id).0.show
            == t.main_hwnd,
        menu_choice(t, id).1.main_hwnd == t.main_hwnd,
{
}

/// The first window that is made known becomes the main window and nothing else
/// changes; a later one changes nothing.
pub proof fn law_the_first_window_is_the_main_one(t: TrayModel, hwnd: isize)
    ensures
        t.main_hwnd is None ==> with_main(t, hwnd) == (TrayModel { main_hwnd: Some(hwnd), ..t }),
        t.main_hwnd is Some ==> with_main(t, hwnd) == t,
{
}

/// An event waits behind those that wait already, if there is an icon, and is
/// lost otherwise.
pub proof fn law_events_wait_behind_others(t: TrayModel, event: TrayEvent)
    ensures
        t.created ==> with_event(t, event) == (TrayModel {
            pending: t.pending + seq![event],
            ..t
        }),
        !t.created ==> with_event(t, event) == t,
{
    assert(t.pending.push(event) =~= t.pending + seq![event]);
}

/// The first entry of the menu shows the main window and says so to it. The
/// second one shows and closes it and says that the program ends. No other
/// number does anything.
pub proof fn law_menu_entries(t: TrayModel, id: usize)
    ensures
        id == 1 || id == 2 ==> menu_choice(t, id).0.show == t.main_hwnd && menu_choice(t, id).0.wake
            == t.created,
        id == 1 ==> menu_choice(t, id).0.close is None,
        id == 2 ==> menu_choice(t, id).0.close == t.main_hwnd,
        id == 1 && t.created ==> menu_choice(t, id).1 == (TrayModel {
            pending: t.pending.push(TrayEvent::Show),
            ..t
        }),
        id == 2 && t.created ==> menu_choice(t, id).1 == (TrayModel {
            pending: t.pending.push(TrayEvent::Exit),
            ..t
        }),
        !t.created ==> menu_choice(t, id).1 == t,
        id != 1 && id != 2 ==> menu_choice(t, id).0.show is None && !menu_choice(t, id).0.wake
            && menu_choice(t, id).0.close is None && menu_choice(t, id).1 == t,
{
}

/// A left click on the icon does what the first entry of the menu does, and a
/// right click shows the menu. A choice from the menu goes by the low word of
/// the message. The end of the window ends the icon, and every other message
/// is left to the system.
pub proof fn law_messages_to_the_icon(t: TrayModel, msg: u32, wparam: usize, lparam: isize)
    ensures
        msg == 0x8001 && lparam as u32 % 0x1_0000 == 0x0202 ==> on_message(t, msg, wparam, lparam)
            == (Reply::Done(menu_choice(t, 1).0), menu_choice(t, 1).1),
        msg == 0x8001 && lparam as u32 % 0x1_0000 == 0x0205 ==> on_message(t, msg, wparam, lparam)
            == (Reply::ContextMenu, t),
        msg == 0x8001 && lparam as u32 % 0x1_0000 != 0x0202 && lparam as u32 % 0x1_0000 != 0x0205
            ==> on_message(t, msg, wparam, lparam) == (
            Reply::Done(Effect { show: None, wake: false, close: None }),
            t,
        ),
        msg == 0x0111 ==> on_message(t, msg, wparam, lparam) == (
            Reply::Done(menu_choice(t, wparam % 0x1_0000).0),
            menu_choice(t, wparam % 0x1_0000).1,
        ),
        msg == 0x0002 ==> on_message(t, msg, wparam, lparam) == (Reply::Quit, t),
        msg != 0x8001 && msg != 0x0111 && msg != 0x0002 ==> on_message(t, msg, wparam, lparam) == (
            Reply::Default,
            t,
        ),
{
}

} // verus!
