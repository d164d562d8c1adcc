//! The windows of clients and what a desktop must be able to do with them.

use vstd::prelude::*;

use crate::config::{Config, ConfigModel};

verus! {

/// The window of a client: the number that the desktop knows it by, and the
/// name that it is shown under.
#[derive(Debug)]
pub struct EveWindow {
    pub id: u32,
    pub title: String,
}

/// The window of a client, by what its title says.
pub struct WindowModel {
    pub id: u32,
    pub title: Seq<char>,
}

impl View for EveWindow {
    type V = WindowModel;

    open spec fn view(&self) -> WindowModel {
        WindowModel { id: self.id, title: self.title@ }
    }
}

impl Clone for EveWindow {
    fn clone(&self) -> (r: Self)
        ensures
            r == *self,
    {
        EveWindow { id: self.id, title: self.title.clone() }
    }
}

/// A list of windows, by what their titles say.
pub open spec fn windows_of(list: Seq<EveWindow>) -> Seq<WindowModel> {
    Seq::new(list.len(), |i: int| list[i]@)
}

/// Why the desktop did not do what it was asked for.
#[derive(Debug)]
pub struct WindowError {
    pub message: String,
}

/// A desktop with the windows of clients on it.
pub trait WindowManager: Send + Sync {
    /// All windows of clients.
    fn get_eve_windows(&self) -> Result<Vec<EveWindow>, WindowError>;

    /// Gives a window the focus.
    fn activate_window(&self, window_id: u32) -> Result<(), WindowError>;

    /// Puts all windows at the same place.
    fn stack_windows(&self, windows: &[EveWindow], config: &Config) -> Result<(), WindowError>;

    /// The window that has the focus.
    fn get_active_window(&self) -> Result<u32, WindowError>;

    /// Minimizes a window.
    fn minimize_window(&self, window_id: u32) -> Result<(), WindowError>;

    /// Brings a minimized window back.
    fn restore_window(&self, window_id: u32) -> Result<(), WindowError>;
}

/// Where a window goes and how large it is.
#[derive(Debug, Clone, Copy, PartialEq, Eq, Structural)]
pub struct Placement {
    pub x: i32,
    pub y: i32,
    pub width: i32,
    pub height: i32,
}

/// A client fits on the display.
pub open spec fn fits_display(c: ConfigModel) -> bool {
    c.eve_width <= c.display_width && c.panel_height <= c.display_height
}

/// Where every client goes when they are stacked: in the middle of the
/// display, from its top down to the panel.
pub open spec fn stack_place(c: ConfigModel) -> Placement {
    Placement {
        x: ((c.display_width - c.eve_width) / 2) as i32,
        y: 0,
        width: c.eve_width as i32,
        height: (c.display_height - c.panel_height) as u32 as i32,
    }
}

/// Where every client goes when they are stacked.
pub fn stack_placement(config: &Config) -> (r: Placement)
    requires
        fits_display(config@),
    ensures
        r == stack_place(config@),
{
    Placement {
        x: ((config.display_width - config.eve_width) / 2) as i32,
        y: 0,
        width: config.eve_width as i32,
        height: config.eve_height_adjusted() as i32,
    }
}

/// The moves that stack a list of windows: each of them, in turn, to the same
/// place.
pub fn stack_windows(windows: &Vec<EveWindow>, config: &Config) -> (r: Vec<(u32, Placement)>)
    requires
        fits_display(config@),
    ensures
        r@.len() == windows@.len(),
        forall|i: int|
            0 <= i < r@.len() ==> #[trigger] r@[i] == (windows@[i].id, stack_place(config@)),
{
    let place: Placement = stack_placement(config);
    let mut moves: Vec<(u32, Placement)> = Vec::new();
    let mut i: usize = 0;
    while i < windows.len()
        invariant
            i <= windows@.len(),
            moves@.len() == i,
            forall|j: int| 0 <= j < i ==> #[trigger] moves@[j] == (windows@[j].id, place),
        decreases windows@.len() - i,
    {
        moves.push((windows[i].id, place));
        i = i + 1;
    }
    moves
}

/// Stacked clients stand in the middle: the room on the left and the room on
/// the right differ by one pixel at most, and top and panel are reached. The
/// sizes of displays that a desktop reports fit a signed number.
pub proof fn law_stack_is_centered(c: ConfigModel)
    requires
        fits_display(c),
        c.display_width <= i32::MAX,
        c.display_height <= i32::MAX,
    ensures
        ({
            let p = stack_place(c);
            let right = c.display_width - p.x - p.width;
            &&& p.width == c.eve_width
            &&& 0 <= right - p.x <= 1
            &&& p.y == 0
            &&& p.y + p.height + c.panel_height == c.display_height
        }),
{
}

/// A list of windows holds the number and the title of each of its entries.
pub proof fn law_lists_hold_their_windows(list: Seq<EveWindow>, i: int)
    requires
        0 <= i < list.len(),
    ensures
        windows_of(list).len() == list.len(),
        windows_of(list)[i].id == list[i].id,
        windows_of(list)[i].title == list[i].title@,
{
}

/// Stacked clients have the width that is set and the height of the display
/// without the panel, and stand at the top, half of the free width from the
/// left, whatever the sizes are.
pub proof fn law_stacked_clients_have_their_size(c: ConfigModel)
    ensures
        stack_place(c).width == c.eve_width as i32,
        stack_place(c).height == (c.display_height - c.panel_height) as u32 as i32,
        stack_place(c).x == ((c.display_width - c.eve_width) / 2) as i32,
        stack_place(c).y == 0,
        fits_display(c) <==> c.eve_width <= c.display_width && c.panel_height <= c.display_height,
{
}

} // verus!
