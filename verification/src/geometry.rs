//! Rectangles on the screen, pointer coordinates, dragging and docking.

use vstd::prelude::*;

verus! {

/// A rectangle on the screen as the desktop reports it.
#[derive(Debug, Clone, Copy, PartialEq, Eq, Structural)]
pub struct Rect {
    pub left: i32,
    pub top: i32,
    pub right: i32,
    pub bottom: i32,
}

/// A rectangle to paint or to fill, computed without overflow.
#[derive(Debug, Clone, Copy, PartialEq, Eq, Structural)]
pub struct Area {
    pub left: i64,
    pub top: i64,
    pub right: i64,
    pub bottom: i64,
}

/// The point lies in the area. Right and bottom edges do not belong to it.
pub open spec fn covers(a: Area, x: int, y: int) -> bool {
    a.left <= x < a.right && a.top <= y < a.bottom
}

/// A coordinate that leaves room for adding sizes to it.
pub open spec fn roomy(v: i64) -> bool {
    -0x4000_0000_0000_0000 <= v <= 0x4000_0000_0000_0000
}

/// The width or height of a rectangle on the screen, or another length of that
/// order.
pub open spec fn lengthy(v: i64) -> bool {
    -0x1_0000_0000 <= v <= 0x1_0000_0000
}

/// Sixteen bits as a number with a sign.
pub open spec fn signed_word(w: u32) -> i32 {
    if w < 0x8000 {
        w as i32
    } else {
        (w - 0x1_0000) as i32
    }
}

/// The pointer coordinates that a message packs into one number: the low word
/// is x and the high word is y, each with a sign, so that a point left of or
/// above the window comes out as a small negative number.
pub open spec fn unpacked(raw: u32) -> (i32, i32) {
    (signed_word(raw % 0x1_0000), signed_word(raw / 0x1_0000))
}

fn with_sign(w: u32) -> (r: i32)
    requires
        w < 0x1_0000,
    ensures
        r == signed_word(w),
{
    if w < 0x8000 {
        w as i32
    } else {
        w as i32 - 0x1_0000
    }
}

/// The pointer coordinates that a message carries.
pub fn unpack_xy(lparam: isize) -> (r: (i32, i32))
    ensures
        r == unpacked(lparam as u32),
{
    let raw: u32 = lparam as u32;
    (with_sign(raw % 0x1_0000), with_sign(raw / 0x1_0000))
}

/// Coordinates of sixteen bits are read as they were packed.
pub proof fn law_coordinates_read_back(x: i16, y: i16)
    ensures
        ({
            let low = if x < 0 {
                x + 0x1_0000
            } else {
                x as int
            };
            let high = if y < 0 {
                y + 0x1_0000
            } else {
                y as int
            };
            unpacked((low + 0x1_0000 * high) as u32) == (x as i32, y as i32)
        }),
{
}

/// Two edges are near enough to dock.
pub open spec fn near(a: int, b: int, snap: int) -> bool {
    -snap <= a - b <= snap
}

/// Where a side of length `size` that starts at `at` docks to the side from
/// `lo` to `hi`, if it does: end to start, start to end, start to start, end
/// to end, in this order.
pub open spec fn dock(at: int, size: int, lo: int, hi: int, snap: int) -> Option<int> {
    if near(at + size, lo, snap) {
        Some(lo - size)
    } else if near(at, hi, snap) {
        Some(hi)
    } else if near(at, lo, snap) {
        Some(lo)
    } else if near(at + size, hi, snap) {
        Some(hi - size)
    } else {
        None
    }
}

/// Where a side goes among others: it docks to the first that is near enough,
/// and otherwise stays.
pub open spec fn docked(at: int, size: int, others: Seq<(int, int)>, snap: int) -> int
    decreases others.len(),
{
    if others.len() == 0 {
        at
    } else {
        match dock(at, size, others.first().0, others.first().1, snap) {
            Some(v) => v,
            None => docked(at, size, others.drop_first(), snap),
        }
    }
}

/// The horizontal sides of rectangles.
pub open spec fn horizontal(others: Seq<Rect>) -> Seq<(int, int)> {
    Seq::new(others.len(), |i: int| (others[i].left as int, others[i].right as int))
}

/// The vertical sides of rectangles.
pub open spec fn vertical(others: Seq<Rect>) -> Seq<(int, int)> {
    Seq::new(others.len(), |i: int| (others[i].top as int, others[i].bottom as int))
}

fn is_near(a: i64, b: i32, snap: i32) -> (r: bool)
    requires
        -0x5000_0000_0000_0000 <= a <= 0x5000_0000_0000_0000,
    ensures
        r == near(a as int, b as int, snap as int),
{
    let d: i64 = a - b as i64;
    let s: i64 = snap as i64;
    -s <= d && d <= s
}

fn find_dock(at: i64, size: i64, lo: i32, hi: i32, snap: i32) -> (r: Option<i64>)
    requires
        roomy(at),
        lengthy(size),
    ensures
        match r {
            Some(v) => dock(at as int, size as int, lo as int, hi as int, snap as int) == Some(
                v as int,
            ),
            None => dock(at as int, size as int, lo as int, hi as int, snap as int) is None,
        },
{
    let end: i64 = at + size;
    if is_near(end, lo, snap) {
        Some(lo as i64 - size)
    } else if is_near(at, hi, snap) {
        Some(hi as i64)
    } else if is_near(at, lo, snap) {
        Some(lo as i64)
    } else if is_near(end, hi, snap) {
        Some(hi as i64 - size)
    } else {
        None
    }
}

/// Adjusts the place of a window that is being dragged so that it docks to
/// others nearby. Each axis docks by itself, to the first of the others that
/// is near enough on it.
pub fn snap_position(
    proposed_x: i64,
    proposed_y: i64,
    width: i64,
    height: i64,
    others: &Vec<Rect>,
    snap: i32,
) -> (r: (i64, i64))
    requires
        roomy(proposed_x),
        roomy(proposed_y),
        lengthy(width),
        lengthy(height),
    ensures
        r.0 == docked(proposed_x as int, width as int, horizontal(others@), snap as int),
        r.1 == docked(proposed_y as int, height as int, vertical(others@), snap as int),
{
    let ghost hs = horizontal(others@);
    let ghost vs = vertical(others@);
    let mut x: Option<i64> = None;
    let mut y: Option<i64> = None;
    let mut i: usize = 0;
    assert(hs.skip(0) =~= hs);
    assert(vs.skip(0) =~= vs);
    while i < others.len()
        invariant
            i <= others@.len(),
            roomy(proposed_x),
            roomy(proposed_y),
            lengthy(width),
            lengthy(height),
            hs == horizontal(others@),
            vs == vertical(others@),
            match x {
                Some(v) => docked(proposed_x as int, width as int, hs, snap as int) == v,
                None => docked(proposed_x as int, width as int, hs, snap as int) == docked(
                    proposed_x as int,
                    width as int,
                    hs.skip(i as int),
                    snap as int,
                ),
            },
            match y {
                Some(v) => docked(proposed_y as int, height as int, vs, snap as int) == v,
                None => docked(proposed_y as int, height as int, vs, snap as int) == docked(
                    proposed_y as int,
                    height as int,
                    vs.skip(i as int),
                    snap as int,
                ),
            },
        decreases others@.len() - i,
    {
        let other: Rect = others[i];
        assert(hs.skip(i as int).first() == (other.left as int, other.right as int));
        assert(vs.skip(i as int).first() == (other.top as int, other.bottom as int));
        assert(hs.skip(i as int).drop_first() =~= hs.skip(i + 1));
        assert(vs.skip(i as int).drop_first() =~= vs.skip(i + 1));
        if x.is_none() {
            x = find_dock(proposed_x, width, other.left, other.right, snap);
        }
        if y.is_none() {
            y = find_dock(proposed_y, height, other.top, other.bottom, snap);
        }
        i = i + 1;
    }
    (
        match x {
            Some(v) => v,
            None => proposed_x,
        },
        match y {
            Some(v) => v,
            None => proposed_y,
        },
    )
}

/// Docking moves a window by no more than the distance at which it docks, and
/// leaves it where it is when nothing is near.
pub proof fn law_docking_is_gentle(at: int, size: int, others: Seq<(int, int)>, snap: int)
    requires
        snap >= 0,
    ensures
        near(docked(at, size, others, snap), at, snap),
        (forall|i: int|
            0 <= i < others.len() ==> (#[trigger] dock(at, size, others[i].0, others[i].1, snap)) is None)
            ==> docked(at, size, others, snap) == at,
    decreases others.len(),
{
    if others.len() > 0 {
        law_docking_is_gentle(at, size, others.drop_first(), snap);
        if forall|i: int|
            0 <= i < others.len() ==> (#[trigger] dock(
                at,
                size,
                others[i].0,
                others[i].1,
                snap,
            )) is None {
            assert(dock(at, size, others[0].0, others[0].1, snap) is None);
            assert forall|i: int| 0 <= i < others.drop_first().len() implies (#[trigger] dock(
                at,
                size,
                others.drop_first()[i].0,
                others.drop_first()[i].1,
                snap,
            )) is None by {
                assert(others.drop_first()[i] == others[i + 1]);
                assert(dock(at, size, others[i + 1].0, others[i + 1].1, snap) is None);
            }
        }
    }
}

/// The first of the others that is near enough wins; those after it change
/// nothing.
pub proof fn law_first_dock_wins(
    at: int,
    size: int,
    first: (int, int),
    others: Seq<(int, int)>,
    snap: int,
)
    requires
        dock(at, size, first.0, first.1, snap) is Some,
    ensures
        docked(at, size, seq![first] + others, snap) == dock(at, size, first.0, first.1, snap)->0,
{
    assert((seq![first] + others).first() == first);
}

/// The part of the desktop that all monitors together show.
#[derive(Debug, Clone, Copy, PartialEq, Eq, Structural)]
pub struct Screen {
    pub x: i32,
    pub y: i32,
    pub width: i32,
    pub height: i32,
}

/// The point is on some monitor's desktop.
pub open spec fn on_screen(x: int, y: int, s: Screen) -> bool {
    s.x <= x < s.x + s.width && s.y <= y < s.y + s.height
}

/// Whether a place is on the desktop.
pub fn position_on_screen(x: i32, y: i32, screen: Screen) -> (r: bool)
    ensures
        r == on_screen(x as int, y as int, screen),
{
    x >= screen.x && y >= screen.y && (x as i64) < screen.x as i64 + screen.width as i64 && (
    y as i64) < screen.y as i64 + screen.height as i64
}

/// A window that can be dragged by the pointer: whether the button is down,
/// whether the pointer moved far enough to make it a drag, and where pointer
/// and window were when the button went down.
#[derive(Debug, Clone, Copy, PartialEq, Eq)]
pub struct DragState {
    pub drag_active: bool,
    pub dragged: bool,
    pub drag_origin_screen: (i32, i32),
    pub drag_origin_window: (i32, i32),
}

/// What it means that the button came up.
#[derive(Debug, Clone, Copy, PartialEq, Eq, Structural)]
pub enum Release {
    /// It was not down on this window.
    Nothing,
    /// A click.
    Click,
    /// The end of a drag.
    Dropped,
}

/// The button went down.
pub open spec fn pressed_at(pointer: (i32, i32), window: (i32, i32)) -> DragState {
    DragState {
        drag_active: true,
        dragged: false,
        drag_origin_screen: pointer,
        drag_origin_window: window,
    }
}

/// The pointer is farther than `threshold` from where the button went down.
pub open spec fn moved_far(d: DragState, pointer: (i32, i32), threshold: i32) -> bool {
    !near(pointer.0 as int, d.drag_origin_screen.0 as int, threshold as int) || !near(
        pointer.1 as int,
        d.drag_origin_screen.1 as int,
        threshold as int,
    )
}

/// The window once the pointer moved. With places locked nothing is tracked.
pub open spec fn moved(
    d: DragState,
    pointer: (i32, i32),
    locked: bool,
    threshold: i32,
) -> DragState {
    if d.drag_active && !locked && moved_far(d, pointer, threshold) {
        DragState { dragged: true, ..d }
    } else {
        d
    }
}

/// Where the window goes when it follows the pointer.
pub open spec fn follows(d: DragState, pointer: (i32, i32)) -> (int, int) {
    (
        d.drag_origin_window.0 + pointer.0 - d.drag_origin_screen.0,
        d.drag_origin_window.1 + pointer.1 - d.drag_origin_screen.1,
    )
}

impl DragState {
    /// At rest.
    pub fn new() -> (r: Self)
        ensures
            r == (DragState {
                drag_active: false,
                dragged: false,
                drag_origin_screen: (0, 0),
                drag_origin_window: (0, 0),
            }),
    {
        DragState {
            drag_active: false,
            dragged: false,
            drag_origin_screen: (0, 0),
            drag_origin_window: (0, 0),
        }
    }

    /// The button went down; `window` is the top left corner of the window.
    pub fn press(&mut self, pointer: (i32, i32), window: (i32, i32))
        ensures
            *final(self) == pressed_at(pointer, window),
    {
        self.drag_active = true;
        self.dragged = false;
        self.drag_origin_screen = pointer;
        self.drag_origin_window = window;
    }

    /// The pointer moved. Gives the place for the window while it is dragged.
    pub fn motion(&mut self, pointer: (i32, i32), locked: bool, threshold: i32) -> (r: Option<
        (i64, i64),
    >)
        ensures
            *final(self) == moved(*old(self), pointer, locked, threshold),
            match r {
                Some(at) => (at.0 as int, at.1 as int) == follows(*old(self), pointer)
                    && final(self).drag_active && final(self).dragged && !locked && roomy(at.0)
                    && roomy(at.1),
                None => locked || !final(self).drag_active || !final(self).dragged,
            },
    {
        if self.drag_active && !locked {
            let dx: i64 = pointer.0 as i64 - self.drag_origin_screen.0 as i64;
            let dy: i64 = pointer.1 as i64 - self.drag_origin_screen.1 as i64;
            let t: i64 = threshold as i64;
            if dx < -t || t < dx || dy < -t || t < dy {
                self.dragged = true;
            }
            if self.dragged {
                return Some(
                    (
                        self.drag_origin_window.0 as i64 + dx,
                        self.drag_origin_window.1 as i64 + dy,
                    ),
                );
            }
        }
        None
    }

    /// The button came up.
    pub fn release(&mut self) -> (r: Release)
        ensures
            r == if !old(self).drag_active {
                Release::Nothing
            } else if old(self).dragged {
                Release::Dropped
            } else {
                Release::Click
            },
            *final(self) == if old(self).drag_active {
                DragState { drag_active: false, dragged: false, ..*old(self) }
            } else {
                *old(self)
            },
    {
        if !self.drag_active {
            return Release::Nothing;
        }
        self.drag_active = false;
        let was_dragged: bool = self.dragged;
        self.dragged = false;
        if was_dragged {
            Release::Dropped
        } else {
            Release::Click
        }
    }
}

/// A dragged window keeps its place under the pointer.
pub proof fn law_window_follows_pointer(
    pointer: (i32, i32),
    window: (i32, i32),
    to: (i32, i32),
)
    ensures
        follows(pressed_at(pointer, window), to).0 - to.0 == window.0 - pointer.0,
        follows(pressed_at(pointer, window), to).1 - to.1 == window.1 - pointer.1,
{
}

/// Where a side docks, edge by edge: its end to the start of the other, its
/// start to the other's end, then start to start and end to end. The first pair
/// of edges that are no farther apart than the distance is brought together.
pub proof fn law_edges_are_brought_together(at: int, size: int, lo: int, hi: int, snap: int)
    ensures
        -snap <= at + size - lo <= snap ==> dock(at, size, lo, hi, snap) == Some(lo - size),
        !(-snap <= at + size - lo <= snap) && -snap <= at - hi <= snap ==> dock(
            at,
            size,
            lo,
            hi,
            snap,
        ) == Some(hi),
        !(-snap <= at + size - lo <= snap) && !(-snap <= at - hi <= snap) && -snap <= at - lo
            <= snap ==> dock(at, size, lo, hi, snap) == Some(lo),
        !(-snap <= at + size - lo <= snap) && !(-snap <= at - hi <= snap) && !(-snap <= at - lo
            <= snap) && -snap <= at + size - hi <= snap ==> dock(at, size, lo, hi, snap) == Some(
            hi - size,
        ),
        dock(at, size, lo, hi, snap) is None <==> !(-snap <= at + size - lo <= snap) && !(-snap
            <= at - hi <= snap) && !(-snap <= at - lo <= snap) && !(-snap <= at + size - hi
            <= snap),
        near(at, lo, snap) <==> at - lo <= snap && lo - at <= snap,
{
}

/// A side docks to the first of the others that is near enough, wherever in the
/// list it stands.
pub proof fn law_the_first_near_side_counts(
    at: int,
    size: int,
    others: Seq<(int, int)>,
    snap: int,
    i: int,
)
    requires
        0 <= i < others.len(),
        dock(at, size, others[i].0, others[i].1, snap) is Some,
        forall|j: int|
            0 <= j < i ==> (#[trigger] dock(at, size, others[j].0, others[j].1, snap)) is None,
    ensures
        docked(at, size, others, snap) == dock(at, size, others[i].0, others[i].1, snap)->0,
    decreases i,
{
    if i > 0 {
        let rest = others.drop_first();
        assert(dock(at, size, others[0].0, others[0].1, snap) is None);
        assert forall|j: int| 0 <= j < i - 1 implies (#[trigger] dock(
            at,
            size,
            rest[j].0,
            rest[j].1,
            snap,
        )) is None by {
            assert(rest[j] == others[j + 1]);
            assert(dock(at, size, others[j + 1].0, others[j + 1].1, snap) is None);
        }
        assert(rest[i - 1] == others[i]);
        law_the_first_near_side_counts(at, size, rest, snap, i - 1);
    }
}

/// Across, a rectangle reaches from its left edge to its right one; down, from
/// its top to its bottom.
pub proof fn law_sides_of_rectangles(others: Seq<Rect>, i: int)
    requires
        0 <= i < others.len(),
    ensures
        horizontal(others).len() == others.len(),
        vertical(others).len() == others.len(),
        horizontal(others)[i].0 == others[i].left,
        horizontal(others)[i].1 == others[i].right,
        vertical(others)[i].0 == others[i].top,
        vertical(others)[i].1 == others[i].bottom,
{
}

/// A point is on the desktop or in an area from the left and top edges on up to
/// the right and bottom ones, which do not belong to it.
pub proof fn law_far_edges_do_not_belong(x: int, y: int, s: Screen, a: Area)
    ensures
        on_screen(x, y, s) <==> s.x <= x && x < s.x + s.width && s.y <= y && y < s.y + s.height,
        covers(a, x, y) <==> a.left <= x && x < a.right && a.top <= y && y < a.bottom,
{
}

/// A press remembers where pointer and window were. It becomes a drag when the
/// pointer goes farther than the threshold in any direction while places are
/// not locked, and stays one. Nothing else changes.
pub proof fn law_presses_become_drags(
    d: DragState,
    pointer: (i32, i32),
    window: (i32, i32),
    locked: bool,
    threshold: i32,
)
    ensures
        pressed_at(pointer, window).drag_active,
        !pressed_at(pointer, window).dragged,
        pressed_at(pointer, window).drag_origin_screen == pointer,
        pressed_at(pointer, window).drag_origin_window == window,
        moved_far(d, pointer, threshold) <==> (pointer.0 - d.drag_origin_screen.0 > threshold
            || d.drag_origin_screen.0 - pointer.0 > threshold || pointer.1 - d.drag_origin_screen.1
            > threshold || d.drag_origin_screen.1 - pointer.1 > threshold),
        moved(d, pointer, locked, threshold).dragged <==> d.dragged || (d.drag_active && !locked
            && (pointer.0 - d.drag_origin_screen.0 > threshold || d.drag_origin_screen.0
            - pointer.0 > threshold || pointer.1 - d.drag_origin_screen.1 > threshold
            || d.drag_origin_screen.1 - pointer.1 > threshold)),
        moved(d, pointer, locked, threshold) == (DragState {
            dragged: moved(d, pointer, locked, threshold).dragged,
            ..d
        }),
{
}

/// A dragged window goes as far as the pointer went since the press, on each
/// axis by itself.
pub proof fn law_windows_go_as_far_as_the_pointer(d: DragState, pointer: (i32, i32))
    ensures
        follows(d, pointer).0 - d.drag_origin_window.0 == pointer.0 - d.drag_origin_screen.0,
        follows(d, pointer).1 - d.drag_origin_window.1 == pointer.1 - d.drag_origin_screen.1,
{
}

} // verus!
