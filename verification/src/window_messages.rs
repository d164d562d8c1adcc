//! What the messages to preview windows, nameplates and the client list ask
//! for, and what dragging one of those windows does.

use vstd::prelude::*;

use crate::geometry::{
    docked, horizontal, law_docking_is_gentle, moved, moved_far, pressed_at, roomy, snap_position,
    vertical, DragState, Rect, Release,
};
use crate::preview_windows::RECONCILE_TIMER_ID;
use crate::tray::{WM_DESTROY, WM_LBUTTONUP};

verus! {

/// The system's message that asks a window to paint itself.
pub const WM_PAINT: u32 = 0x000F;

/// The system's message for a timer.
pub const WM_TIMER: u32 = 0x0113;

/// The system's message for the pointer moving.
pub const WM_MOUSEMOVE: u32 = 0x0200;

/// The system's message for the left mouse button going down.
pub const WM_LBUTTONDOWN: u32 = 0x0201;

/// The system's event for a window that gets the focus.
pub const EVENT_SYSTEM_FOREGROUND: u32 = 0x0003;

/// What a message asks for.
#[derive(Debug, Clone, Copy, PartialEq, Eq, Structural)]
pub enum Ask {
    /// Paint the window.
    Paint,
    /// The button went down.
    Press,
    /// The pointer moved.
    Move,
    /// The button came up.
    Release,
    /// Nothing; the message is dealt with.
    Nothing,
    /// The message is one that the system deals with.
    Default,
}

/// What a message to a preview or to the client list asks for. A window that is
/// not set up yet, or no longer, leaves everything to the system.
pub open spec fn asked(ready: bool, msg: u32) -> Ask {
    if !ready {
        Ask::Default
    } else if msg == WM_PAINT {
        Ask::Paint
    } else if msg == WM_LBUTTONDOWN {
        Ask::Press
    } else if msg == WM_MOUSEMOVE {
        Ask::Move
    } else if msg == WM_LBUTTONUP {
        Ask::Release
    } else if msg == WM_DESTROY {
        Ask::Nothing
    } else {
        Ask::Default
    }
}

/// What a message to a preview or to the client list asks for.
pub fn window_message(ready: bool, msg: u32) -> (r: Ask)
    ensures
        r == asked(ready, msg),
{
    if !ready {
        Ask::Default
    } else if msg == WM_PAINT {
        Ask::Paint
    } else if msg == WM_LBUTTONDOWN {
        Ask::Press
    } else if msg == WM_MOUSEMOVE {
        Ask::Move
    } else if msg == WM_LBUTTONUP {
        Ask::Release
    } else if msg == WM_DESTROY {
        Ask::Nothing
    } else {
        Ask::Default
    }
}

/// What a message to a nameplate asks for. Clicks go through it, so it only
/// paints itself.
pub fn nameplate_message(ready: bool, msg: u32) -> (r: Ask)
    ensures
        r == if ready && msg == WM_PAINT {
            Ask::Paint
        } else if ready && msg == WM_DESTROY {
            Ask::Nothing
        } else {
            Ask::Default
        },
{
    if ready && msg == WM_PAINT {
        Ask::Paint
    } else if ready && msg == WM_DESTROY {
        Ask::Nothing
    } else {
        Ask::Default
    }
}

/// Whether a message to the control window is the timer that lets the windows
/// catch up with the clients.
pub fn is_reconcile_tick(msg: u32, timer: usize) -> (r: bool)
    ensures
        r == (msg == WM_TIMER && timer == RECONCILE_TIMER_ID),
{
    msg == WM_TIMER && timer == RECONCILE_TIMER_ID
}

/// Whether an event tells that a window got the focus.
pub fn is_focus_event(event: u32) -> (r: bool)
    ensures
        r == (event == EVENT_SYSTEM_FOREGROUND),
{
    event == EVENT_SYSTEM_FOREGROUND
}

/// The rectangles of the windows other than `exclude`, as far as they could be
/// found out.
pub open spec fn others_of(windows: Seq<(usize, Option<Rect>)>, exclude: usize) -> Seq<Rect>
    decreases windows.len(),
{
    if windows.len() == 0 {
        Seq::empty()
    } else {
        let before = others_of(windows.drop_last(), exclude);
        match windows.last().1 {
            Some(rect) => if windows.last().0 != exclude {
                before.push(rect)
            } else {
                before
            },
            None => before,
        }
    }
}

/// The rectangles of the windows other than `exclude`. A window whose rectangle
/// could not be found out is left out.
pub fn collect_other_rects(windows: &Vec<(usize, Option<Rect>)>, exclude: usize) -> (r: Vec<Rect>)
    ensures
        r@ == others_of(windows@, exclude),
{
    let mut rects: Vec<Rect> = Vec::new();
    let mut i: usize = 0;
    assert(windows@.take(0) =~= Seq::empty());
    while i < windows.len()
        invariant
            i <= windows@.len(),
            rects@ == others_of(windows@.take(i as int), exclude),
        decreases windows@.len() - i,
    {
        assert(windows@.take(i + 1).drop_last() =~= windows@.take(i as int));
        let (handle, found): (usize, Option<Rect>) = windows[i];
        if handle != exclude {
            if let Some(rect) = found {
                rects.push(rect);
            }
        }
        i = i + 1;
    }
    assert(windows@.take(windows@.len() as int) =~= windows@);
    rects
}

/// Where a dragged preview and its nameplate go.
#[derive(Debug, Clone, Copy, PartialEq, Eq)]
pub struct PreviewMove {
    pub preview: (i64, i64),
    pub nameplate: (i64, i64),
}

/// The width of a rectangle.
pub open spec fn width_of(rect: Rect) -> int {
    rect.right - rect.left
}

/// The height of a rectangle.
pub open spec fn height_of(rect: Rect) -> int {
    rect.bottom - rect.top
}

/// Where a preview that was dragged to `at` goes: next to others nearby, if its
/// own rectangle is known. Its nameplate goes along, inside its frame.
pub fn place_dragged(
    at: (i64, i64),
    own: Option<Rect>,
    others: &Vec<Rect>,
    snap: i32,
    border: i32,
    inset: i32,
) -> (r: PreviewMove)
    requires
        roomy(at.0),
        roomy(at.1),
    ensures
        match own {
            Some(rect) => {
                &&& r.preview.0 == docked(
                    at.0 as int,
                    width_of(rect),
                    horizontal(others@),
                    snap as int,
                )
                &&& r.preview.1 == docked(
                    at.1 as int,
                    height_of(rect),
                    vertical(others@),
                    snap as int,
                )
            },
            None => r.preview == at,
        },
        r.nameplate.0 == r.preview.0 + border + inset,
        r.nameplate.1 == r.preview.1 + border + inset,
{
    let preview: (i64, i64) = match own {
        Some(rect) => {
            let width: i64 = rect.right as i64 - rect.left as i64;
            let height: i64 = rect.bottom as i64 - rect.top as i64;
            proof {
                lemma_docked_is_near(at.0, width as int, horizontal(others@), snap);
                lemma_docked_is_near(at.1, height as int, vertical(others@), snap);
            }
            snap_position(at.0, at.1, width, height, others, snap)
        },
        None => at,
    };
    let along: i64 = border as i64 + inset as i64;
    PreviewMove { preview, nameplate: (preview.0 + along, preview.1 + along) }
}

proof fn lemma_docked_is_near(at: i64, size: int, others: Seq<(int, int)>, snap: i32)
    ensures
        -0x1_0000_0000 <= docked(at as int, size, others, snap as int) - at <= 0x1_0000_0000,
    decreases others.len(),
{
    if snap >= 0 {
        law_docking_is_gentle(at as int, size, others, snap as int);
    } else if others.len() > 0 {
        lemma_docked_is_near(at, size, others.drop_first(), snap);
    }
}

/// What the end of a press on a preview asks for.
#[derive(Debug, Clone, Copy, PartialEq, Eq, Structural)]
pub enum PreviewRelease {
    Nothing,
    /// Remember where the preview stands now.
    Remember,
    /// Give the client the focus.
    Activate(u32),
}

/// What the end of a press on a preview of the window `source_id` asks for.
pub open spec fn released(d: DragState, source_id: u32) -> PreviewRelease {
    if !d.drag_active {
        PreviewRelease::Nothing
    } else if d.dragged {
        PreviewRelease::Remember
    } else {
        PreviewRelease::Activate(source_id)
    }
}

/// The button came up on a preview of the window `source_id`: a drag leaves it
/// where it is, a click goes to its client.
pub fn preview_release(drag: &mut DragState, source_id: u32) -> (r: PreviewRelease)
    ensures
        r == released(*old(drag), source_id),
        *final(drag) == if old(drag).drag_active {
            DragState { drag_active: false, dragged: false, ..*old(drag) }
        } else {
            *old(drag)
        },
{
    match drag.release() {
        Release::Nothing => PreviewRelease::Nothing,
        Release::Dropped => PreviewRelease::Remember,
        Release::Click => PreviewRelease::Activate(source_id),
    }
}

/// Whether the place of the client list has to be remembered now that the
/// button came up on it. A click on the list does nothing.
pub fn list_release(drag: &mut DragState) -> (r: bool)
    ensures
        r == (old(drag).drag_active && old(drag).dragged),
        *final(drag) == if old(drag).drag_active {
            DragState { drag_active: false, dragged: false, ..*old(drag) }
        } else {
            *old(drag)
        },
{
    match drag.release() {
        Release::Dropped => true,
        _ => false,
    }
}

/// The window after the pointer went through some places.
pub open spec fn moved_through(
    d: DragState,
    path: Seq<(i32, i32)>,
    locked: bool,
    threshold: i32,
) -> DragState
    decreases path.len(),
{
    if path.len() == 0 {
        d
    } else {
        moved(moved_through(d, path.drop_last(), locked, threshold), path.last(), locked, threshold)
    }
}

/// With places locked, a press on a preview goes to its client however the
/// pointer moves before the button comes up.
pub proof fn law_locked_previews_still_activate(
    pointer: (i32, i32),
    window: (i32, i32),
    path: Seq<(i32, i32)>,
    threshold: i32,
    source_id: u32,
)
    ensures
        released(
            moved_through(pressed_at(pointer, window), path, true, threshold),
            source_id,
        ) == PreviewRelease::Activate(source_id),
    decreases path.len(),
{
    lemma_locked_stays(pressed_at(pointer, window), path, threshold);
}

proof fn lemma_locked_stays(d: DragState, path: Seq<(i32, i32)>, threshold: i32)
    ensures
        moved_through(d, path, true, threshold) == d,
    decreases path.len(),
{
    if path.len() > 0 {
        lemma_locked_stays(d, path.drop_last(), threshold);
    }
}

/// A press becomes a drag when the pointer was once beyond the threshold, and
/// otherwise goes to the client.
pub proof fn law_drags_are_no_clicks(
    pointer: (i32, i32),
    window: (i32, i32),
    path: Seq<(i32, i32)>,
    threshold: i32,
    source_id: u32,
)
    ensures
        ({
            let start = pressed_at(pointer, window);
            let far = exists|i: int|
                0 <= i < path.len() && moved_far(
                    start,
                    #[trigger] path[i],
                    threshold,
                );
            released(moved_through(start, path, false, threshold), source_id) == if far {
                PreviewRelease::Remember
            } else {
                PreviewRelease::Activate(source_id)
            }
        }),
{
    lemma_moved_through(pressed_at(pointer, window), path, threshold);
}

proof fn lemma_moved_through(start: DragState, path: Seq<(i32, i32)>, threshold: i32)
    requires
        start.drag_active,
        !start.dragged,
    ensures
        ({
            let d = moved_through(start, path, false, threshold);
            &&& d == (DragState { dragged: d.dragged, ..start })
            &&& d.dragged == exists|i: int|
                0 <= i < path.len() && moved_far(
                    start,
                    #[trigger] path[i],
                    threshold,
                )
        }),
    decreases path.len(),
{
    if path.len() > 0 {
        let rest = path.drop_last();
        lemma_moved_through(start, rest, threshold);
        let before = moved_through(start, rest, false, threshold);
        assert(moved_far(before, path.last(), threshold)
            == moved_far(start, path.last(), threshold));
        assert(path[path.len() - 1] == path.last());
        if before.dragged {
            let i = choose|i: int|
                0 <= i < rest.len() && moved_far(
                    start,
                    #[trigger] rest[i],
                    threshold,
                );
            assert(path[i] == rest[i]);
        }
        if exists|i: int|
            0 <= i < path.len() && moved_far(
                start,
                #[trigger] path[i],
                threshold,
            ) {
            let i = choose|i: int|
                0 <= i < path.len() && moved_far(
                    start,
                    #[trigger] path[i],
                    threshold,
                );
            if i < rest.len() {
                assert(rest[i] == path[i]);
            }
        }
    }
}

/// What each message asks a window for that is set up, by its number, and that
/// any other window leaves all of them to the system.
pub proof fn law_messages_to_windows(msg: u32)
    ensures
        asked(true, msg) == Ask::Paint <==> msg == 0x000F,
        asked(true, msg) == Ask::Press <==> msg == 0x0201,
        asked(true, msg) == Ask::Move <==> msg == 0x0200,
        asked(true, msg) == Ask::Release <==> msg == 0x0202,
        asked(true, msg) == Ask::Nothing <==> msg == 0x0002,
        asked(false, msg) == Ask::Default,
{
}

/// Windows to dock to are all but the dragged one, in their order, as far as
/// their place is known.
pub proof fn law_a_window_does_not_dock_to_itself(
    windows: Seq<(usize, Option<Rect>)>,
    handle: usize,
    found: Option<Rect>,
    exclude: usize,
)
    ensures
        others_of(Seq::empty(), exclude).len() == 0,
        handle == exclude || found is None ==> others_of(windows.push((handle, found)), exclude)
            == others_of(windows, exclude),
        handle != exclude && found is Some ==> others_of(windows.push((handle, found)), exclude)
            == others_of(windows, exclude).push(found->0),
{
    assert(windows.push((handle, found)).drop_last() =~= windows);
}

/// A rectangle is as wide as its right edge is from its left one, and as high
/// as its bottom is from its top.
pub proof fn law_sizes_of_rectangles(rect: Rect)
    ensures
        rect.left + width_of(rect) == rect.right,
        rect.top + height_of(rect) == rect.bottom,
{
}

/// A press that ends goes to the client of the preview unless it was a drag,
/// whose place is remembered. Without a press nothing happens.
pub proof fn law_the_end_of_a_press(d: DragState, source_id: u32)
    ensures
        released(d, source_id) == PreviewRelease::Nothing <==> !d.drag_active,
        released(d, source_id) == PreviewRelease::Remember <==> d.drag_active && d.dragged,
        released(d, source_id) == PreviewRelease::Activate(source_id) <==> d.drag_active
            && !d.dragged,
{
}

/// The pointer goes through its places one after the other.
pub proof fn law_places_count_one_by_one(
    d: DragState,
    path: Seq<(i32, i32)>,
    next: (i32, i32),
    locked: bool,
    threshold: i32,
)
    ensures
        moved_through(d, Seq::empty(), locked, threshold) == d,
        moved_through(d, path.push(next), locked, threshold) == moved(
            moved_through(d, path, locked, threshold),
            next,
            locked,
            threshold,
        ),
{
    assert(path.push(next).drop_last() =~= path);
}

} // verus!
