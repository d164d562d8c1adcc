//! What preview windows, nameplates and the client list look like.

use vstd::prelude::*;

use crate::geometry::{covers, roomy, Area};
use crate::window_manager::{EveWindow, WindowModel};

verus! {

/// Sizes of the windows, in pixels at 96 dots per inch.
pub const LIST_WIDTH: i32 = 260;

pub const LIST_ROW_HEIGHT: i32 = 24;

pub const LIST_PADDING: i32 = 6;

pub const LIST_TITLE_HEIGHT: i32 = 24;

/// Room above the first row of the list, and left and right of every row.
pub const LIST_TOP_GAP: i32 = 2;

pub const LIST_LEFT_PAD: i32 = 10;

pub const LIST_RIGHT_PAD: i32 = 6;

pub const BORDER_WIDTH: i32 = 3;

/// How far a nameplate stands from the inner corner of its preview.
pub const NAMEPLATE_INSET: i32 = 4;

/// Room around the text of a nameplate.
pub const NAMEPLATE_PADDING_X: i32 = 6;

pub const NAMEPLATE_PADDING_Y: i32 = 2;

/// The least size of a nameplate.
pub const NAMEPLATE_MIN_WIDTH: i32 = 20;

pub const NAMEPLATE_MIN_HEIGHT: i32 = 14;

/// How opaque a nameplate is.
pub const NAMEPLATE_ALPHA: u8 = 225;

/// How far the pointer moves before a press becomes a drag.
pub const DRAG_THRESHOLD_PX: i32 = 4;

/// How near edges come before a dragged preview docks.
pub const SNAP_THRESHOLD: i32 = 12;

/// Colors, as blue, green and red from the high byte to the low one.
pub const INARI_ORANGE: u32 = 0x0000_77FF;

pub const INARI_BG_PRIMARY: u32 = 0x001A_0E0A;

pub const INARI_BG_SECONDARY: u32 = 0x0025_150F;

pub const INARI_TEXT: u32 = 0x00F5_F0F0;

pub const NICOTINE_RED: u32 = 0x003A_1EC4;

/// The color of a preview's frame: orange for the client that has the focus.
pub fn chrome_color(is_active: bool) -> (r: u32)
    ensures
        r == if is_active {
            INARI_ORANGE
        } else {
            INARI_BG_PRIMARY
        },
        r == if is_active {
            0x0000_77FFu32
        } else {
            0x001A_0E0Au32
        },
{
    if is_active {
        INARI_ORANGE
    } else {
        INARI_BG_PRIMARY
    }
}

/// The color of a name on a nameplate: orange for the client that has the
/// focus.
pub fn nameplate_color(is_active: bool) -> (r: u32)
    ensures
        r == if is_active {
            INARI_ORANGE
        } else {
            INARI_TEXT
        },
        r == if is_active {
            0x0000_77FFu32
        } else {
            0x00F5_F0F0u32
        },
{
    if is_active {
        INARI_ORANGE
    } else {
        INARI_TEXT
    }
}

/// The part of a preview that shows the client: all of it but the frame.
pub open spec fn inside_frame(width: i32, height: i32, border: i32) -> Area {
    Area {
        left: border as i64,
        top: border as i64,
        right: (width - border) as i64,
        bottom: (height - border) as i64,
    }
}

/// The part of a preview that shows the client.
pub fn thumbnail_area(width: i32, height: i32, border: i32) -> (r: Area)
    ensures
        r == inside_frame(width, height, border),
{
    Area {
        left: border as i64,
        top: border as i64,
        right: width as i64 - border as i64,
        bottom: height as i64 - border as i64,
    }
}

/// The four sides of a preview's frame.
#[derive(Debug, Clone, Copy, PartialEq, Eq, Structural)]
pub struct Frame {
    pub top: Area,
    pub left: Area,
    pub right: Area,
    pub bottom: Area,
}

/// The four sides of the frame of a preview of some size.
pub open spec fn frame_of(width: i32, height: i32, border: i32) -> Frame {
    let w = width as i64;
    let h = height as i64;
    Frame {
        top: Area { left: 0, top: 0, right: w, bottom: border as i64 },
        left: Area { left: 0, top: 0, right: border as i64, bottom: h },
        right: Area { left: (width - border) as i64, top: 0, right: w, bottom: h },
        bottom: Area { left: 0, top: (height - border) as i64, right: w, bottom: h },
    }
}

/// The four sides of a preview's frame, each of them `border` wide.
pub fn chrome_frame(width: i32, height: i32, border: i32) -> (r: Frame)
    ensures
        r == frame_of(width, height, border),
{
    let w: i64 = width as i64;
    let h: i64 = height as i64;
    let b: i64 = border as i64;
    Frame {
        top: Area { left: 0, top: 0, right: w, bottom: b },
        left: Area { left: 0, top: 0, right: b, bottom: h },
        right: Area { left: w - b, top: 0, right: w, bottom: h },
        bottom: Area { left: 0, top: h - b, right: w, bottom: h },
    }
}

/// Each point of a preview belongs either to its frame or to the part that
/// shows the client, and neither reaches beyond the preview.
pub proof fn law_frame_surrounds_thumbnail(width: i32, height: i32, border: i32, x: int, y: int)
    requires
        0 <= border,
        border <= width,
        border <= height,
    ensures
        ({
            let f = frame_of(width, height, border);
            let framed = covers(f.top, x, y) || covers(
                f.left,
                x,
                y,
            ) || covers(f.right, x, y) || covers(f.bottom, x, y);
            let shown = covers(inside_frame(width, height, border), x, y);
            &&& !(framed && shown)
            &&& (framed || shown) == (0 <= x < width && 0 <= y < height)
        }),
{
}

/// Where the nameplate of a preview at `(x, y)` stands: inside the frame, a
/// little away from its corner.
pub fn nameplate_position(x: i64, y: i64, border: i32, inset: i32) -> (r: (i64, i64))
    requires
        roomy(x),
        roomy(y),
    ensures
        r.0 == x + border + inset,
        r.1 == y + border + inset,
{
    (x + border as i64 + inset as i64, y + border as i64 + inset as i64)
}

/// A length around a text, of at least `least`.
pub open spec fn padded(text: i32, padding: i32, least: i32) -> int {
    if text + 2 * padding >= least {
        text + 2 * padding
    } else {
        least as int
    }
}

fn pad(text: i32, padding: i32, least: i32) -> (r: i64)
    ensures
        r == padded(text, padding, least),
{
    let length: i64 = text as i64 + 2 * padding as i64;
    if length >= least as i64 {
        length
    } else {
        least as i64
    }
}

/// The size of the nameplate around a text of some size: padding on every
/// side, and never less than the least size.
pub fn nameplate_size(
    text: (i32, i32),
    padding: (i32, i32),
    least: (i32, i32),
) -> (r: (i64, i64))
    ensures
        r.0 == padded(text.0, padding.0, least.0),
        r.1 == padded(text.1, padding.1, least.1),
{
    (pad(text.0, padding.0, least.0), pad(text.1, padding.1, least.1))
}

/// Where the name stands on a nameplate of some size.
pub fn nameplate_text_area(width: i32, height: i32, padding_x: i32) -> (r: Area)
    ensures
        r == (Area {
            left: padding_x as i64,
            top: 0,
            right: (width - padding_x) as i64,
            bottom: height as i64,
        }),
{
    Area {
        left: padding_x as i64,
        top: 0,
        right: width as i64 - padding_x as i64,
        bottom: height as i64,
    }
}

/// The sizes of the client list on a display.
#[derive(Debug, Clone, Copy, PartialEq, Eq, Structural)]
pub struct ListMetrics {
    pub title_height: i32,
    pub row_height: i32,
    pub padding: i32,
    pub top_gap: i32,
    pub left_pad: i32,
    pub right_pad: i32,
}

/// The height of the client list: its title, a row for each client and at
/// least one, and some room below.
pub open spec fn list_height(clients: int, m: ListMetrics) -> int {
    let rows = if clients >= 1 {
        clients
    } else {
        1
    };
    m.title_height + rows * m.row_height + m.padding
}

/// The height of the client list for some number of clients.
pub fn list_window_height(num_clients: usize, metrics: &ListMetrics) -> (r: i64)
    requires
        num_clients <= i32::MAX,
    ensures
        r == list_height(num_clients as int, *metrics),
{
    let rows: i64 = if num_clients >= 1 {
        num_clients as i64
    } else {
        1
    };
    let row: i64 = metrics.row_height as i64;
    assert(-0x4000_0000_0000_0000 <= rows * row <= 0x4000_0000_0000_0000) by (nonlinear_arith)
        requires
            1 <= rows <= 0x7fff_ffff,
            -0x8000_0000 <= row <= 0x7fff_ffff,
    ;
    metrics.title_height as i64 + rows * row + metrics.padding as i64
}

/// The title strip of a client list of some width.
pub fn list_title_area(width: i32, metrics: &ListMetrics) -> (r: Area)
    ensures
        r == (Area { left: 0, top: 0, right: width as i64, bottom: metrics.title_height as i64 }),
{
    Area { left: 0, top: 0, right: width as i64, bottom: metrics.title_height as i64 }
}

/// The part of a client list below its title.
pub fn list_body_area(width: i32, height: i32, metrics: &ListMetrics) -> (r: Area)
    ensures
        r == (Area {
            left: 0,
            top: metrics.title_height as i64,
            right: width as i64,
            bottom: height as i64,
        }),
{
    Area {
        left: 0,
        top: metrics.title_height as i64,
        right: width as i64,
        bottom: height as i64,
    }
}

/// A row of the client list.
#[derive(Debug)]
pub struct ListRow {
    pub text: String,
    pub color: u32,
    pub area: Area,
}

/// A row of the client list, by what its text says.
pub struct RowModel {
    pub text: Seq<char>,
    pub color: u32,
    pub area: Area,
}

impl View for ListRow {
    type V = RowModel;

    open spec fn view(&self) -> RowModel {
        RowModel { text: self.text@, color: self.color, area: self.area }
    }
}

/// Where the row at place `i` starts.
pub open spec fn row_top(i: int, m: ListMetrics) -> int {
    m.title_height + m.top_gap + i * m.row_height
}

/// The row at place `i` of the client list. That of the client that has the
/// focus is red and starts with a cigarette; the others are indented as much.
pub open spec fn row_of(
    w: WindowModel,
    active_id: u32,
    i: int,
    width: i32,
    m: ListMetrics,
) -> RowModel {
    RowModel {
        text: if w.id == active_id {
            "🚬 "@ + w.title
        } else {
            "     "@ + w.title
        },
        color: if w.id == active_id {
            NICOTINE_RED
        } else {
            INARI_TEXT
        },
        area: Area {
            left: m.left_pad as i64,
            top: row_top(i, m) as i64,
            right: (width - m.right_pad) as i64,
            bottom: row_top(i + 1, m) as i64,
        },
    }
}

/// The rows of the client list, one for each window in the order given.
pub fn list_rows(
    windows: &Vec<EveWindow>,
    active_id: u32,
    width: i32,
    metrics: &ListMetrics,
) -> (r: Vec<ListRow>)
    requires
        windows@.len() <= i32::MAX,
    ensures
        r@.len() == windows@.len(),
        forall|i: int|
            0 <= i < r@.len() ==> (#[trigger] r@[i])@ == row_of(
                windows@[i]@,
                active_id,
                i,
                width,
                *metrics,
            ),
{
    let mut rows: Vec<ListRow> = Vec::new();
    let row: i64 = metrics.row_height as i64;
    let mut y: i64 = metrics.title_height as i64 + metrics.top_gap as i64;
    let mut i: usize = 0;
    assert(row_top(0, *metrics) == y) by (nonlinear_arith)
        requires
            y == metrics.title_height + metrics.top_gap,
    ;
    while i < windows.len()
        invariant
            i <= windows@.len() <= i32::MAX,
            row == metrics.row_height,
            y == row_top(i as int, *metrics),
            rows@.len() == i,
            forall|j: int|
                0 <= j < i ==> (#[trigger] rows@[j])@ == row_of(
                    windows@[j]@,
                    active_id,
                    j,
                    width,
                    *metrics,
                ),
        decreases windows@.len() - i,
    {
        let window: &EveWindow = &windows[i];
        let is_active: bool = window.id == active_id;
        let mut text: String = if is_active {
            "🚬 ".to_owned()
        } else {
            "     ".to_owned()
        };
        text.append(window.title.as_str());
        let k: i64 = i as i64;
        assert(row_top(i + 1, *metrics) == row_top(i as int, *metrics) + row) by (nonlinear_arith)
            requires
                row == metrics.row_height,
        ;
        assert(-0x4000_0000_0000_0000 <= k * row <= 0x4000_0000_0000_0000) by (nonlinear_arith)
            requires
                0 <= k <= 0x7fff_ffff,
                -0x8000_0000 <= row <= 0x7fff_ffff,
        ;
        let next: i64 = y + row;
        let area: Area = Area {
            left: metrics.left_pad as i64,
            top: y,
            right: width as i64 - metrics.right_pad as i64,
            bottom: next,
        };
        let color: u32 = if is_active {
            NICOTINE_RED
        } else {
            INARI_TEXT
        };
        rows.push(ListRow { text, color, area });
        y = next;
        i = i + 1;
    }
    rows
}

/// Every row lies below the title and above the lower edge of a list of the
/// height for that many clients, and each row starts where the one before it
/// ends.
pub proof fn law_rows_fit_the_list(clients: int, i: int, m: ListMetrics)
    requires
        0 <= i < clients,
        0 <= m.row_height,
        0 <= m.top_gap <= m.padding,
    ensures
        m.title_height <= row_top(i, m),
        row_top(i + 1, m) == row_top(i, m) + m.row_height,
        row_top(i + 1, m) <= list_height(clients, m),
{
    assert(row_top(i + 1, m) == row_top(i, m) + m.row_height) by (nonlinear_arith);
    assert(0 <= i * m.row_height) by (nonlinear_arith)
        requires
            0 <= i,
            0 <= m.row_height,
    ;
    assert((i + 1) * m.row_height <= clients * m.row_height) by (nonlinear_arith)
        requires
            i + 1 <= clients,
            0 <= m.row_height,
    ;
}

/// The client is shown where no side of the frame is, and each side is as wide
/// as the border and as long as the preview.
pub proof fn law_sides_of_the_frame(width: i32, height: i32, border: i32, x: int, y: int)
    ensures
        covers(inside_frame(width, height, border), x, y) <==> border <= x < width - border
            && border <= y < height - border,
        inside_frame(width, height, border).left == border,
        inside_frame(width, height, border).top == border,
        inside_frame(width, height, border).right == width - border,
        inside_frame(width, height, border).bottom == height - border,
        covers(frame_of(width, height, border).top, x, y) <==> 0 <= x < width && 0 <= y < border,
        covers(frame_of(width, height, border).bottom, x, y) <==> 0 <= x < width && height - border
            <= y < height,
        covers(frame_of(width, height, border).left, x, y) <==> 0 <= x < border && 0 <= y < height,
        covers(frame_of(width, height, border).right, x, y) <==> width - border <= x < width && 0
            <= y < height,
{
}

/// A length around a text has the padding on both sides, unless the least
/// length is more.
pub proof fn law_padding_is_on_both_sides(text: i32, padding: i32, least: i32)
    ensures
        padded(text, padding, least) >= text + padding + padding,
        padded(text, padding, least) >= least,
        padded(text, padding, least) == text + padding + padding || padded(text, padding, least)
            == least,
{
}

/// A list without clients is as high as one with a single client, and each
/// further client adds one row.
pub proof fn law_each_client_adds_a_row(clients: int, m: ListMetrics)
    ensures
        clients <= 1 ==> list_height(clients, m) == m.title_height + m.row_height + m.padding,
        clients >= 1 ==> list_height(clients + 1, m) == list_height(clients, m) + m.row_height,
{
    assert((clients + 1) * m.row_height == clients * m.row_height + m.row_height)
        by (nonlinear_arith);
}

/// The first row starts below the title and the gap, and each further one where
/// the one before it ends.
pub proof fn law_rows_follow_each_other(i: int, m: ListMetrics)
    ensures
        row_top(0, m) == m.title_height + m.top_gap,
        row_top(i + 1, m) == row_top(i, m) + m.row_height,
{
    assert((i + 1) * m.row_height == i * m.row_height + m.row_height) by (nonlinear_arith);
}

/// A row names its client. The one that has the focus is marked by a cigarette
/// and by red, and every row lies between the two pads.
pub proof fn law_rows_name_their_clients(
    w: WindowModel,
    active_id: u32,
    i: int,
    width: i32,
    m: ListMetrics,
)
    ensures
        w.id == active_id ==> row_of(w, active_id, i, width, m).text == "🚬 "@ + w.title
            && row_of(w, active_id, i, width, m).color == 0x003A_1EC4,
        w.id != active_id ==> row_of(w, active_id, i, width, m).text == "     "@ + w.title
            && row_of(w, active_id, i, width, m).color == 0x00F5_F0F0,
        row_of(w, active_id, i, width, m).area.left == m.left_pad,
        row_of(w, active_id, i, width, m).area.right == width - m.right_pad,
        row_of(w, active_id, i, width, m).area.top == row_top(i, m) as i64,
        row_of(w, active_id, i, width, m).area.bottom == row_top(i + 1, m) as i64,
{
}

/// The model of a row shows it as it is.
pub proof fn law_the_model_shows_the_row(row: ListRow)
    ensures
        row@.text == row.text@,
        row@.color == row.color,
        row@.area == row.area,
{
}

} // verus!
