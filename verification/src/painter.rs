//! Where the switcher's windows and items are drawn, and which item a point
//! of the screen hits.
//!
//! The app switcher is one row of application icons centred on the monitor;
//! the window switcher is a grid of window thumbnails with titles below them,
//! centred on the monitor too. The drawing itself is done by the caller with
//! the rectangles computed here.
use vstd::prelude::*;
use vstd::arithmetic::div_mod::{lemma_fundamental_div_mod, lemma_mod_pos_bound};
use vstd::string::StringExecFns;
use vstd::utf8::{
    decode_utf8, decode_utf8_encode_utf8, encode_utf8, encode_utf8_decode_utf8,
    encode_utf8_valid_utf8, is_ascii_chars, is_ascii_chars_encode_utf8, is_char_boundary,
    valid_utf8_split,
};

use crate::app::SwitchAppsState;

verus! {

pub const BG_DARK_COLOR: u32 = 0x141414;
pub const FG_DARK_COLOR: u32 = 0x242424;
pub const BG_LIGHT_COLOR: u32 = 0xe0e0e0;
pub const FG_LIGHT_COLOR: u32 = 0xf2f2f2;
pub const ALPHA_MASK: u32 = 0xff000000;
pub const ICON_SIZE: i32 = 64;
pub const WINDOW_BORDER_SIZE: i32 = 10;
pub const ICON_BORDER_SIZE: i32 = 4;
pub const SCALE_FACTOR: i32 = 6;

pub const PREVIEW_THUMBNAIL_WIDTH: i32 = 280;
pub const PREVIEW_THUMBNAIL_HEIGHT: i32 = 180;
pub const PREVIEW_PADDING: i32 = 14;
pub const PREVIEW_BORDER_SIZE: i32 = 6;
pub const PREVIEW_TITLE_HEIGHT: i32 = 28;
pub const SELECTION_BORDER_COLOR: u32 = 0x0078D4;

pub const CLOSE_BUTTON_SIZE: i32 = 20;
pub const CLOSE_BUTTON_MARGIN: i32 = 4;

/// Screen coordinates handled here lie within this distance of the origin.
pub const COORD_LIMIT: i32 = 16777216;
/// The largest number of items (applications or windows) laid out.
pub const MAX_ITEMS: i32 = 1048576;

/// A rectangle of screen or window coordinates; `right` and `bottom` are
/// exclusive.
#[derive(Clone, Copy, Debug, PartialEq, Eq, Structural)]
pub struct Rect {
    pub left: i32,
    pub top: i32,
    pub right: i32,
    pub bottom: i32,
}

#[derive(Clone, Copy, Debug, PartialEq, Eq, Structural)]
pub struct Point {
    pub x: i32,
    pub y: i32,
}

impl Rect {
    pub open spec fn bounded(self) -> bool {
        &&& -COORD_LIMIT <= self.left <= COORD_LIMIT
        &&& -COORD_LIMIT <= self.top <= COORD_LIMIT
        &&& -COORD_LIMIT <= self.right <= COORD_LIMIT
        &&& -COORD_LIMIT <= self.bottom <= COORD_LIMIT
    }

    pub open spec fn contains(self, x: int, y: int) -> bool {
        self.left <= x < self.right && self.top <= y < self.bottom
    }

    pub open spec fn width(self) -> int {
        self.right - self.left
    }

    pub open spec fn height(self) -> int {
        self.bottom - self.top
    }
}

/// A rectangle in mathematical integers; `right` and `bottom` are exclusive.
pub struct Area {
    pub left: int,
    pub top: int,
    pub right: int,
    pub bottom: int,
}

impl Area {
    pub open spec fn contains(self, x: int, y: int) -> bool {
        self.left <= x < self.right && self.top <= y < self.bottom
    }

    /// Every point of `self` is a point of `outer`.
    pub open spec fn within(self, outer: Area) -> bool {
        outer.left <= self.left && self.right <= outer.right && outer.top <= self.top
            && self.bottom <= outer.bottom
    }
}

impl View for Rect {
    type V = Area;

    open spec fn view(&self) -> Area {
        Area {
            left: self.left as int,
            top: self.top as int,
            right: self.right as int,
            bottom: self.bottom as int,
        }
    }
}

impl Point {
    pub open spec fn bounded(self) -> bool {
        -COORD_LIMIT <= self.x <= COORD_LIMIT && -COORD_LIMIT <= self.y <= COORD_LIMIT
    }
}

/// Integer division rounding toward zero, as Rust's `/` does on signed
/// integers.
pub open spec fn tdiv(a: int, b: int) -> int {
    if a >= 0 {
        a / b
    } else {
        -((-a) / b)
    }
}

pub open spec fn abs(a: int) -> int {
    if a >= 0 {
        a
    } else {
        -a
    }
}

pub open spec fn min(a: int, b: int) -> int {
    if a < b {
        a
    } else {
        b
    }
}

pub open spec fn max(a: int, b: int) -> int {
    if a > b {
        a
    } else {
        b
    }
}

proof fn lemma_div_nonneg(a: int, n: int)
    requires
        a >= 0,
        n >= 1,
    ensures
        0 <= a / n <= a,
        0 <= (a / n) * n <= a,
        a - (a / n) * n < n,
{
    lemma_fundamental_div_mod(a, n);
    lemma_mod_pos_bound(a, n);
    let q = a / n;
    let r = a % n;
    assert(q >= 0) by (nonlinear_arith)
        requires
            a == n * q + r,
            0 <= r < n,
            a >= 0,
    ;
    assert(q <= q * n) by (nonlinear_arith)
        requires
            q >= 0,
            n >= 1,
    ;
    assert(q * n == n * q) by (nonlinear_arith);
}

/// Rounding toward zero never makes a quotient or its product with the
/// divisor larger in size than the dividend.
proof fn lemma_tdiv(a: int, n: int)
    requires
        n >= 1,
    ensures
        abs(tdiv(a, n)) <= abs(a),
        abs(tdiv(a, n) * n) <= abs(a),
        a >= 0 ==> tdiv(a, n) >= 0,
        a <= 0 ==> tdiv(a, n) <= 0,
{
    if a >= 0 {
        lemma_div_nonneg(a, n);
    } else {
        lemma_div_nonneg(-a, n);
        let q = (-a) / n;
        assert(tdiv(a, n) * n == -(q * n)) by (nonlinear_arith)
            requires
                tdiv(a, n) == -q,
        ;
    }
}

proof fn lemma_mul_le_bound(a: int, i: int, n: int)
    requires
        0 <= i <= n,
    ensures
        abs(a * i) <= abs(a * n),
{
    if a >= 0 {
        assert(0 <= a * i <= a * n) by (nonlinear_arith)
            requires
                a >= 0,
                0 <= i <= n,
        ;
    } else {
        assert(a * n <= a * i <= 0) by (nonlinear_arith)
            requires
                a < 0,
                0 <= i <= n,
        ;
    }
}

/// Foreground and background colours of the switcher for a light or a dark
/// theme.
pub fn theme_color(light_theme: bool) -> (res: (u32, u32))
    ensures
        res == (if light_theme {
            (FG_LIGHT_COLOR, BG_LIGHT_COLOR)
        } else {
            (FG_DARK_COLOR, BG_DARK_COLOR)
        }),
{
    match light_theme {
        true => (FG_LIGHT_COLOR, BG_LIGHT_COLOR),
        false => (FG_DARK_COLOR, BG_DARK_COLOR),
    }
}

// ---------------------------------------------------------------------------
// The app switcher: one row of icons.
// ---------------------------------------------------------------------------

/// The layout of the app switcher, in mathematical integers.
pub struct AppsGeometry {
    pub x: int,
    pub y: int,
    pub width: int,
    pub height: int,
    pub icon_size: int,
    pub item_size: int,
}

/// The app switcher for `num_apps` icons on `monitor`: icons are as large as
/// fit in one row (at most `ICON_SIZE`), each with a border, and the window is
/// centred on the monitor.
pub open spec fn apps_geometry(monitor: Rect, num_apps: int) -> AppsGeometry {
    let monitor_width = monitor.width();
    let monitor_height = monitor.height();
    let icon_size = min(
        tdiv(monitor_width - 2 * WINDOW_BORDER_SIZE, num_apps) - ICON_BORDER_SIZE * 2,
        ICON_SIZE as int,
    );
    let item_size = icon_size + ICON_BORDER_SIZE * 2;
    let width = item_size * num_apps + WINDOW_BORDER_SIZE * 2;
    let height = item_size + WINDOW_BORDER_SIZE * 2;
    AppsGeometry {
        x: monitor.left + tdiv(monitor_width - width, 2),
        y: monitor.top + tdiv(monitor_height - height, 2),
        width,
        height,
        icon_size,
        item_size,
    }
}

/// Whether the cursor, in screen coordinates, is on the cell of the `i`th
/// icon of the app switcher laid out as `g`.
pub open spec fn app_cell_hit(g: AppsGeometry, i: int, cursor: Point) -> bool {
    let xpos = cursor.x - g.x;
    let ypos = cursor.y - g.y;
    let cx = WINDOW_BORDER_SIZE + g.item_size * i;
    let cy = WINDOW_BORDER_SIZE as int;
    cx <= xpos < cx + g.item_size && cy <= ypos < cy + g.item_size
}

/// The layout of the app switcher.
pub struct Coordinate {
    pub x: i32,
    pub y: i32,
    pub width: i32,
    pub height: i32,
    pub icon_size: i32,
    pub item_size: i32,
}

impl View for Coordinate {
    type V = AppsGeometry;

    open spec fn view(&self) -> AppsGeometry {
        AppsGeometry {
            x: self.x as int,
            y: self.y as int,
            width: self.width as int,
            height: self.height as int,
            icon_size: self.icon_size as int,
            item_size: self.item_size as int,
        }
    }
}

/// The sizes of the app switcher stay well inside `i32`.
pub open spec fn apps_geometry_bounded(g: AppsGeometry, num_apps: int) -> bool {
    &&& -0x800_0000 <= g.item_size <= ICON_SIZE + 2 * ICON_BORDER_SIZE
    &&& abs(g.item_size * num_apps) <= 0x800_0000
    &&& abs(g.x) <= 0x1000_0000
    &&& abs(g.y) <= 0x1000_0000
}

proof fn lemma_apps_geometry_bounded(monitor: Rect, num_apps: int)
    requires
        monitor.bounded(),
        1 <= num_apps <= MAX_ITEMS,
    ensures
        apps_geometry_bounded(apps_geometry(monitor, num_apps), num_apps),
        abs(apps_geometry(monitor, num_apps).width) <= 0x800_0000 + 20,
{
    let g = apps_geometry(monitor, num_apps);
    let a = monitor.width() - 2 * WINDOW_BORDER_SIZE;
    lemma_tdiv(a, num_apps);
    let t = tdiv(a, num_apps);
    if t - 8 < 64 {
        assert(g.item_size == t);
    } else {
        assert(g.item_size == 72);
        assert(g.item_size * num_apps <= 72 * MAX_ITEMS) by (nonlinear_arith)
            requires
                g.item_size == 72,
                1 <= num_apps <= MAX_ITEMS,
        ;
        assert(g.item_size * num_apps >= 0) by (nonlinear_arith)
            requires
                g.item_size == 72,
                1 <= num_apps,
        ;
    }
    lemma_tdiv(monitor.width() - g.width, 2);
    lemma_tdiv(monitor.height() - g.height, 2);
}

impl Coordinate {
    /// Lays out the app switcher for `num_apps` icons on `monitor`.
    pub fn new(monitor: Rect, num_apps: i32) -> (res: Coordinate)
        requires
            monitor.bounded(),
            1 <= num_apps <= MAX_ITEMS,
        ensures
            res@ == apps_geometry(monitor, num_apps as int),
    {
        proof {
            lemma_apps_geometry_bounded(monitor, num_apps as int);
            lemma_tdiv(monitor.width() - 2 * WINDOW_BORDER_SIZE, num_apps as int);
        }
        let monitor_width = monitor.right - monitor.left;
        let monitor_height = monitor.bottom - monitor.top;

        let fit = (monitor_width - 2 * WINDOW_BORDER_SIZE) / num_apps - ICON_BORDER_SIZE * 2;
        let icon_size = if fit < ICON_SIZE {
            fit
        } else {
            ICON_SIZE
        };

        let item_size = icon_size + ICON_BORDER_SIZE * 2;
        let width = item_size * num_apps + WINDOW_BORDER_SIZE * 2;
        let height = item_size + WINDOW_BORDER_SIZE * 2;
        proof {
            lemma_tdiv(monitor_width - width, 2);
            lemma_tdiv(monitor_height - height, 2);
        }
        let x = monitor.left + (monitor_width - width) / 2;
        let y = monitor.top + (monitor_height - height) / 2;

        Coordinate { x, y, width, height, icon_size, item_size }
    }
}

/// The cells of two different icons never share a point.
pub proof fn lemma_app_cells_disjoint(g: AppsGeometry, i: int, j: int, cursor: Point)
    requires
        0 <= i < j,
    ensures
        !(app_cell_hit(g, i, cursor) && app_cell_hit(g, j, cursor)),
{
    if g.item_size > 0 {
        assert(g.item_size * j >= g.item_size * (i + 1)) by (nonlinear_arith)
            requires
                g.item_size > 0,
                j >= i + 1,
        ;
        assert(g.item_size * (i + 1) == g.item_size * i + g.item_size) by (nonlinear_arith);
    }
}

/// Every icon cell lies inside the app switcher's window.
pub proof fn lemma_app_cells_inside(monitor: Rect, num_apps: int, i: int)
    requires
        1 <= num_apps,
        0 <= i < num_apps,
        apps_geometry(monitor, num_apps).item_size > 0,
    ensures
        ({
            let g = apps_geometry(monitor, num_apps);
            let cx = WINDOW_BORDER_SIZE + g.item_size * i;
            &&& 0 <= cx
            &&& cx + g.item_size <= g.width
            &&& WINDOW_BORDER_SIZE + g.item_size <= g.height
        }),
{
    let g = apps_geometry(monitor, num_apps);
    assert(0 <= g.item_size * i) by (nonlinear_arith)
        requires
            g.item_size > 0,
            i >= 0,
    ;
    assert(g.item_size * i + g.item_size <= g.item_size * num_apps) by (nonlinear_arith)
        requires
            g.item_size > 0,
            i + 1 <= num_apps,
    ;
}

/// Finds the icon of the app switcher under the cursor, if any.
pub fn find_clicked_app_index(state: &SwitchAppsState, monitor: Rect, cursor: Point) -> (res:
    Option<usize>)
    requires
        1 <= state.apps.len() <= MAX_ITEMS,
        monitor.bounded(),
        cursor.bounded(),
    ensures
        ({
            let g = apps_geometry(monitor, state.apps.len() as int);
            match res {
                Some(i) => {
                    &&& i < state.apps.len()
                    &&& app_cell_hit(g, i as int, cursor)
                    &&& forall|j: int| 0 <= j < state.apps.len() && j != i ==> !app_cell_hit(g, j, cursor)
                },
                None => forall|j: int| 0 <= j < state.apps.len() ==> !app_cell_hit(g, j, cursor),
            }
        }),
{
    let num_apps = state.apps.len() as i32;
    let coord = Coordinate::new(monitor, num_apps);
    let ghost g = coord@;
    proof {
        lemma_apps_geometry_bounded(monitor, num_apps as int);
    }

    let xpos = cursor.x - coord.x;
    let ypos = cursor.y - coord.y;

    let cy = WINDOW_BORDER_SIZE;
    let n = state.apps.len();
    for i in 0..n
        invariant
            n == state.apps.len(),
            num_apps as int == n as int,
            coord@ == g,
            g == apps_geometry(monitor, n as int),
            apps_geometry_bounded(g, n as int),
            xpos == cursor.x - g.x,
            ypos == cursor.y - g.y,
            cy == WINDOW_BORDER_SIZE,
            forall|j: int| 0 <= j < i ==> !app_cell_hit(g, j, cursor),
    {
        proof {
            lemma_mul_le_bound(g.item_size, i as int, n as int);
        }
        let cx = WINDOW_BORDER_SIZE + coord.item_size * (i as i32);
        if xpos >= cx && xpos < cx + coord.item_size && ypos >= cy && ypos < cy + coord.item_size {
            proof {
                assert(app_cell_hit(g, i as int, cursor));
                assert forall|j: int| 0 <= j < n && j != i implies !app_cell_hit(g, j, cursor) by {
                    if j > i {
                        lemma_app_cells_disjoint(g, i as int, j, cursor);
                    }
                }
            }
            return Some(i);
        }
    }
    None
}

/// The sizes used to paint the app switcher: its layout, the corner radius of
/// its window and of the selection box, the size of the strip of icons, and
/// that strip drawn at `SCALE_FACTOR` times its size (then scaled down for
/// smooth edges): where each icon goes and the box behind the selected one.
pub struct AppsPaintLayout {
    pub coord: Coordinate,
    pub corner_radius: i32,
    pub icons_width: i32,
    pub icons_height: i32,
    pub scaled_width: i32,
    pub scaled_height: i32,
    pub scaled_corner_radius: i32,
    pub scaled_border_size: i32,
    pub scaled_icon_inner_size: i32,
    pub scaled_icon_outer_size: i32,
    /// The left edge of each icon on the scaled strip; all icons have their
    /// top at `scaled_border_size`.
    pub icon_lefts: Vec<i32>,
    /// The scaled box behind the selected icon, if the selection is an icon.
    pub selection_box: Option<Rect>,
}

impl AppsPaintLayout {
    /// Lays out the painting of `num_apps` icons on `monitor`, with the icon
    /// at `index` selected; the corners are rounded where `rounded_corner`.
    pub fn new(monitor: Rect, num_apps: i32, index: usize, rounded_corner: bool) -> (res:
        AppsPaintLayout)
        requires
            monitor.bounded(),
            1 <= num_apps <= MAX_ITEMS,
        ensures
            res.coord@ == apps_geometry(monitor, num_apps as int),
            res.corner_radius == (if rounded_corner {
                tdiv(res.coord.item_size as int, 4)
            } else {
                0
            }),
            res.icons_width == res.coord.item_size * num_apps,
            res.icons_height == res.coord.item_size,
            res.scaled_width == res.icons_width * SCALE_FACTOR,
            res.scaled_height == res.icons_height * SCALE_FACTOR,
            res.scaled_corner_radius == res.corner_radius * SCALE_FACTOR,
            res.scaled_border_size == ICON_BORDER_SIZE * SCALE_FACTOR,
            res.scaled_icon_inner_size == res.coord.icon_size * SCALE_FACTOR,
            res.scaled_icon_outer_size == res.scaled_icon_inner_size + res.scaled_border_size * 2,
            res.icon_lefts@.len() == num_apps,
            forall|i: int|
                0 <= i < num_apps ==> #[trigger] res.icon_lefts@[i] == res.scaled_border_size
                    + res.scaled_icon_outer_size * i,
            index < num_apps ==> (res.selection_box matches Some(b) && b@ == (Area {
                left: res.scaled_icon_outer_size * index,
                top: 0,
                right: res.scaled_icon_outer_size * index + res.scaled_icon_outer_size,
                bottom: res.scaled_icon_outer_size as int,
            })),
            index >= num_apps ==> (res.selection_box is None),
    {
        let coord = Coordinate::new(monitor, num_apps);
        proof {
            lemma_apps_geometry_bounded(monitor, num_apps as int);
            lemma_tdiv(coord.item_size as int, 4);
        }
        let corner_radius = if rounded_corner {
            coord.item_size / 4
        } else {
            0
        };
        let icons_width = coord.item_size * num_apps;
        let icons_height = coord.item_size;

        let scaled_width = icons_width * SCALE_FACTOR;
        let scaled_height = icons_height * SCALE_FACTOR;
        let scaled_corner_radius = corner_radius * SCALE_FACTOR;
        let scaled_border_size = ICON_BORDER_SIZE * SCALE_FACTOR;
        let scaled_icon_inner_size = coord.icon_size * SCALE_FACTOR;
        let scaled_icon_outer_size = scaled_icon_inner_size + scaled_border_size * 2;
        let ghost outer = scaled_icon_outer_size as int;
        assert(outer == 6 * coord.item_size);

        let mut icon_lefts: Vec<i32> = Vec::new();
        let mut selection_box: Option<Rect> = None;
        let n = num_apps as usize;
        for i in 0..n
            invariant
                n == num_apps,
                1 <= num_apps <= MAX_ITEMS,
                outer == scaled_icon_outer_size,
                outer == 6 * coord.item_size,
                abs(coord.item_size * num_apps) <= 0x800_0000,
                -0x800_0000 <= coord.item_size <= 72,
                scaled_border_size == ICON_BORDER_SIZE * SCALE_FACTOR,
                icon_lefts@.len() == i,
                forall|k: int|
                    0 <= k < i ==> #[trigger] icon_lefts@[k] == scaled_border_size
                        + scaled_icon_outer_size * k,
                index < i ==> (selection_box matches Some(b) && b@ == (Area {
                    left: outer * index,
                    top: 0,
                    right: outer * index + outer,
                    bottom: outer,
                })),
                index >= i ==> (selection_box is None),
        {
            proof {
                lemma_mul_le_bound(coord.item_size as int, i as int, num_apps as int);
                lemma_mul_le_bound(coord.item_size as int, i as int + 1, num_apps as int);
                assert(outer * i == 6 * (coord.item_size * i)) by (nonlinear_arith)
                    requires
                        outer == 6 * coord.item_size,
                ;
                assert(outer * (i + 1) == 6 * (coord.item_size * (i + 1))) by (nonlinear_arith)
                    requires
                        outer == 6 * coord.item_size,
                ;
                assert(outer * (i + 1) == outer * i + outer) by (nonlinear_arith);
            }
            if i == index {
                let left = scaled_icon_outer_size * (i as i32);
                let top: i32 = 0;
                let right = left + scaled_icon_outer_size;
                let bottom = top + scaled_icon_outer_size;
                selection_box = Some(Rect { left, top, right, bottom });
            }
            let cx = scaled_border_size + scaled_icon_outer_size * (i as i32);
            icon_lefts.push(cx);
        }

        AppsPaintLayout {
            coord,
            corner_radius,
            icons_width,
            icons_height,
            scaled_width,
            scaled_height,
            scaled_corner_radius,
            scaled_border_size,
            scaled_icon_inner_size,
            scaled_icon_outer_size,
            icon_lefts,
            selection_box,
        }
    }
}


// ---------------------------------------------------------------------------
// The window switcher: a grid of window thumbnails.
// ---------------------------------------------------------------------------

/// The width of one cell of the preview grid.
pub open spec fn preview_item_width() -> int {
    PREVIEW_THUMBNAIL_WIDTH + PREVIEW_PADDING * 2
}

/// The height of one cell of the preview grid.
pub open spec fn preview_item_height() -> int {
    PREVIEW_THUMBNAIL_HEIGHT + PREVIEW_TITLE_HEIGHT + PREVIEW_PADDING * 2
}

/// How many thumbnails go in a row: as many as fit in the monitor's width
/// less a margin, at least one, and no more than there are windows.
pub open spec fn preview_items_per_row(monitor_width: int, num_windows: int) -> int {
    min(
        max(tdiv(monitor_width - 100 - PREVIEW_PADDING * 2, preview_item_width()), 1),
        num_windows,
    )
}

/// The number of rows that `num_windows` thumbnails take, `per_row` a row.
pub open spec fn preview_rows(num_windows: int, per_row: int) -> int {
    (num_windows + per_row - 1) / per_row
}

/// The layout of the window switcher, in mathematical integers.
pub struct PreviewGeometry {
    pub x: int,
    pub y: int,
    pub width: int,
    pub height: int,
    pub item_width: int,
    pub item_height: int,
}

/// The window switcher for `num_windows` thumbnails on `monitor`: a grid of
/// cells, with a padding round it, centred on the monitor.
pub open spec fn preview_geometry(monitor: Rect, num_windows: int) -> PreviewGeometry {
    let per_row = preview_items_per_row(monitor.width(), num_windows);
    let rows = preview_rows(num_windows, per_row);
    let width = per_row * preview_item_width() + PREVIEW_PADDING * 2;
    let height = rows * preview_item_height() + PREVIEW_PADDING * 2;
    PreviewGeometry {
        x: monitor.left + tdiv(monitor.width() - width, 2),
        y: monitor.top + tdiv(monitor.height() - height, 2),
        width,
        height,
        item_width: preview_item_width(),
        item_height: preview_item_height(),
    }
}

/// The number of cells in a row of the grid `g`, as read back from its width.
pub open spec fn row_capacity(g: PreviewGeometry) -> int {
    max(tdiv(g.width - PREVIEW_PADDING * 2, g.item_width), 1)
}

/// The thumbnail of the `index`th window, relative to the switcher's window.
pub open spec fn preview_item_area(g: PreviewGeometry, index: int) -> Area {
    let per_row = row_capacity(g);
    let row = index / per_row;
    let col = index % per_row;
    let left = PREVIEW_PADDING + col * g.item_width + PREVIEW_PADDING;
    let top = PREVIEW_PADDING + row * g.item_height + PREVIEW_PADDING;
    Area {
        left,
        top,
        right: left + PREVIEW_THUMBNAIL_WIDTH,
        bottom: top + PREVIEW_THUMBNAIL_HEIGHT,
    }
}

/// The area of a preview that takes clicks: its thumbnail with the border
/// round it and the title below it.
pub open spec fn preview_click_area(item: Area) -> Area {
    Area {
        left: item.left - PREVIEW_BORDER_SIZE,
        top: item.top - PREVIEW_BORDER_SIZE,
        right: item.right + PREVIEW_BORDER_SIZE,
        bottom: item.bottom + PREVIEW_TITLE_HEIGHT + PREVIEW_BORDER_SIZE,
    }
}

/// The close button in the top right corner of a thumbnail.
pub open spec fn close_button_area(item: Area) -> Area {
    Area {
        left: item.right - CLOSE_BUTTON_SIZE - CLOSE_BUTTON_MARGIN,
        top: item.top + CLOSE_BUTTON_MARGIN,
        right: item.right - CLOSE_BUTTON_MARGIN,
        bottom: item.top + CLOSE_BUTTON_SIZE + CLOSE_BUTTON_MARGIN,
    }
}

/// Whether the cursor, in screen coordinates, is on the `i`th preview.
pub open spec fn preview_hit(g: PreviewGeometry, i: int, cursor: Point) -> bool {
    preview_click_area(preview_item_area(g, i)).contains(cursor.x - g.x, cursor.y - g.y)
}

/// Whether the cursor, in screen coordinates, is on the close button of the
/// `i`th preview.
pub open spec fn close_button_hit(g: PreviewGeometry, i: int, cursor: Point) -> bool {
    close_button_area(preview_item_area(g, i)).contains(cursor.x - g.x, cursor.y - g.y)
}

/// `res` is the preview under the cursor among `num_windows` on `monitor`:
/// the one whose click area holds the cursor, or none if no such area does.
pub open spec fn preview_hit_result(
    monitor: Rect,
    num_windows: int,
    cursor: Point,
    res: Option<usize>,
) -> bool {
    let g = preview_geometry(monitor, num_windows);
    match res {
        Some(i) => {
            &&& i < num_windows
            &&& preview_hit(g, i as int, cursor)
            &&& forall|j: int| 0 <= j < num_windows && j != i ==> !preview_hit(g, j, cursor)
        },
        None => forall|j: int| 0 <= j < num_windows ==> !preview_hit(g, j, cursor),
    }
}

/// The grid stays well inside `i32`, and its cell sizes are the fixed ones.
pub open spec fn preview_geometry_bounded(g: PreviewGeometry) -> bool {
    &&& g.item_width == preview_item_width()
    &&& g.item_height == preview_item_height()
    &&& preview_item_width() + PREVIEW_PADDING * 2 <= g.width <= preview_item_width() * MAX_ITEMS
        + PREVIEW_PADDING * 2
    &&& abs(g.x) <= 0x1000_0000
    &&& abs(g.y) <= 0x1000_0000
}

proof fn lemma_rows(num_windows: int, per_row: int)
    requires
        1 <= per_row <= num_windows,
    ensures
        1 <= preview_rows(num_windows, per_row) <= num_windows,
        forall|i: int|
            0 <= i < num_windows ==> #[trigger] (i / per_row) < preview_rows(num_windows, per_row),
{
    let r = preview_rows(num_windows, per_row);
    let m = num_windows + per_row - 1;
    lemma_div_nonneg(m, per_row);
    assert(r >= 1) by (nonlinear_arith)
        requires
            m - (m / per_row) * per_row < per_row,
            m >= per_row,
            r == m / per_row,
    ;
    assert(r <= num_windows) by (nonlinear_arith)
        requires
            0 <= (m / per_row) * per_row <= m,
            r == m / per_row,
            per_row >= 1,
            m == num_windows + per_row - 1,
            r >= 1,
    ;
    assert forall|i: int| 0 <= i < num_windows implies #[trigger] (i / per_row) < r by {
        lemma_div_nonneg(i, per_row);
        let q = i / per_row;
        assert(q < r) by (nonlinear_arith)
            requires
                0 <= q * per_row <= i,
                i < num_windows,
                m - r * per_row < per_row,
                m == num_windows + per_row - 1,
                per_row >= 1,
        ;
    }
}

/// The window switcher's grid stays well inside `i32`, has between one and
/// `num_windows` cells a row and as many rows, and the number of cells a row
/// read back from its width is the one it was laid out with.
pub proof fn lemma_preview_geometry_bounded(monitor: Rect, num_windows: int)
    requires
        monitor.bounded(),
        1 <= num_windows <= MAX_ITEMS,
    ensures
        preview_geometry_bounded(preview_geometry(monitor, num_windows)),
        ({
            let per_row = preview_items_per_row(monitor.width(), num_windows);
            let g = preview_geometry(monitor, num_windows);
            &&& 1 <= per_row <= num_windows
            &&& 1 <= preview_rows(num_windows, per_row) <= num_windows
            &&& row_capacity(g) == per_row
            &&& g.width == per_row * preview_item_width() + PREVIEW_PADDING * 2
        }),
{
    let per_row = preview_items_per_row(monitor.width(), num_windows);
    let g = preview_geometry(monitor, num_windows);
    lemma_rows(num_windows, per_row);
    let rows = preview_rows(num_windows, per_row);
    assert(per_row * 308 <= 308 * MAX_ITEMS) by (nonlinear_arith)
        requires
            1 <= per_row <= MAX_ITEMS,
    ;
    assert(per_row * 308 >= 308) by (nonlinear_arith)
        requires
            1 <= per_row,
    ;
    assert(rows * 236 <= 236 * MAX_ITEMS) by (nonlinear_arith)
        requires
            1 <= rows <= MAX_ITEMS,
    ;
    assert(rows * 236 >= 236) by (nonlinear_arith)
        requires
            1 <= rows,
    ;
    lemma_tdiv(monitor.width() - g.width, 2);
    lemma_tdiv(monitor.height() - g.height, 2);
    assert((per_row * 308) / 308 == per_row) by (nonlinear_arith)
        requires
            per_row >= 1,
    ;
}

/// The layout of the window switcher.
pub struct PreviewCoordinate {
    pub x: i32,
    pub y: i32,
    pub width: i32,
    pub height: i32,
    pub item_width: i32,
    pub item_height: i32,
}

impl View for PreviewCoordinate {
    type V = PreviewGeometry;

    open spec fn view(&self) -> PreviewGeometry {
        PreviewGeometry {
            x: self.x as int,
            y: self.y as int,
            width: self.width as int,
            height: self.height as int,
            item_width: self.item_width as int,
            item_height: self.item_height as int,
        }
    }
}

impl PreviewCoordinate {
    /// Lays out the window switcher for `num_windows` thumbnails on `monitor`.
    pub fn new(monitor: Rect, num_windows: i32) -> (res: PreviewCoordinate)
        requires
            monitor.bounded(),
            1 <= num_windows <= MAX_ITEMS,
        ensures
            res@ == preview_geometry(monitor, num_windows as int),
            preview_geometry_bounded(res@),
    {
        proof {
            lemma_preview_geometry_bounded(monitor, num_windows as int);
            lemma_tdiv(monitor.width() - 100 - PREVIEW_PADDING * 2, preview_item_width());
        }
        let monitor_width = monitor.right - monitor.left;
        let monitor_height = monitor.bottom - monitor.top;

        let max_width = monitor_width - 100;
        let item_width = PREVIEW_THUMBNAIL_WIDTH + PREVIEW_PADDING * 2;
        let item_height = PREVIEW_THUMBNAIL_HEIGHT + PREVIEW_TITLE_HEIGHT + PREVIEW_PADDING * 2;

        let fit = (max_width - PREVIEW_PADDING * 2) / item_width;
        let at_least_one = if fit > 1 {
            fit
        } else {
            1
        };
        let items_per_row = if at_least_one < num_windows {
            at_least_one
        } else {
            num_windows
        };
        let rows = (num_windows + items_per_row - 1) / items_per_row;

        let width = items_per_row * item_width + PREVIEW_PADDING * 2;
        let height = rows * item_height + PREVIEW_PADDING * 2;
        proof {
            lemma_tdiv(monitor_width - width, 2);
            lemma_tdiv(monitor_height - height, 2);
        }

        let x = monitor.left + (monitor_width - width) / 2;
        let y = monitor.top + (monitor_height - height) / 2;

        PreviewCoordinate { x, y, width, height, item_width, item_height }
    }

    /// The thumbnail of the `index`th window, relative to the switcher's
    /// window.
    pub fn get_item_rect(&self, index: i32, _num_windows: i32) -> (res: Rect)
        requires
            preview_geometry_bounded(self@),
            0 <= index <= MAX_ITEMS,
        ensures
            res@ == preview_item_area(self@, index as int),
            0 <= res.left <= 0x2000_0000,
            0 <= res.top <= 0x2000_0000,
    {
        let ghost g = self@;
        proof {
            lemma_tdiv(g.width - PREVIEW_PADDING * 2, g.item_width);
        }
        let fit = (self.width - PREVIEW_PADDING * 2) / self.item_width;
        let items_per_row = if fit > 1 {
            fit
        } else {
            1
        };
        proof {
            assert(items_per_row <= MAX_ITEMS) by (nonlinear_arith)
                requires
                    fit * 308 <= g.width - 28,
                    g.width - 28 <= 308 * MAX_ITEMS,
                    items_per_row == max(fit as int, 1),
            ;
            lemma_div_nonneg(index as int, items_per_row as int);
            lemma_mod_pos_bound(index as int, items_per_row as int);
        }
        let row = index / items_per_row;
        let col = index % items_per_row;
        proof {
            assert(col * 308 <= 308 * MAX_ITEMS) by (nonlinear_arith)
                requires
                    0 <= col < items_per_row <= MAX_ITEMS,
            ;
            assert(0 <= row * 236 <= 236 * MAX_ITEMS) by (nonlinear_arith)
                requires
                    0 <= row <= index <= MAX_ITEMS,
            ;
            assert(0 <= col * 308) by (nonlinear_arith)
                requires
                    0 <= col,
            ;
        }

        let left = PREVIEW_PADDING + col * self.item_width + PREVIEW_PADDING;
        let top = PREVIEW_PADDING + row * self.item_height + PREVIEW_PADDING;

        Rect {
            left,
            top,
            right: left + PREVIEW_THUMBNAIL_WIDTH,
            bottom: top + PREVIEW_THUMBNAIL_HEIGHT,
        }
    }
}

/// The click areas of two different previews never share a point.
pub proof fn lemma_preview_hits_disjoint(g: PreviewGeometry, i: int, j: int, cursor: Point)
    requires
        preview_geometry_bounded(g),
        0 <= i,
        0 <= j,
        i != j,
    ensures
        !(preview_hit(g, i, cursor) && preview_hit(g, j, cursor)),
{
    let p = row_capacity(g);
    lemma_fundamental_div_mod(i, p);
    lemma_fundamental_div_mod(j, p);
    lemma_mod_pos_bound(i, p);
    lemma_mod_pos_bound(j, p);
    let (ri, ci, rj, cj) = (i / p, i % p, j / p, j % p);
    if ci != cj {
        assert(ci * 308 + 308 <= cj * 308 || cj * 308 + 308 <= ci * 308) by (nonlinear_arith)
            requires
                ci != cj,
        ;
    } else {
        assert(ri != rj) by (nonlinear_arith)
            requires
                i == p * ri + ci,
                j == p * rj + cj,
                ci == cj,
                i != j,
        ;
        assert(ri * 236 + 236 <= rj * 236 || rj * 236 + 236 <= ri * 236) by (nonlinear_arith)
            requires
                ri != rj,
        ;
    }
}

/// A click on the close button of a preview is a click on that preview and on
/// no other.
pub proof fn lemma_close_button_in_preview(g: PreviewGeometry, i: int, cursor: Point)
    requires
        preview_geometry_bounded(g),
        0 <= i,
        close_button_hit(g, i, cursor),
    ensures
        preview_hit(g, i, cursor),
        forall|j: int| 0 <= j && j != i ==> !preview_hit(g, j, cursor),
{
    assert forall|j: int| 0 <= j && j != i implies !preview_hit(g, j, cursor) by {
        lemma_preview_hits_disjoint(g, i, j, cursor);
    }
}

/// Finds the preview under the cursor, if any.
pub fn find_clicked_preview_index(
    state: &SwitchWindowsPreviewState,
    monitor: Rect,
    cursor: Point,
) -> (res: Option<usize>)
    requires
        state.windows.len() <= MAX_ITEMS,
        monitor.bounded(),
        cursor.bounded(),
    ensures
        preview_hit_result(monitor, state.windows.len() as int, cursor, res),
{
    let num_windows = state.windows.len() as i32;
    if num_windows == 0 {
        return None;
    }

    let coord = PreviewCoordinate::new(monitor, num_windows);
    let ghost g = coord@;

    let xpos = cursor.x - coord.x;
    let ypos = cursor.y - coord.y;

    for i in 0..num_windows
        invariant
            1 <= num_windows <= MAX_ITEMS,
            num_windows == state.windows.len(),
            coord@ == g,
            g == preview_geometry(monitor, num_windows as int),
            preview_geometry_bounded(g),
            xpos == cursor.x - g.x,
            ypos == cursor.y - g.y,
            forall|j: int| 0 <= j < i ==> !preview_hit(g, j, cursor),
    {
        let item_rect = coord.get_item_rect(i, num_windows);
        let padded_rect = Rect {
            left: item_rect.left - PREVIEW_BORDER_SIZE,
            top: item_rect.top - PREVIEW_BORDER_SIZE,
            right: item_rect.right + PREVIEW_BORDER_SIZE,
            bottom: item_rect.bottom + PREVIEW_TITLE_HEIGHT + PREVIEW_BORDER_SIZE,
        };

        if xpos >= padded_rect.left && xpos < padded_rect.right && ypos >= padded_rect.top && ypos
            < padded_rect.bottom {
            proof {
                assert(preview_hit(g, i as int, cursor));
                assert forall|j: int| 0 <= j < num_windows && j != i implies !preview_hit(
                    g,
                    j,
                    cursor,
                ) by {
                    lemma_preview_hits_disjoint(g, i as int, j, cursor);
                }
            }
            return Some(i as usize);
        }
    }
    None
}

/// Finds the preview under the mouse, for hover tracking; a preview is
/// hovered where it would be clicked.
pub fn find_hovered_preview_index(
    state: &SwitchWindowsPreviewState,
    monitor: Rect,
    cursor: Point,
) -> (res: Option<usize>)
    requires
        state.windows.len() <= MAX_ITEMS,
        monitor.bounded(),
        cursor.bounded(),
    ensures
        preview_hit_result(monitor, state.windows.len() as int, cursor, res),
{
    find_clicked_preview_index(state, monitor, cursor)
}

/// Whether the cursor is on the close button of the preview at
/// `preview_index`.
pub fn is_close_button_clicked(
    state: &SwitchWindowsPreviewState,
    preview_index: usize,
    monitor: Rect,
    cursor: Point,
) -> (res: bool)
    requires
        state.windows.len() <= MAX_ITEMS,
        monitor.bounded(),
        cursor.bounded(),
    ensures
        res == (preview_index < state.windows.len() && close_button_hit(
            preview_geometry(monitor, state.windows.len() as int),
            preview_index as int,
            cursor,
        )),
{
    let num_windows = state.windows.len() as i32;
    if num_windows == 0 || preview_index >= state.windows.len() {
        return false;
    }

    let coord = PreviewCoordinate::new(monitor, num_windows);

    let xpos = cursor.x - coord.x;
    let ypos = cursor.y - coord.y;

    let item_rect = coord.get_item_rect(preview_index as i32, num_windows);

    let close_rect = Rect {
        left: item_rect.right - CLOSE_BUTTON_SIZE - CLOSE_BUTTON_MARGIN,
        top: item_rect.top + CLOSE_BUTTON_MARGIN,
        right: item_rect.right - CLOSE_BUTTON_MARGIN,
        bottom: item_rect.top + CLOSE_BUTTON_SIZE + CLOSE_BUTTON_MARGIN,
    };

    xpos >= close_rect.left && xpos < close_rect.right && ypos >= close_rect.top && ypos
        < close_rect.bottom
}

/// State for window preview thumbnails: the windows (handle and title), the
/// selected one, the thumbnails registered for them, and the one under the
/// mouse.
#[derive(Debug)]
pub struct SwitchWindowsPreviewState {
    pub windows: Vec<(isize, String)>,
    pub index: usize,
    pub thumbnail_handles: Vec<isize>,
    pub hovered_index: Option<usize>,
}

/// How one preview is drawn: a selected preview gets the selection frame; a
/// hovered preview gets the hover background and the close button, the
/// others the foreground background.
#[derive(Clone, Copy, Debug, PartialEq, Eq, Structural)]
pub struct PreviewItemStyle {
    pub selected: bool,
    pub hovered: bool,
}

impl SwitchWindowsPreviewState {
    /// How each preview is drawn, in window order: the one at `index` is
    /// selected and the one at `hovered_index` is hovered.
    pub fn item_styles(&self) -> (res: Vec<PreviewItemStyle>)
        ensures
            res@.len() == self.windows@.len(),
            forall|i: int|
                0 <= i < self.windows@.len() ==> (#[trigger] res@[i]).selected == (i == self.index)
                    && res@[i].hovered == (self.hovered_index == Some(i as usize)),
    {
        let mut res: Vec<PreviewItemStyle> = Vec::new();
        let n = self.windows.len();
        for i in 0..n
            invariant
                n == self.windows@.len(),
                res@.len() == i,
                forall|k: int|
                    0 <= k < i ==> (#[trigger] res@[k]).selected == (k == self.index)
                        && res@[k].hovered == (self.hovered_index == Some(k as usize)),
        {
            let hovered = match self.hovered_index {
                Some(h) => h == i,
                None => false,
            };
            res.push(PreviewItemStyle { selected: i == self.index, hovered });
        }
        res
    }

    /// A preview of `windows` with `index` selected, no thumbnails registered
    /// yet and nothing hovered.
    pub fn new(windows: Vec<(isize, String)>, index: usize) -> (res: Self)
        ensures
            res.windows == windows,
            res.index == index,
            res.thumbnail_handles@ == Seq::<isize>::empty(),
            res.hovered_index is None,
    {
        SwitchWindowsPreviewState { windows, index, thumbnail_handles: Vec::new(), hovered_index: None }
    }

    /// Hands out the registered thumbnails, to be unregistered, and forgets
    /// them.
    pub fn take_thumbnail_handles(&mut self) -> (res: Vec<isize>)
        ensures
            res@ == old(self).thumbnail_handles@,
            final(self).thumbnail_handles@ == Seq::<isize>::empty(),
            final(self).windows == old(self).windows,
            final(self).index == old(self).index,
            final(self).hovered_index == old(self).hovered_index,
    {
        let mut handles: Vec<isize> = Vec::new();
        std::mem::swap(&mut handles, &mut self.thumbnail_handles);
        handles
    }
}


// ---------------------------------------------------------------------------
// Painting the window switcher.
// ---------------------------------------------------------------------------

/// The frames drawn for one preview, relative to the switcher's window.
pub struct FrameAreas {
    pub thumbnail: Area,
    pub background: Area,
    pub selection: Area,
    pub close_button: Area,
    pub title: Area,
}

/// The frames of the preview whose thumbnail is `item`: a background with a
/// border round the thumbnail and its title, a selection frame round that,
/// the close button, and the title's line below the thumbnail.
pub open spec fn preview_frames(item: Area) -> FrameAreas {
    let bg_left = item.left - PREVIEW_BORDER_SIZE;
    let bg_top = item.top - PREVIEW_BORDER_SIZE;
    let sel_left = item.left - PREVIEW_BORDER_SIZE - 2;
    let sel_top = item.top - PREVIEW_BORDER_SIZE - 2;
    FrameAreas {
        thumbnail: item,
        background: Area {
            left: bg_left,
            top: bg_top,
            right: bg_left + PREVIEW_THUMBNAIL_WIDTH + PREVIEW_BORDER_SIZE * 2,
            bottom: bg_top + PREVIEW_THUMBNAIL_HEIGHT + PREVIEW_TITLE_HEIGHT + PREVIEW_BORDER_SIZE * 2,
        },
        selection: Area {
            left: sel_left,
            top: sel_top,
            right: sel_left + PREVIEW_THUMBNAIL_WIDTH + PREVIEW_BORDER_SIZE * 2 + 4,
            bottom: sel_top + PREVIEW_THUMBNAIL_HEIGHT + PREVIEW_TITLE_HEIGHT + PREVIEW_BORDER_SIZE * 2
                + 4,
        },
        close_button: close_button_area(item),
        title: Area {
            left: bg_left,
            top: item.bottom + 2,
            right: bg_left + PREVIEW_THUMBNAIL_WIDTH + PREVIEW_BORDER_SIZE * 2,
            bottom: item.bottom + 2 + PREVIEW_TITLE_HEIGHT - 4,
        },
    }
}

/// The frames drawn for one preview.
pub struct PreviewItemFrames {
    pub thumbnail: Rect,
    pub background: Rect,
    pub selection: Rect,
    pub close_button: Rect,
    pub title: Rect,
}

impl View for PreviewItemFrames {
    type V = FrameAreas;

    open spec fn view(&self) -> FrameAreas {
        FrameAreas {
            thumbnail: self.thumbnail@,
            background: self.background@,
            selection: self.selection@,
            close_button: self.close_button@,
            title: self.title@,
        }
    }
}

/// Everything drawn of the window switcher but the thumbnails' contents and
/// the titles' text: its layout, the corner radius of its window, and the
/// frames of each preview.
pub struct PreviewPaintLayout {
    pub coord: PreviewCoordinate,
    pub corner_radius: i32,
    pub items: Vec<PreviewItemFrames>,
}

impl PreviewPaintLayout {
    /// Lays out the painting of `num_windows` previews on `monitor`; the
    /// corners are rounded where `rounded_corner`.
    pub fn new(monitor: Rect, num_windows: i32, rounded_corner: bool) -> (res: PreviewPaintLayout)
        requires
            monitor.bounded(),
            1 <= num_windows <= MAX_ITEMS,
        ensures
            res.coord@ == preview_geometry(monitor, num_windows as int),
            res.corner_radius == (if rounded_corner {
                12i32
            } else {
                0i32
            }),
            res.items@.len() == num_windows,
            forall|i: int|
                0 <= i < num_windows ==> #[trigger] res.items@[i]@ == preview_frames(
                    preview_item_area(res.coord@, i),
                ),
    {
        let coord = PreviewCoordinate::new(monitor, num_windows);
        let corner_radius: i32 = if rounded_corner {
            12
        } else {
            0
        };
        let mut items: Vec<PreviewItemFrames> = Vec::new();
        for i in 0..num_windows
            invariant
                1 <= num_windows <= MAX_ITEMS,
                preview_geometry_bounded(coord@),
                items@.len() == i,
                forall|k: int|
                    0 <= k < i ==> #[trigger] items@[k]@ == preview_frames(
                        preview_item_area(coord@, k),
                    ),
        {
            let item = coord.get_item_rect(i, num_windows);
            let bg_left = item.left - PREVIEW_BORDER_SIZE;
            let bg_top = item.top - PREVIEW_BORDER_SIZE;
            let sel_left = item.left - PREVIEW_BORDER_SIZE - 2;
            let sel_top = item.top - PREVIEW_BORDER_SIZE - 2;
            let frames = PreviewItemFrames {
                thumbnail: item,
                background: Rect {
                    left: bg_left,
                    top: bg_top,
                    right: bg_left + (PREVIEW_THUMBNAIL_WIDTH + PREVIEW_BORDER_SIZE * 2),
                    bottom: bg_top + (PREVIEW_THUMBNAIL_HEIGHT + PREVIEW_TITLE_HEIGHT
                        + PREVIEW_BORDER_SIZE * 2),
                },
                selection: Rect {
                    left: sel_left,
                    top: sel_top,
                    right: sel_left + (PREVIEW_THUMBNAIL_WIDTH + PREVIEW_BORDER_SIZE * 2 + 4),
                    bottom: sel_top + (PREVIEW_THUMBNAIL_HEIGHT + PREVIEW_TITLE_HEIGHT
                        + PREVIEW_BORDER_SIZE * 2 + 4),
                },
                close_button: Rect {
                    left: item.right - CLOSE_BUTTON_SIZE - CLOSE_BUTTON_MARGIN,
                    top: item.top + CLOSE_BUTTON_MARGIN,
                    right: item.right - CLOSE_BUTTON_MARGIN,
                    bottom: item.top + CLOSE_BUTTON_SIZE + CLOSE_BUTTON_MARGIN,
                },
                title: Rect {
                    left: bg_left,
                    top: item.bottom + 2,
                    right: bg_left + (PREVIEW_THUMBNAIL_WIDTH + PREVIEW_BORDER_SIZE * 2),
                    bottom: item.bottom + 2 + (PREVIEW_TITLE_HEIGHT - 4),
                },
            };
            items.push(frames);
        }
        PreviewPaintLayout { coord, corner_radius, items }
    }
}

/// Every frame drawn for a preview lies inside the window switcher's window.
pub proof fn lemma_preview_frames_inside(monitor: Rect, num_windows: int, i: int)
    requires
        monitor.bounded(),
        1 <= num_windows <= MAX_ITEMS,
        0 <= i < num_windows,
    ensures
        ({
            let g = preview_geometry(monitor, num_windows);
            let window = Area { left: 0, top: 0, right: g.width, bottom: g.height };
            let f = preview_frames(preview_item_area(g, i));
            &&& f.selection.within(window)
            &&& f.background.within(f.selection)
            &&& f.thumbnail.within(f.background)
            &&& f.close_button.within(f.thumbnail)
            &&& f.title.within(f.background)
        }),
{
    let g = preview_geometry(monitor, num_windows);
    lemma_preview_geometry_bounded(monitor, num_windows);
    let p = preview_items_per_row(monitor.width(), num_windows);
    let rows = preview_rows(num_windows, p);
    lemma_rows(num_windows, p);
    lemma_mod_pos_bound(i, p);
    lemma_div_nonneg(i, p);
    let row = i / p;
    let col = i % p;
    assert(row < rows);
    assert(0 <= col * 308 && col * 308 + 308 <= p * 308) by (nonlinear_arith)
        requires
            0 <= col < p,
    ;
    assert(0 <= row * 236 && row * 236 + 236 <= rows * 236) by (nonlinear_arith)
        requires
            0 <= row < rows,
    ;
}

/// The colours of the window switcher: foreground and background of the
/// theme, the title text, the background of a hovered preview, the close
/// button, the cross on it, and the outline round the title text.
pub struct PreviewPalette {
    pub fg: u32,
    pub bg: u32,
    pub text: u32,
    pub hover: u32,
    pub close_button: u32,
    pub close_mark: u32,
    pub text_outline: u32,
}

/// The colours of the window switcher for a light or a dark theme.
pub fn preview_palette(is_light: bool) -> (res: PreviewPalette)
    ensures
        (res.fg, res.bg) == (if is_light {
            (FG_LIGHT_COLOR, BG_LIGHT_COLOR)
        } else {
            (FG_DARK_COLOR, BG_DARK_COLOR)
        }),
        res.text == (if is_light {
            0xFF000000u32
        } else {
            0xFFFFFFFFu32
        }),
        res.hover == (if is_light {
            0xD8D8D8u32
        } else {
            0x505050u32
        }),
        res.close_button == 0xE81123u32,
        res.close_mark == 0xFFFFFFFFu32,
        res.text_outline == 0xFF000000u32,
{
    let (fg, bg) = theme_color(is_light);
    let text = if is_light {
        0xFF000000u32
    } else {
        0xFFFFFFFFu32
    };
    let hover = if is_light {
        0xD8D8D8u32
    } else {
        0x505050u32
    };
    PreviewPalette {
        fg,
        bg,
        text,
        hover,
        close_button: 0xE81123u32,
        close_mark: 0xFFFFFFFFu32,
        text_outline: 0xFF000000u32,
    }
}

/// The longest title shown whole, in UTF-8 bytes.
pub const TITLE_MAX_BYTES: usize = 40;
/// The bytes kept of a longer title, before the ellipsis.
pub const TITLE_KEPT_BYTES: usize = 37;

/// The encoding of two texts one after the other is the two encodings one
/// after the other.
proof fn lemma_encode_utf8_concat(a: Seq<char>, b: Seq<char>)
    ensures
        encode_utf8(a + b) == encode_utf8(a) + encode_utf8(b),
    decreases a.len(),
{
    if a.len() == 0 {
        assert(a + b =~= b);
        assert(encode_utf8(a) + encode_utf8(b) =~= encode_utf8(b));
    } else {
        lemma_encode_utf8_concat(a.drop_first(), b);
        assert((a + b).drop_first() =~= a.drop_first() + b);
        assert((a + b)[0] == a[0]);
    }
}

/// The title shown under a preview: a title of more than 40 bytes is cut to
/// its first 37 bytes followed by "...", 40 bytes in all.
pub fn display_title(title: &String) -> (res: String)
    requires
        encode_utf8(title@).len() <= usize::MAX,
        encode_utf8(title@).len() > TITLE_MAX_BYTES ==> is_char_boundary(
            encode_utf8(title@),
            TITLE_KEPT_BYTES as int,
        ),
    ensures
        res@ == (if encode_utf8(title@).len() > TITLE_MAX_BYTES {
            decode_utf8(encode_utf8(title@).subrange(0, TITLE_KEPT_BYTES as int)) + seq!['.', '.', '.']
        } else {
            title@
        }),
        encode_utf8(title@).len() > TITLE_MAX_BYTES ==> encode_utf8(res@) == encode_utf8(
            title@,
        ).subrange(0, TITLE_KEPT_BYTES as int) + seq![46u8, 46u8, 46u8],
        encode_utf8(res@).len() <= TITLE_MAX_BYTES || res@ == title@,
{
    let s = title.as_str();
    if s.len() > TITLE_MAX_BYTES {
        let (head, _rest) = s.split_at(TITLE_KEPT_BYTES);
        proof {
            encode_utf8_decode_utf8(head@);
        }
        let mut res = head.to_owned();
        let ellipsis = "...";
        proof {
            reveal_strlit("...");
            assert(ellipsis@ =~= seq!['.', '.', '.']);
            assert(encode_utf8(head@) == encode_utf8(title@).subrange(0, TITLE_KEPT_BYTES as int));
            assert(res@ == decode_utf8(encode_utf8(title@).subrange(0, TITLE_KEPT_BYTES as int)));
            let bytes = encode_utf8(title@);
            let dots = seq!['.', '.', '.'];
            encode_utf8_valid_utf8(title@);
            valid_utf8_split(bytes, TITLE_KEPT_BYTES as int);
            decode_utf8_encode_utf8(bytes.subrange(0, TITLE_KEPT_BYTES as int));
            assert(is_ascii_chars(dots));
            is_ascii_chars_encode_utf8(dots);
            assert(encode_utf8(dots) =~= seq![46u8, 46u8, 46u8]);
            lemma_encode_utf8_concat(res@, dots);
        }
        res.append(ellipsis);
        res
    } else {
        title.clone()
    }
}

/// Where a thumbnail of `width` by `height` goes when it is centred in
/// `dest`.
pub fn center_in(dest: Rect, width: i32, height: i32) -> (res: Rect)
    requires
        dest.bounded(),
        -COORD_LIMIT <= width <= COORD_LIMIT,
        -COORD_LIMIT <= height <= COORD_LIMIT,
    ensures
        ({
            let x_offset = tdiv(dest.width() - width, 2);
            let y_offset = tdiv(dest.height() - height, 2);
            res@ == Area {
                left: dest.left + x_offset,
                top: dest.top + y_offset,
                right: dest.left + x_offset + width,
                bottom: dest.top + y_offset + height,
            }
        }),
{
    let dest_width = dest.right - dest.left;
    let dest_height = dest.bottom - dest.top;
    proof {
        lemma_tdiv(dest_width - width, 2);
        lemma_tdiv(dest_height - height, 2);
    }
    let x_offset = (dest_width - width) / 2;
    let y_offset = (dest_height - height) / 2;
    Rect {
        left: dest.left + x_offset,
        top: dest.top + y_offset,
        right: dest.left + x_offset + width,
        bottom: dest.top + y_offset + height,
    }
}


/// A window of `width` by `height` placed at `x, y` is centred on `monitor`:
/// the margins left and right differ by at most one pixel, as do those above
/// and below, so the window lies inside the monitor whenever it fits.
pub open spec fn centred_on(monitor: Rect, x: int, y: int, width: int, height: int) -> bool {
    let left_margin = x - monitor.left;
    let right_margin = monitor.right - (x + width);
    let top_margin = y - monitor.top;
    let bottom_margin = monitor.bottom - (y + height);
    &&& width <= monitor.width() ==> 0 <= left_margin && 0 <= right_margin && right_margin
        - left_margin <= 1
    &&& width >= monitor.width() ==> left_margin <= 0 && right_margin <= 0 && left_margin
        - right_margin <= 1
    &&& height <= monitor.height() ==> 0 <= top_margin && 0 <= bottom_margin && bottom_margin
        - top_margin <= 1
    &&& height >= monitor.height() ==> top_margin <= 0 && bottom_margin <= 0 && top_margin
        - bottom_margin <= 1
}

proof fn lemma_half(d: int)
    ensures
        d >= 0 ==> 0 <= tdiv(d, 2) && 0 <= d - 2 * tdiv(d, 2) <= 1,
        d <= 0 ==> tdiv(d, 2) <= 0 && 0 <= 2 * tdiv(d, 2) - d <= 1,
{
    if d >= 0 {
        lemma_div_nonneg(d, 2);
    } else {
        lemma_div_nonneg(-d, 2);
    }
}

/// The window switcher is centred on the monitor it is laid out for.
pub proof fn lemma_preview_centred(monitor: Rect, num_windows: int)
    ensures
        ({
            let g = preview_geometry(monitor, num_windows);
            centred_on(monitor, g.x, g.y, g.width, g.height)
        }),
{
    let g = preview_geometry(monitor, num_windows);
    lemma_half(monitor.width() - g.width);
    lemma_half(monitor.height() - g.height);
}

/// The app switcher is centred on the monitor it is laid out for.
pub proof fn lemma_apps_centred(monitor: Rect, num_apps: int)
    ensures
        ({
            let g = apps_geometry(monitor, num_apps);
            centred_on(monitor, g.x, g.y, g.width, g.height)
        }),
{
    let g = apps_geometry(monitor, num_apps);
    lemma_half(monitor.width() - g.width);
    lemma_half(monitor.height() - g.height);
}


/// The icons of the app switcher are never larger than `ICON_SIZE`, each
/// cell is the icon with its border, and when the monitor is wide enough for
/// icons at all the row of icons fits in the monitor's width; on a wide
/// monitor the icons have their full size.
pub proof fn lemma_apps_fit(monitor: Rect, num_apps: int)
    requires
        num_apps >= 1,
    ensures
        ({
            let g = apps_geometry(monitor, num_apps);
            &&& g.icon_size <= ICON_SIZE
            &&& g.item_size == g.icon_size + 2 * ICON_BORDER_SIZE
            &&& g.height == g.item_size + 2 * WINDOW_BORDER_SIZE
            &&& monitor.width() >= 2 * WINDOW_BORDER_SIZE + 2 * ICON_BORDER_SIZE * num_apps
                ==> g.width <= monitor.width()
            &&& monitor.width() >= 2 * WINDOW_BORDER_SIZE + (ICON_SIZE + 2 * ICON_BORDER_SIZE)
                * num_apps ==> g.icon_size == ICON_SIZE
        }),
{
    let g = apps_geometry(monitor, num_apps);
    let a = monitor.width() - 2 * WINDOW_BORDER_SIZE;
    if a >= 8 * num_apps {
        lemma_div_nonneg(a, num_apps);
        let t = a / num_apps;
        assert(g.item_size <= t);
        assert(g.item_size * num_apps <= t * num_apps) by (nonlinear_arith)
            requires
                g.item_size <= t,
                num_apps >= 1,
        ;
        if a >= 72 * num_apps {
            assert(t >= 72) by (nonlinear_arith)
                requires
                    a >= 72 * num_apps,
                    a - t * num_apps < num_apps,
                    num_apps >= 1,
            ;
        }
    }
}

} // verus!
