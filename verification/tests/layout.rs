use window_switcher::app::SwitchAppsState;
use window_switcher::painter::{
    center_in, display_title, find_clicked_app_index, find_clicked_preview_index,
    find_hovered_preview_index, is_close_button_clicked, preview_palette, theme_color,
    AppsPaintLayout, Coordinate, Point, PreviewCoordinate, PreviewPaintLayout, Rect,
    SwitchWindowsPreviewState, BG_DARK_COLOR, BG_LIGHT_COLOR, FG_DARK_COLOR, FG_LIGHT_COLOR,
};

fn monitor() -> Rect {
    Rect { left: 0, top: 0, right: 1920, bottom: 1080 }
}

fn apps(n: usize) -> SwitchAppsState {
    SwitchAppsState { apps: (0..n).map(|i| (100 + i as isize, 200 + i as isize)).collect(), index: 0 }
}

fn previews(n: usize) -> SwitchWindowsPreviewState {
    SwitchWindowsPreviewState::new((0..n).map(|i| (i as isize + 1, format!("window {i}"))).collect(), 0)
}

#[test]
fn theme_colors() {
    assert_eq!(theme_color(true), (FG_LIGHT_COLOR, BG_LIGHT_COLOR));
    assert_eq!(theme_color(false), (FG_DARK_COLOR, BG_DARK_COLOR));
    assert_eq!(theme_color(true), (0xf2f2f2, 0xe0e0e0));
    assert_eq!(theme_color(false), (0x242424, 0x141414));
}

#[test]
fn apps_layout_full_size_icons() {
    let c = Coordinate::new(monitor(), 5);
    assert_eq!(c.icon_size, 64);
    assert_eq!(c.item_size, 72);
    assert_eq!(c.width, 380);
    assert_eq!(c.height, 92);
    assert_eq!(c.x, 770);
    assert_eq!(c.y, 494);
}

#[test]
fn apps_layout_shrinks_icons_to_fit() {
    let c = Coordinate::new(Rect { left: 100, top: 50, right: 400, bottom: 350 }, 10);
    assert_eq!(c.icon_size, 20);
    assert_eq!(c.item_size, 28);
    assert_eq!(c.width, 300);
    assert_eq!(c.x, 100);
    assert_eq!(c.y, 50 + (300 - 48) / 2);
}

#[test]
fn apps_layout_divides_toward_zero() {
    // (10 - 20) / 3 is -3 when rounded toward zero.
    let c = Coordinate::new(Rect { left: 0, top: 0, right: 10, bottom: 10 }, 3);
    assert_eq!(c.icon_size, -11);
    assert_eq!(c.item_size, -3);
    assert_eq!(c.width, 11);
    assert_eq!(c.height, 17);
    // (10 - 11) / 2 and (10 - 17) / 2 round toward zero too.
    assert_eq!(c.x, 0);
    assert_eq!(c.y, -3);
}

#[test]
fn apps_paint_layout_scales_by_six() {
    let l = AppsPaintLayout::new(monitor(), 5, 2, true);
    assert_eq!(l.corner_radius, 18);
    assert_eq!(l.icons_width, 360);
    assert_eq!(l.icons_height, 72);
    assert_eq!(l.scaled_width, 2160);
    assert_eq!(l.scaled_height, 432);
    assert_eq!(l.scaled_corner_radius, 108);
    assert_eq!(l.scaled_border_size, 24);
    assert_eq!(l.scaled_icon_inner_size, 384);
    assert_eq!(l.scaled_icon_outer_size, 432);
    assert_eq!(l.icon_lefts, vec![24, 456, 888, 1320, 1752]);
    assert_eq!(l.selection_box, Some(Rect { left: 864, top: 0, right: 1296, bottom: 432 }));
    let square = AppsPaintLayout::new(monitor(), 5, 7, false);
    assert_eq!(square.corner_radius, 0);
    assert_eq!(square.selection_box, None);
}

#[test]
fn click_on_app_icon() {
    let state = apps(5);
    let cursor = Point { x: 770 + 10 + 72 * 2 + 5, y: 494 + 10 + 5 };
    assert_eq!(find_clicked_app_index(&state, monitor(), cursor), Some(2));
    let last = Point { x: 770 + 10 + 72 * 5 - 1, y: 494 + 10 + 71 };
    assert_eq!(find_clicked_app_index(&state, monitor(), last), Some(4));
}

#[test]
fn click_outside_app_icons() {
    let state = apps(5);
    assert_eq!(find_clicked_app_index(&state, monitor(), Point { x: 775, y: 510 }), None);
    assert_eq!(find_clicked_app_index(&state, monitor(), Point { x: 900, y: 494 + 10 + 72 }), None);
    assert_eq!(find_clicked_app_index(&state, monitor(), Point { x: 0, y: 0 }), None);
}

#[test]
fn preview_layout_one_row() {
    let c = PreviewCoordinate::new(monitor(), 5);
    assert_eq!(c.item_width, 308);
    assert_eq!(c.item_height, 236);
    assert_eq!(c.width, 1568);
    assert_eq!(c.height, 264);
    assert_eq!(c.x, 176);
    assert_eq!(c.y, 408);
}

#[test]
fn preview_layout_two_rows() {
    let c = PreviewCoordinate::new(monitor(), 7);
    assert_eq!(c.width, 1568);
    assert_eq!(c.height, 500);
    assert_eq!(c.y, 290);
    let r = c.get_item_rect(6, 7);
    assert_eq!(r, Rect { left: 336, top: 264, right: 616, bottom: 444 });
    let first = c.get_item_rect(0, 7);
    assert_eq!(first, Rect { left: 28, top: 28, right: 308, bottom: 208 });
}

#[test]
fn preview_layout_narrow_monitor_keeps_one_per_row() {
    let c = PreviewCoordinate::new(Rect { left: 0, top: 0, right: 200, bottom: 2000 }, 3);
    assert_eq!(c.width, 336);
    assert_eq!(c.height, 3 * 236 + 28);
    assert_eq!(c.x, (200 - 336) / 2);
    assert_eq!(c.get_item_rect(2, 3), Rect { left: 28, top: 28 + 2 * 236, right: 308, bottom: 28 + 2 * 236 + 180 });
}

#[test]
fn click_on_preview_and_its_title() {
    let state = previews(7);
    let on_thumbnail = Point { x: 176 + 336 + 10, y: 290 + 264 + 10 };
    assert_eq!(find_clicked_preview_index(&state, monitor(), on_thumbnail), Some(6));
    let on_title = Point { x: 176 + 336 + 10, y: 290 + 444 + 20 };
    assert_eq!(find_clicked_preview_index(&state, monitor(), on_title), Some(6));
    assert_eq!(find_hovered_preview_index(&state, monitor(), on_title), Some(6));
}

#[test]
fn click_between_previews() {
    let state = previews(7);
    let gap = Point { x: 176 + 336 - 10, y: 290 + 264 + 10 };
    assert_eq!(find_clicked_preview_index(&state, monitor(), gap), None);
    assert_eq!(find_hovered_preview_index(&state, monitor(), gap), None);
}

#[test]
fn no_previews_no_click() {
    let state = previews(0);
    assert_eq!(find_clicked_preview_index(&state, monitor(), Point { x: 960, y: 540 }), None);
    assert!(!is_close_button_clicked(&state, 0, monitor(), Point { x: 960, y: 540 }));
}

#[test]
fn close_button_click_is_a_click_on_its_preview() {
    let state = previews(7);
    let cursor = Point { x: 176 + 600, y: 290 + 270 };
    assert!(is_close_button_clicked(&state, 6, monitor(), cursor));
    assert!(!is_close_button_clicked(&state, 5, monitor(), cursor));
    assert!(!is_close_button_clicked(&state, 9, monitor(), cursor));
    assert_eq!(find_clicked_preview_index(&state, monitor(), cursor), Some(6));
    let below_button = Point { x: 176 + 600, y: 290 + 290 };
    assert!(!is_close_button_clicked(&state, 6, monitor(), below_button));
}

#[test]
fn preview_paint_layout_frames() {
    let l = PreviewPaintLayout::new(monitor(), 7, true);
    assert_eq!(l.corner_radius, 12);
    assert_eq!(l.items.len(), 7);
    let f = &l.items[6];
    assert_eq!(f.thumbnail, Rect { left: 336, top: 264, right: 616, bottom: 444 });
    assert_eq!(f.background, Rect { left: 330, top: 258, right: 622, bottom: 478 });
    assert_eq!(f.selection, Rect { left: 328, top: 256, right: 624, bottom: 480 });
    assert_eq!(f.close_button, Rect { left: 592, top: 268, right: 612, bottom: 288 });
    assert_eq!(f.title, Rect { left: 330, top: 446, right: 622, bottom: 470 });
    // Every frame lies inside the window.
    for f in &l.items {
        assert!(f.selection.left >= 0 && f.selection.top >= 0);
        assert!(f.selection.right <= l.coord.width && f.selection.bottom <= l.coord.height);
    }
    assert_eq!(PreviewPaintLayout::new(monitor(), 1, false).corner_radius, 0);
}

#[test]
fn palette_for_each_theme() {
    let light = preview_palette(true);
    assert_eq!((light.fg, light.bg), (FG_LIGHT_COLOR, BG_LIGHT_COLOR));
    assert_eq!(light.text, 0xFF000000);
    assert_eq!(light.hover, 0xD8D8D8);
    let dark = preview_palette(false);
    assert_eq!((dark.fg, dark.bg), (FG_DARK_COLOR, BG_DARK_COLOR));
    assert_eq!(dark.text, 0xFFFFFFFF);
    assert_eq!(dark.hover, 0x505050);
    assert_eq!(dark.close_button, 0xE81123);
    assert_eq!(dark.close_mark, 0xFFFFFFFF);
    assert_eq!(dark.text_outline, 0xFF000000);
}

#[test]
fn short_titles_are_kept() {
    let t = "Inbox - Mail".to_string();
    assert_eq!(display_title(&t), t);
    let forty = "a".repeat(40);
    assert_eq!(display_title(&forty), forty);
}

#[test]
fn long_titles_are_cut() {
    let t = "0123456789".repeat(5);
    let shown = display_title(&t);
    assert_eq!(shown, format!("{}...", &t[..37]));
    assert_eq!(shown.len(), 40);
}

#[test]
fn long_titles_are_cut_by_bytes() {
    // 'é' takes two bytes: 18 of them are 36 bytes, then 'x' makes 37.
    let t = format!("{}x{}", "é".repeat(18), "é".repeat(10));
    let shown = display_title(&t);
    assert_eq!(shown, format!("{}x...", "é".repeat(18)));
    assert_eq!(shown.len(), 40);
}

#[test]
fn thumbnail_centred_in_its_area() {
    let dest = Rect { left: 28, top: 28, right: 308, bottom: 208 };
    assert_eq!(center_in(dest, 280, 100), Rect { left: 28, top: 68, right: 308, bottom: 168 });
    assert_eq!(center_in(dest, 101, 180), Rect { left: 117, top: 28, right: 218, bottom: 208 });
}

#[test]
fn app_cells_lie_inside_the_window() {
    for n in 1..=40 {
        let c = Coordinate::new(monitor(), n);
        assert!(c.item_size > 0);
        for i in 0..n {
            let cx = 10 + c.item_size * i;
            assert!(cx >= 0 && cx + c.item_size <= c.width);
        }
        assert!(10 + c.item_size <= c.height);
    }
}
