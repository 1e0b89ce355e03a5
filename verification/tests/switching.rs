use window_switcher::app::{
    module_window, start, Action, App, Config, IconCache, SwitchAppsState, WindowGroup,
};
use window_switcher::painter::{Point, PreviewItemStyle, Rect, SwitchWindowsPreviewState};
use window_switcher::window_order::{merge_window_order, next_window_index};

fn config(preview: bool) -> Config {
    Config { trayicon: true, switch_windows_show_preview: preview }
}

fn monitor() -> Rect {
    Rect { left: 0, top: 0, right: 1920, bottom: 1080 }
}

fn group(path: &str, ids: &[isize]) -> WindowGroup {
    (path.to_string(), ids.iter().map(|&id| (id, format!("title {id}"))).collect())
}

fn preview_ids(app: &App) -> Vec<isize> {
    app.switch_windows_preview_state.as_ref().unwrap().windows.iter().map(|w| w.0).collect()
}

#[test]
fn starts_with_nothing_shown() {
    let app = start(&config(true), false);
    assert!(app.trayicon);
    assert!(!app.is_admin);
    assert!(app.switch_apps_state.is_none());
    assert!(app.switch_windows_preview_state.is_none());
    assert!(app.switch_windows_state.cache.is_none());
    assert!(app.switch_windows_state.modifier_released);
    let no_tray = App::start(&Config { trayicon: false, switch_windows_show_preview: false }, true);
    assert!(!no_tray.trayicon);
    assert!(no_tray.is_admin);
    assert!(!no_tray.tray_menu_requested(true));
    assert!(app.tray_menu_requested(true));
    assert!(!app.tray_menu_requested(false));
}

#[test]
fn app_switcher_opens_on_next_app() {
    let mut app = start(&config(false), false);
    app.switch_apps(false, vec![(1, 10), (2, 20), (3, 30)]);
    assert_eq!(app.switch_apps_state.as_ref().unwrap().index, 1);
    let mut rev = start(&config(false), false);
    rev.switch_apps(true, vec![(1, 10), (2, 20), (3, 30)]);
    assert_eq!(rev.switch_apps_state.as_ref().unwrap().index, 2);
    let mut single = start(&config(false), false);
    single.switch_apps(true, vec![(1, 10)]);
    assert_eq!(single.switch_apps_state.as_ref().unwrap().index, 0);
    let mut none = start(&config(false), false);
    none.switch_apps(false, vec![]);
    assert!(none.switch_apps_state.is_none());
}

#[test]
fn app_switcher_cycles_and_wraps() {
    let mut app = start(&config(false), false);
    app.switch_apps(false, vec![(1, 10), (2, 20), (3, 30)]);
    app.switch_apps(false, vec![]);
    assert_eq!(app.switch_apps_state.as_ref().unwrap().index, 2);
    app.switch_apps(false, vec![]);
    assert_eq!(app.switch_apps_state.as_ref().unwrap().index, 0);
    app.switch_apps(true, vec![]);
    assert_eq!(app.switch_apps_state.as_ref().unwrap().index, 2);
    // forward then back comes to the same app
    app.switch_apps(false, vec![]);
    app.switch_apps(true, vec![]);
    assert_eq!(app.switch_apps_state.as_ref().unwrap().index, 2);
    assert_eq!(app.switch_apps_state.as_ref().unwrap().apps.len(), 3);
}

#[test]
fn handle_switch_apps_hides_preview_and_paints() {
    let mut app = start(&config(true), false);
    app.switch_windows(1, false, &vec![group("a.exe", &[1, 2])]);
    assert!(app.switch_windows_preview_state.is_some());
    let actions = app.handle_switch_apps(false, vec![(7, 70), (8, 80)]);
    assert_eq!(actions.len(), 2);
    assert!(matches!(&actions[0], Action::UnpaintPreview(p) if p.windows.len() == 2));
    assert!(matches!(actions[1], Action::PaintApps));
    assert!(app.switch_windows_preview_state.is_none());
    let mut empty = start(&config(true), false);
    assert!(empty.handle_switch_apps(false, vec![]).is_empty());
}

#[test]
fn do_switch_app_activates_selected_window() {
    let mut app = start(&config(false), false);
    app.switch_apps(false, vec![(1, 10), (2, 20), (3, 30)]);
    let actions = app.do_switch_app();
    assert_eq!(actions.len(), 2);
    assert!(matches!(actions[0], Action::SetForeground(20)));
    assert!(matches!(&actions[1], Action::UnpaintApps(s) if s.index == 1));
    assert!(app.switch_apps_state.is_none());
    assert!(app.do_switch_app().is_empty());
}

#[test]
fn cancel_switch_app_does_not_activate() {
    let mut app = start(&config(false), false);
    app.switch_apps(false, vec![(1, 10), (2, 20)]);
    let actions = app.cancel_switch_app();
    assert_eq!(actions.len(), 1);
    assert!(matches!(actions[0], Action::UnpaintApps(_)));
    assert!(app.switch_apps_state.is_none());
}

#[test]
fn module_window_prefers_recent_unless_minimised() {
    let hwnds = vec![(5, "a".to_string()), (6, "b".to_string()), (7, "c".to_string())];
    assert_eq!(module_window(&hwnds, false), 5);
    assert_eq!(module_window(&hwnds, true), 7);
}

#[test]
fn switch_windows_without_preview_activates_next() {
    let mut app = start(&config(false), false);
    let groups = vec![group("a.exe", &[1, 2, 3]), group("b.exe", &[4, 5])];
    let (switched, actions) = app.switch_windows(4, false, &groups);
    assert!(switched);
    assert_eq!(actions.len(), 1);
    assert!(matches!(actions[0], Action::SetForeground(5)));
    let cache = app.switch_windows_state.cache.as_ref().unwrap();
    assert_eq!(cache.0, "b.exe");
    assert_eq!((cache.1, cache.2), (4, 1));
    assert_eq!(cache.3, vec![4, 5]);
    assert!(!app.switch_windows_state.modifier_released);
}

#[test]
fn switch_windows_unknown_window_does_nothing() {
    let mut app = start(&config(true), false);
    let (switched, actions) = app.switch_windows(99, false, &vec![group("a.exe", &[1, 2])]);
    assert!(!switched);
    assert!(actions.is_empty());
    assert!(app.switch_windows_state.cache.is_none());
}

#[test]
fn switch_windows_single_window() {
    let mut plain = start(&config(false), false);
    let (switched, actions) = plain.switch_windows(1, false, &vec![group("a.exe", &[1])]);
    assert!(!switched);
    assert!(actions.is_empty());

    let mut app = start(&config(true), false);
    let (switched, actions) = app.switch_windows(1, false, &vec![group("a.exe", &[1])]);
    assert!(switched);
    assert!(actions.is_empty());
    let p = app.switch_windows_preview_state.as_ref().unwrap();
    assert_eq!(p.index, 0);
    assert_eq!(p.windows, vec![(1, "title 1".to_string())]);
    let cache = app.switch_windows_state.cache.as_ref().unwrap();
    assert_eq!((cache.1, cache.2), (1, 0));
    assert_eq!(cache.3, vec![1]);
}

#[test]
fn held_modifier_steps_through_cycle() {
    let mut app = start(&config(false), false);
    let groups = vec![group("a.exe", &[1, 2, 3])];
    app.switch_windows(1, false, &groups);
    let (_, actions) = app.switch_windows(2, false, &groups);
    assert!(matches!(actions[0], Action::SetForeground(3)));
    let (_, actions) = app.switch_windows(3, false, &groups);
    assert!(matches!(actions[0], Action::SetForeground(1)));
    let (_, actions) = app.switch_windows(1, true, &groups);
    assert!(matches!(actions[0], Action::SetForeground(3)));
    assert_eq!(app.switch_windows_state.cache.as_ref().unwrap().1, 1);
}

#[test]
fn forward_then_back_returns_to_same_window() {
    let mut app = start(&config(false), false);
    let groups = vec![group("a.exe", &[1, 2, 3, 4])];
    app.switch_windows(1, false, &groups);
    app.switch_windows(2, false, &groups);
    let before = app.switch_windows_state.cache.as_ref().unwrap().2;
    app.switch_windows(3, false, &groups);
    app.switch_windows(4, true, &groups);
    let cache = app.switch_windows_state.cache.as_ref().unwrap();
    assert_eq!(cache.2, before);
    assert_eq!(cache.3, vec![1, 2, 3, 4]);
}

#[test]
fn released_modifier_restarts_from_last_reached_window() {
    let mut app = start(&config(true), false);
    let groups = vec![group("a.exe", &[1, 2, 3])];
    app.switch_windows(1, false, &groups);
    let actions = app.switch_windows_done();
    assert!(app.switch_windows_state.modifier_released);
    assert!(matches!(actions[0], Action::SetForeground(2)));
    // window 2 is now in front
    let groups = vec![group("a.exe", &[2, 1, 3])];
    let (_, _) = app.switch_windows(2, false, &groups);
    let cache = app.switch_windows_state.cache.as_ref().unwrap();
    // the cached start (1) is not the current window (2): go back to it
    assert_eq!(cache.2, 1);
    assert_eq!(cache.1, 2);
    assert_eq!(preview_ids(&app), vec![2, 1, 3]);
}

#[test]
fn cycle_order_keeps_cached_windows_first() {
    let mut app = start(&config(true), false);
    app.switch_windows(1, false, &vec![group("a.exe", &[1, 2, 3])]);
    // window 4 appeared, window 2 went away, and the order changed
    let groups = vec![group("a.exe", &[4, 3, 1])];
    let (_, actions) = app.switch_windows(4, false, &groups);
    assert_eq!(preview_ids(&app), vec![1, 3, 4]);
    assert_eq!(app.switch_windows_preview_state.as_ref().unwrap().index, 2);
    assert_eq!(actions.len(), 1);
    assert!(matches!(&actions[0], Action::CleanupThumbnails(p) if p.windows.len() == 3));
    let titles: Vec<String> =
        app.switch_windows_preview_state.as_ref().unwrap().windows.iter().map(|w| w.1.clone()).collect();
    assert_eq!(titles, vec!["title 1", "title 3", "title 4"]);
}

#[test]
fn merge_moves_last_into_removed_place() {
    assert_eq!(merge_window_order(&vec![2], &vec![1, 2, 3, 4]), vec![2, 1, 4, 3]);
    assert_eq!(merge_window_order(&vec![3, 1, 2], &vec![1, 2, 4]), vec![1, 2, 4]);
    assert_eq!(merge_window_order(&vec![], &vec![5, 5, 6]), vec![5, 6]);
    assert_eq!(merge_window_order(&vec![9, 8], &vec![1, 2]), vec![1, 2]);
    assert_eq!(merge_window_order(&vec![4, 3, 2, 1], &vec![1, 2, 3, 4]), vec![4, 3, 2, 1]);
}

#[test]
fn next_window_index_wraps() {
    assert_eq!(next_window_index(0, 3, true), 2);
    assert_eq!(next_window_index(2, 3, false), 0);
    assert_eq!(next_window_index(1, 3, false), 2);
    assert_eq!(next_window_index(1, 3, true), 0);
    assert_eq!(next_window_index(5, 3, false), 0);
    assert_eq!(next_window_index(5, 3, true), 4);
}

#[test]
fn handle_switch_windows_paints_preview() {
    let mut app = start(&config(true), false);
    let (switched, actions) = app.handle_switch_windows(1, false, &vec![group("a.exe", &[1, 2])]);
    assert!(switched);
    assert_eq!(actions.len(), 1);
    assert!(matches!(actions[0], Action::PaintPreview));
    let mut plain = start(&config(false), false);
    let (_, actions) = plain.handle_switch_windows(1, false, &vec![group("a.exe", &[1, 2])]);
    assert_eq!(actions.len(), 1);
    assert!(matches!(actions[0], Action::SetForeground(2)));
}

#[test]
fn switch_windows_target_prefers_selected_app() {
    let mut app = start(&config(true), false);
    assert_eq!(app.switch_windows_target(0), None);
    assert_eq!(app.switch_windows_target(42), Some(42));
    app.switch_apps(false, vec![(1, 10), (2, 20)]);
    assert_eq!(app.switch_windows_target(42), Some(20));
}

#[test]
fn do_and_cancel_switch_window() {
    let mut app = start(&config(true), false);
    app.switch_windows(1, false, &vec![group("a.exe", &[1, 2, 3])]);
    let actions = app.do_switch_window();
    assert_eq!(actions.len(), 2);
    assert!(matches!(actions[0], Action::SetForeground(2)));
    assert!(matches!(actions[1], Action::UnpaintPreview(_)));
    assert!(app.switch_windows_preview_state.is_none());

    app.switch_windows(1, false, &vec![group("a.exe", &[1, 2, 3])]);
    let actions = app.cancel_switch_window();
    assert_eq!(actions.len(), 1);
    assert!(matches!(actions[0], Action::UnpaintPreview(_)));
    assert!(app.cancel_switch_window().is_empty());
}

#[test]
fn switch_windows_done_without_preview_only_releases() {
    let mut app = start(&config(false), false);
    app.switch_windows(1, false, &vec![group("a.exe", &[1, 2])]);
    assert!(app.switch_windows_done().is_empty());
    assert!(app.switch_windows_state.modifier_released);
    assert!(app.switch_windows_state.cache.is_some());
}

fn app_with_preview(n: usize, index: usize) -> App {
    let mut app = start(&config(true), false);
    let windows: Vec<(isize, String)> = (0..n).map(|i| (i as isize + 1, format!("w{i}"))).collect();
    let mut state = SwitchWindowsPreviewState::new(windows, index);
    state.thumbnail_handles = vec![77, 78];
    state.hovered_index = Some(0);
    app.switch_windows_preview_state = Some(state);
    app
}

#[test]
fn close_preview_window_keeps_selection_valid() {
    let mut app = app_with_preview(3, 2);
    let actions = app.close_preview_window(2);
    assert_eq!(actions.len(), 2);
    assert!(matches!(actions[0], Action::CloseWindow(3)));
    assert!(matches!(actions[1], Action::PaintPreview));
    let p = app.switch_windows_preview_state.as_ref().unwrap();
    assert_eq!(p.windows.len(), 2);
    assert_eq!(p.index, 1);
    assert!(p.thumbnail_handles.is_empty());
    assert_eq!(p.hovered_index, None);
}

#[test]
fn closing_last_preview_window_hides_switcher() {
    let mut app = app_with_preview(1, 0);
    let actions = app.close_preview_window(0);
    assert_eq!(actions.len(), 2);
    assert!(matches!(actions[0], Action::CloseWindow(1)));
    assert!(matches!(&actions[1], Action::UnpaintPreview(p) if p.windows.is_empty()));
    assert!(app.switch_windows_preview_state.is_none());
}

#[test]
fn close_preview_window_out_of_range_does_nothing() {
    let mut app = app_with_preview(2, 0);
    assert!(app.close_preview_window(5).is_empty());
    assert_eq!(app.switch_windows_preview_state.as_ref().unwrap().windows.len(), 2);
}

#[test]
fn click_on_preview_switches_to_it() {
    let mut app = app_with_preview(7, 0);
    let actions = app.click(monitor(), Point { x: 176 + 336 + 10, y: 290 + 264 + 10 });
    assert_eq!(actions.len(), 2);
    assert!(matches!(actions[0], Action::SetForeground(7)));
    assert!(matches!(&actions[1], Action::UnpaintPreview(p) if p.index == 6));
    assert!(app.switch_windows_preview_state.is_none());
}

#[test]
fn click_on_close_button_closes_window() {
    let mut app = app_with_preview(7, 0);
    let actions = app.click(monitor(), Point { x: 176 + 600, y: 290 + 270 });
    assert_eq!(actions.len(), 2);
    assert!(matches!(actions[0], Action::CloseWindow(7)));
    assert!(matches!(actions[1], Action::PaintPreview));
    assert_eq!(app.switch_windows_preview_state.as_ref().unwrap().windows.len(), 6);
}

#[test]
fn click_on_app_icon_switches_to_it() {
    let mut app = start(&config(false), false);
    app.switch_apps_state = Some(SwitchAppsState {
        apps: (0..5).map(|i| (100 + i, 200 + i)).collect(),
        index: 0,
    });
    let actions = app.click(monitor(), Point { x: 770 + 10 + 72 * 3 + 1, y: 494 + 20 });
    assert_eq!(actions.len(), 2);
    assert!(matches!(actions[0], Action::SetForeground(203)));
    assert!(matches!(&actions[1], Action::UnpaintApps(s) if s.index == 3));
}

#[test]
fn click_elsewhere_does_nothing() {
    let mut app = app_with_preview(7, 0);
    assert!(app.click(monitor(), Point { x: 5, y: 5 }).is_empty());
    assert!(app.switch_windows_preview_state.is_some());
    let mut idle = start(&config(false), false);
    assert!(idle.click(monitor(), Point { x: 5, y: 5 }).is_empty());
}

#[test]
fn mouse_move_tracks_hover() {
    let mut app = app_with_preview(7, 0);
    let actions = app.handle_mouse_move(monitor(), Point { x: 176 + 336 + 10, y: 290 + 264 + 10 });
    assert_eq!(actions.len(), 1);
    assert!(matches!(actions[0], Action::PaintPreview));
    assert_eq!(app.switch_windows_preview_state.as_ref().unwrap().hovered_index, Some(6));
    let again = app.handle_mouse_move(monitor(), Point { x: 176 + 336 + 11, y: 290 + 264 + 10 });
    assert!(again.is_empty());
    let away = app.handle_mouse_move(monitor(), Point { x: 1, y: 1 });
    assert_eq!(away.len(), 1);
    assert_eq!(app.switch_windows_preview_state.as_ref().unwrap().hovered_index, None);
}

#[test]
fn thumbnails_are_handed_out_once() {
    let mut state = SwitchWindowsPreviewState::new(vec![(1, "a".to_string())], 0);
    state.thumbnail_handles.push(5);
    state.thumbnail_handles.push(6);
    assert_eq!(state.take_thumbnail_handles(), vec![5, 6]);
    assert!(state.take_thumbnail_handles().is_empty());
    assert_eq!(state.windows.len(), 1);
}

#[test]
fn preview_styles_mark_selected_and_hovered() {
    let mut app = app_with_preview(3, 2);
    let state = app.switch_windows_preview_state.as_mut().unwrap();
    state.hovered_index = Some(0);
    assert_eq!(
        state.item_styles(),
        vec![
            PreviewItemStyle { selected: false, hovered: true },
            PreviewItemStyle { selected: false, hovered: false },
            PreviewItemStyle { selected: true, hovered: false },
        ]
    );
    state.hovered_index = Some(2);
    assert_eq!(state.item_styles()[2], PreviewItemStyle { selected: true, hovered: true });
    state.hovered_index = None;
    assert!(state.item_styles().iter().all(|s| !s.hovered));
}

#[test]
fn tray_icon_retried_only_after_failure_without_icon() {
    let app = start(&config(true), false);
    assert!(app.retry_trayicon(false, false));
    assert!(!app.retry_trayicon(true, false));
    assert!(!app.retry_trayicon(false, true));
    let no_tray = start(&Config { trayicon: false, switch_windows_show_preview: false }, false);
    assert!(!no_tray.retry_trayicon(false, false));
}

#[test]
fn icons_are_fetched_once_per_module() {
    let mut cache = IconCache::new();
    let a = "C:\\a.exe".to_string();
    let b = "C:\\b.exe".to_string();
    assert_eq!(cache.icon_for(&a), None);
    cache.remember(a.clone(), 11);
    assert_eq!(cache.icon_for(&a), Some(11));
    assert_eq!(cache.icon_for(&b), None);
    cache.remember(b.clone(), 22);
    assert_eq!(cache.icon_for(&a), Some(11));
    assert_eq!(cache.icon_for(&b), Some(22));
}
