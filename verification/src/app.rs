//! The state of the switcher and how each event changes it.
//!
//! Windows and icons are handles, kept as integers. Each transition returns
//! the actions that the caller performs on the screen (painting, hiding,
//! bringing a window to the foreground), in order.
use vstd::prelude::*;

use crate::painter::{
    app_cell_hit, apps_geometry, close_button_hit, find_clicked_app_index,
    find_clicked_preview_index, find_hovered_preview_index, is_close_button_clicked,
    lemma_app_cells_disjoint, lemma_close_button_in_preview, lemma_preview_geometry_bounded,
    lemma_preview_hits_disjoint,
    preview_geometry, preview_hit, preview_hit_result, Point, Rect, SwitchWindowsPreviewState,
    MAX_ITEMS,
};
use crate::window_order::{
    lemma_merge_order, lemma_merge_order_stable, lemma_step_index_undo, merge_order,
    merge_window_order, next_window_index, step_index,
};

verus! {

pub const WM_USER_TRAYICON: u32 = 6000;
pub const WM_USER_REGISTER_TRAYICON: u32 = 6001;
pub const WM_USER_SWITCH_APPS: u32 = 6010;
pub const WM_USER_SWITCH_APPS_DONE: u32 = 6011;
pub const WM_USER_SWITCH_APPS_CANCEL: u32 = 6012;
pub const WM_USER_SWITCH_WINDOWS: u32 = 6020;
pub const WM_USER_SWITCH_WINDOWS_DONE: u32 = 6021;
pub const WM_USER_SWITCH_WINDOWS_CANCEL: u32 = 6022;
pub const IDM_EXIT: u32 = 1;
pub const IDM_STARTUP: u32 = 2;
pub const IDM_CONFIGURE: u32 = 3;

/// The settings that the switcher's decisions read.
#[derive(Clone, Copy, Debug, PartialEq, Eq, Structural)]
pub struct Config {
    /// Whether a tray icon is shown.
    pub trayicon: bool,
    /// Whether switching windows shows previews and switches when the
    /// modifier is released, rather than switching at once.
    pub switch_windows_show_preview: bool,
}

/// The app switcher while it is shown: one entry per application, its icon
/// handle and the window that stands for it, and the selected entry.
#[derive(Debug)]
pub struct SwitchAppsState {
    pub apps: Vec<(isize, isize)>,
    pub index: usize,
}

/// The windows of one application, by the path of its module: each window's
/// handle and title, the most recently active first.
pub type WindowGroup = (String, Vec<(isize, String)>);

/// What is remembered of the last window switch: the module path, the window
/// the cycle started from, the position reached, and the cycle order; and
/// whether the modifier key was released since.
#[derive(Debug)]
pub struct SwitchWindowsState {
    pub cache: Option<(String, isize, usize, Vec<isize>)>,
    pub modifier_released: bool,
}

/// The switcher.
pub struct App {
    pub is_admin: bool,
    /// Whether there is a tray icon.
    pub trayicon: bool,
    pub config: Config,
    pub switch_windows_state: SwitchWindowsState,
    pub switch_windows_preview_state: Option<SwitchWindowsPreviewState>,
    pub switch_apps_state: Option<SwitchAppsState>,
}

/// What the caller does on the screen after a transition.
#[derive(Debug)]
pub enum Action {
    /// Paint the app switcher for the current `switch_apps_state`.
    PaintApps,
    /// Hide the app switcher that showed this state.
    UnpaintApps(SwitchAppsState),
    /// Paint the window switcher for the current preview state, registering
    /// its thumbnails in it.
    PaintPreview,
    /// Unregister the thumbnails of this preview state, keeping the window.
    CleanupThumbnails(SwitchWindowsPreviewState),
    /// Unregister the thumbnails of this preview state and hide the window.
    UnpaintPreview(SwitchWindowsPreviewState),
    /// Bring this window to the foreground.
    SetForeground(isize),
    /// Ask this window to close.
    CloseWindow(isize),
}

impl App {
    /// The invariant of the switcher's state: a shown app switcher has at
    /// least one entry and its selection is one of them; a shown window
    /// switcher has at least one window and its selection is one of them.
    pub open spec fn wf(self) -> bool {
        &&& self.switch_apps_state matches Some(s) ==> {
            &&& 1 <= s.apps.len() <= MAX_ITEMS
            &&& s.index < s.apps.len()
        }
        &&& self.switch_windows_preview_state matches Some(p) ==> {
            &&& 1 <= p.windows.len() <= MAX_ITEMS
            &&& p.index < p.windows.len()
        }
    }
}

/// The switcher as it starts: nothing shown, no window cycle remembered, and
/// the modifier key released.
pub open spec fn is_initial(app: App, config: Config, is_admin: bool) -> bool {
    &&& app.is_admin == is_admin
    &&& app.trayicon == config.trayicon
    &&& app.config == config
    &&& app.switch_windows_state.cache is None
    &&& app.switch_windows_state.modifier_released
    &&& app.switch_windows_preview_state is None
    &&& app.switch_apps_state is None
}

impl App {
    /// The switcher as it starts with `config`.
    pub fn start(config: &Config, is_admin: bool) -> (app: App)
        ensures
            is_initial(app, *config, is_admin),
            app.wf(),
    {
        App {
            is_admin,
            trayicon: config.trayicon,
            config: *config,
            switch_windows_state: SwitchWindowsState { cache: None, modifier_released: true },
            switch_windows_preview_state: None,
            switch_apps_state: None,
        }
    }
}

/// Starts the switcher with `config`.
pub fn start(config: &Config, is_admin: bool) -> (app: App)
    ensures
        is_initial(app, *config, is_admin),
        app.wf(),
{
    App::start(config, is_admin)
}

// ---------------------------------------------------------------------------
// The app switcher.
// ---------------------------------------------------------------------------

/// The selection after one more press of the app switcher's hotkey: one
/// back, or one on, wrapping round at either end.
pub open spec fn cycle_app_index(index: int, len: int, reverse: bool) -> int {
    if reverse {
        if index == 0 {
            len - 1
        } else {
            index - 1
        }
    } else if index == len - 1 {
        0
    } else {
        index + 1
    }
}

/// The selection when the app switcher opens on `len` applications: the next
/// application (the last one in reverse), or the only one.
pub open spec fn first_app_index(len: int, reverse: bool) -> int {
    if len == 1 {
        0
    } else if reverse {
        len - 1
    } else {
        1
    }
}

/// Cycling on and then back, or back and then on, selects the same
/// application again; each step selects one of the applications.
pub proof fn lemma_cycle_app_index_undo(index: int, len: int)
    requires
        0 <= index < len,
    ensures
        0 <= cycle_app_index(index, len, false) < len,
        0 <= cycle_app_index(index, len, true) < len,
        cycle_app_index(cycle_app_index(index, len, false), len, true) == index,
        cycle_app_index(cycle_app_index(index, len, true), len, false) == index,
{
}

/// The window that stands for an application: its most recent window, or its
/// oldest one when the most recent is minimised.
pub fn module_window(hwnds: &Vec<(isize, String)>, first_is_iconic: bool) -> (res: isize)
    requires
        hwnds.len() >= 1,
    ensures
        res == (if first_is_iconic {
            hwnds@[hwnds.len() - 1].0
        } else {
            hwnds@[0].0
        }),
{
    if first_is_iconic {
        hwnds[hwnds.len() - 1].0
    } else {
        hwnds[0].0
    }
}

impl App {
    /// Moves the selection of a shown app switcher; or opens the app switcher
    /// on `apps` (icon and window of each application) if it is not shown,
    /// unless there are none.
    pub fn switch_apps(&mut self, reverse: bool, apps: Vec<(isize, isize)>)
        requires
            old(self).wf(),
            apps.len() <= MAX_ITEMS,
        ensures
            final(self).wf(),
            final(self).is_admin == old(self).is_admin,
            final(self).trayicon == old(self).trayicon,
            final(self).config == old(self).config,
            final(self).switch_windows_state == old(self).switch_windows_state,
            final(self).switch_windows_preview_state == old(self).switch_windows_preview_state,
            match old(self).switch_apps_state {
                Some(s) => final(self).switch_apps_state matches Some(t) && t.apps == s.apps
                    && t.index == cycle_app_index(s.index as int, s.apps.len() as int, reverse),
                None => if apps.len() == 0 {
                    final(self).switch_apps_state is None
                } else {
                    final(self).switch_apps_state matches Some(t) && t.apps == apps && t.index
                        == first_app_index(apps.len() as int, reverse)
                },
            },
    {
        match self.switch_apps_state.take() {
            Some(mut state) => {
                if reverse {
                    if state.index == 0 {
                        state.index = state.apps.len() - 1;
                    } else {
                        state.index -= 1;
                    }
                } else if state.index == state.apps.len() - 1 {
                    state.index = 0;
                } else {
                    state.index += 1;
                }
                self.switch_apps_state = Some(state);
            },
            None => {
                if apps.len() == 0 {
                    return ;
                }
                let index = if apps.len() == 1 {
                    0
                } else if reverse {
                    apps.len() - 1
                } else {
                    1
                };
                self.switch_apps_state = Some(SwitchAppsState { apps, index });
            },
        }
    }
}

/// `new` is `old` with neither switcher shown, and `actions` hide the window
/// switcher of `old` and then switch to the selected application of `old`
/// (when `switch`) and hide the app switcher, as far as each was shown.
pub open spec fn closes_switchers(old: App, new: App, actions: Seq<Action>, switch: bool) -> bool {
    &&& new.is_admin == old.is_admin
    &&& new.trayicon == old.trayicon
    &&& new.config == old.config
    &&& new.switch_windows_state == old.switch_windows_state
    &&& new.switch_windows_preview_state is None
    &&& new.switch_apps_state is None
    &&& actions == closes_switchers_actions(old, switch)
}

impl App {
    /// Switches to the selected application and closes the switchers.
    pub fn do_switch_app(&mut self) -> (actions: Vec<Action>)
        requires
            old(self).wf(),
        ensures
            final(self).wf(),
            closes_switchers(*old(self), *final(self), actions@, true),
    {
        let mut actions: Vec<Action> = Vec::new();
        if let Some(preview_state) = self.switch_windows_preview_state.take() {
            actions.push(Action::UnpaintPreview(preview_state));
        }
        if let Some(state) = self.switch_apps_state.take() {
            if state.index < state.apps.len() {
                let id = state.apps[state.index].1;
                actions.push(Action::SetForeground(id));
            }
            actions.push(Action::UnpaintApps(state));
        }
        proof {
            assert(actions@ =~= closes_switchers_actions(*old(self), true));
        }
        actions
    }

    /// Closes the switchers without switching.
    pub fn cancel_switch_app(&mut self) -> (actions: Vec<Action>)
        requires
            old(self).wf(),
        ensures
            final(self).wf(),
            closes_switchers(*old(self), *final(self), actions@, false),
    {
        let mut actions: Vec<Action> = Vec::new();
        if let Some(preview_state) = self.switch_windows_preview_state.take() {
            actions.push(Action::UnpaintPreview(preview_state));
        }
        if let Some(state) = self.switch_apps_state.take() {
            actions.push(Action::UnpaintApps(state));
        }
        proof {
            assert(actions@ =~= closes_switchers_actions(*old(self), false));
        }
        actions
    }

    /// The app-switch hotkey was pressed: hides the window switcher, moves or
    /// opens the app switcher (on `apps` if it opens), and paints it if it is
    /// shown.
    pub fn handle_switch_apps(&mut self, reverse: bool, apps: Vec<(isize, isize)>) -> (actions: Vec<
        Action,
    >)
        requires
            old(self).wf(),
            apps.len() <= MAX_ITEMS,
        ensures
            final(self).wf(),
            final(self).switch_windows_preview_state is None,
            final(self).switch_windows_state == old(self).switch_windows_state,
            final(self).config == old(self).config,
            match old(self).switch_apps_state {
                Some(s) => final(self).switch_apps_state matches Some(t) && t.apps == s.apps
                    && t.index == cycle_app_index(s.index as int, s.apps.len() as int, reverse),
                None => if apps.len() == 0 {
                    final(self).switch_apps_state is None
                } else {
                    final(self).switch_apps_state matches Some(t) && t.apps == apps && t.index
                        == first_app_index(apps.len() as int, reverse)
                },
            },
            actions@ == (match old(self).switch_windows_preview_state {
                Some(p) => seq![Action::UnpaintPreview(p)],
                None => Seq::<Action>::empty(),
            }) + (if final(self).switch_apps_state is Some {
                seq![Action::PaintApps]
            } else {
                Seq::<Action>::empty()
            }),
    {
        let mut actions: Vec<Action> = Vec::new();
        if let Some(state) = self.switch_windows_preview_state.take() {
            actions.push(Action::UnpaintPreview(state));
        }
        let ghost first = actions@;
        self.switch_apps(reverse, apps);
        if self.switch_apps_state.is_some() {
            actions.push(Action::PaintApps);
        }
        proof {
            if self.switch_apps_state is Some {
                assert(actions@ =~= first + seq![Action::PaintApps]);
            } else {
                assert(actions@ =~= first + Seq::<Action>::empty());
            }
        }
        actions
    }
}

/// The actions of `closes_switchers`.
pub open spec fn closes_switchers_actions(old: App, switch: bool) -> Seq<Action> {
    (match old.switch_windows_preview_state {
        Some(p) => seq![Action::UnpaintPreview(p)],
        None => Seq::<Action>::empty(),
    }) + (match old.switch_apps_state {
        Some(s) => if switch && s.index < s.apps.len() {
            seq![Action::SetForeground(s.apps@[s.index as int].1), Action::UnpaintApps(s)]
        } else {
            seq![Action::UnpaintApps(s)]
        },
        None => Seq::<Action>::empty(),
    })
}


// ---------------------------------------------------------------------------
// The window switcher.
// ---------------------------------------------------------------------------

/// The handles of a group's windows, in order.
pub open spec fn window_ids(windows: Seq<(isize, String)>) -> Seq<isize> {
    windows.map_values(|w: (isize, String)| w.0)
}

/// `g` is the first group that holds the window `hwnd`.
pub open spec fn is_first_group_with(groups: Seq<WindowGroup>, hwnd: isize, g: int) -> bool {
    &&& 0 <= g < groups.len()
    &&& window_ids(groups[g].1@).contains(hwnd)
    &&& forall|k: int| 0 <= k < g ==> !window_ids(groups[k].1@).contains(hwnd)
}

/// The first group that holds the window `hwnd`, if any does.
pub open spec fn first_group_with(groups: Seq<WindowGroup>, hwnd: isize) -> Option<int> {
    if exists|g: int| is_first_group_with(groups, hwnd, g) {
        Some(choose|g: int| is_first_group_with(groups, hwnd, g))
    } else {
        None
    }
}

/// `i` is the first position of `x` in `s`.
pub open spec fn is_first_index_of(s: Seq<isize>, x: isize, i: int) -> bool {
    0 <= i < s.len() && s[i] == x && forall|j: int| 0 <= j < i ==> s[j] != x
}

/// The first position of `x` in `s`, where `s` holds `x`.
pub open spec fn first_index_of(s: Seq<isize>, x: isize) -> int {
    choose|i: int| is_first_index_of(s, x, i)
}

/// The title of the first window `id` of `windows`, or an empty title.
pub open spec fn window_title(windows: Seq<(isize, String)>, id: isize) -> Seq<char> {
    if window_ids(windows).contains(id) {
        windows[first_index_of(window_ids(windows), id)].1@
    } else {
        Seq::empty()
    }
}

/// Where a window cycle goes: the window it started from, the position
/// reached, and the cycle order.
pub struct WindowCyclePlan {
    pub state_id: isize,
    pub index: int,
    pub windows: Seq<isize>,
}

/// The next step of the window cycle through the windows `ids` of the module
/// `app_path` (at least two), from `state`. A cycle of another module, or
/// none, starts anew at the second window. After the modifier was released,
/// the cycle starts anew too, from the window it reached last time if that
/// window is not the current one. While the modifier is held, the cycle goes
/// on from its position, in its order, brought up to date with `ids`.
pub open spec fn window_cycle_plan(
    state: SwitchWindowsState,
    app_path: Seq<char>,
    ids: Seq<isize>,
    reverse: bool,
) -> WindowCyclePlan {
    let current_id = ids[0];
    let fresh = WindowCyclePlan { state_id: current_id, index: 1, windows: ids };
    match state.cache {
        Some((path, cache_id, cache_index, cache_windows)) => {
            if path@ != app_path {
                fresh
            } else if state.modifier_released {
                if cache_id != current_id && ids.contains(cache_id) {
                    WindowCyclePlan {
                        state_id: current_id,
                        index: first_index_of(ids, cache_id),
                        windows: ids,
                    }
                } else {
                    fresh
                }
            } else {
                WindowCyclePlan {
                    state_id: cache_id,
                    index: step_index(cache_index as int, ids.len() as int, reverse),
                    windows: merge_order(cache_windows@, ids),
                }
            }
        },
        None => fresh,
    }
}

/// The window switch from `hwnd` lands on a window of the cycle. It does not
/// where the cycle has lost windows since the position was remembered.
pub open spec fn switch_windows_in_bounds(
    app: App,
    groups: Seq<WindowGroup>,
    hwnd: isize,
    reverse: bool,
) -> bool {
    match first_group_with(groups, hwnd) {
        None => true,
        Some(g) => {
            let ids = window_ids(groups[g].1@);
            ids.len() == 1 || ({
                let plan = window_cycle_plan(app.switch_windows_state, groups[g].0@, ids, reverse);
                plan.index < plan.windows.len()
            })
        },
    }
}

/// The actions that release the thumbnails of a replaced preview.
pub open spec fn cleanup_actions(preview: Option<SwitchWindowsPreviewState>) -> Seq<Action> {
    match preview {
        Some(p) => seq![Action::CleanupThumbnails(p)],
        None => Seq::<Action>::empty(),
    }
}

/// `preview` shows `windows` (handle and title) with `index` selected, no
/// thumbnails and nothing hovered.
pub open spec fn is_fresh_preview(
    preview: Option<SwitchWindowsPreviewState>,
    windows: Seq<(isize, Seq<char>)>,
    index: int,
) -> bool {
    &&& preview matches Some(p)
    &&& p.windows@.len() == windows.len()
    &&& forall|k: int|
        0 <= k < windows.len() ==> (#[trigger] p.windows@[k]).0 == windows[k].0 && p.windows@[k].1@
            == windows[k].1
    &&& p.index == index
    &&& p.thumbnail_handles@ == Seq::<isize>::empty()
    &&& p.hovered_index is None
}

/// The cycle order with the title of each window.
pub open spec fn titled(order: Seq<isize>, windows: Seq<(isize, String)>) -> Seq<(isize, Seq<char>)> {
    order.map_values(|id: isize| (id, window_title(windows, id)))
}

/// The outcome of a switch-windows hotkey press on `hwnd`, with the windows
/// of each application in `groups`. Nothing happens if no group holds `hwnd`,
/// nor for a single window unless previews are shown. Otherwise the cycle's
/// next step is remembered with the modifier held, and then either a preview
/// of the cycle replaces the old one, or the window reached is brought to the
/// foreground at once.
pub open spec fn switch_windows_post(
    old: App,
    new: App,
    groups: Seq<WindowGroup>,
    hwnd: isize,
    reverse: bool,
    res: bool,
    actions: Seq<Action>,
) -> bool {
    let show_preview = old.config.switch_windows_show_preview;
    &&& new.is_admin == old.is_admin
    &&& new.trayicon == old.trayicon
    &&& new.config == old.config
    &&& new.switch_apps_state == old.switch_apps_state
    &&& match first_group_with(groups, hwnd) {
        None => !res && new == old && actions.len() == 0,
        Some(g) => {
            let path = groups[g].0@;
            let windows = groups[g].1@;
            let ids = window_ids(windows);
            if ids.len() == 1 {
                if show_preview {
                    &&& res
                    &&& new.switch_windows_state.cache matches Some((p, id, idx, w)) && p@ == path
                        && id == ids[0] && idx == 0 && w@ == ids
                    &&& !new.switch_windows_state.modifier_released
                    &&& is_fresh_preview(new.switch_windows_preview_state, titled(ids, windows), 0)
                    &&& actions == cleanup_actions(old.switch_windows_preview_state)
                } else {
                    !res && new == old && actions.len() == 0
                }
            } else {
                let plan = window_cycle_plan(old.switch_windows_state, path, ids, reverse);
                &&& res
                &&& new.switch_windows_state.cache matches Some((p, id, idx, w)) && p@ == path
                    && id == plan.state_id && idx == plan.index && w@ == plan.windows
                &&& !new.switch_windows_state.modifier_released
                &&& if show_preview {
                    &&& is_fresh_preview(
                        new.switch_windows_preview_state,
                        titled(plan.windows, windows),
                        plan.index,
                    )
                    &&& actions == cleanup_actions(old.switch_windows_preview_state)
                } else {
                    &&& new.switch_windows_preview_state == old.switch_windows_preview_state
                    &&& actions == seq![Action::SetForeground(plan.windows[plan.index])]
                }
            }
        },
    }
}

/// Only one group is the first to hold a window.
proof fn lemma_first_group_with(groups: Seq<WindowGroup>, hwnd: isize, g: int)
    requires
        is_first_group_with(groups, hwnd, g),
    ensures
        first_group_with(groups, hwnd) == Some(g),
{
    let c = choose|c: int| is_first_group_with(groups, hwnd, c);
    assert(is_first_group_with(groups, hwnd, c));
    if c < g {
        assert(window_ids(groups[c].1@).contains(hwnd));
    } else if g < c {
        assert(window_ids(groups[g].1@).contains(hwnd));
    }
}

/// Whether one of `windows` is `hwnd`.
fn has_window(windows: &Vec<(isize, String)>, hwnd: isize) -> (res: bool)
    ensures
        res == window_ids(windows@).contains(hwnd),
{
    let n = windows.len();
    for i in 0..n
        invariant
            n == windows@.len(),
            forall|j: int| 0 <= j < i ==> windows@[j].0 != hwnd,
    {
        if windows[i].0 == hwnd {
            proof {
                assert(window_ids(windows@)[i as int] == hwnd);
            }
            return true;
        }
    }
    proof {
        if window_ids(windows@).contains(hwnd) {
            let k = choose|k: int| 0 <= k < n && window_ids(windows@)[k] == hwnd;
            assert(windows@[k].0 == hwnd);
        }
    }
    false
}

/// The first group that holds the window `hwnd`.
fn find_group(groups: &Vec<WindowGroup>, hwnd: isize) -> (res: Option<usize>)
    ensures
        match res {
            Some(g) => is_first_group_with(groups@, hwnd, g as int),
            None => first_group_with(groups@, hwnd) is None,
        },
{
    let n = groups.len();
    for g in 0..n
        invariant
            n == groups@.len(),
            forall|k: int| 0 <= k < g ==> !window_ids(groups@[k].1@).contains(hwnd),
    {
        if has_window(&groups[g].1, hwnd) {
            proof {
                assert(is_first_group_with(groups@, hwnd, g as int));
            }
            return Some(g);
        }
    }
    proof {
        assert(!exists|c: int| is_first_group_with(groups@, hwnd, c));
    }
    None
}

/// The handles of `windows`, in order.
fn window_id_vec(windows: &Vec<(isize, String)>) -> (res: Vec<isize>)
    ensures
        res@ == window_ids(windows@),
{
    let mut res: Vec<isize> = Vec::new();
    let n = windows.len();
    for i in 0..n
        invariant
            n == windows@.len(),
            res@ == window_ids(windows@.take(i as int)),
    {
        res.push(windows[i].0);
        proof {
            assert(windows@.take(i + 1) =~= windows@.take(i as int).push(windows@[i as int]));
            assert(window_ids(windows@.take(i + 1)) =~= window_ids(windows@.take(i as int)).push(
                windows@[i as int].0,
            ));
        }
    }
    proof {
        assert(windows@.take(n as int) =~= windows@);
    }
    res
}

/// The first position of `x` in `s`.
fn position_of(s: &Vec<isize>, x: isize) -> (res: Option<usize>)
    ensures
        match res {
            Some(i) => is_first_index_of(s@, x, i as int) && i as int == first_index_of(s@, x),
            None => !s@.contains(x),
        },
{
    let n = s.len();
    for i in 0..n
        invariant
            n == s@.len(),
            forall|j: int| 0 <= j < i ==> s@[j] != x,
    {
        if s[i] == x {
            proof {
                assert(is_first_index_of(s@, x, i as int));
                let c = choose|c: int| is_first_index_of(s@, x, c);
                assert(c == i);
            }
            return Some(i);
        }
    }
    None
}

/// The title of the first of `windows` that is `id`, or an empty title.
fn title_of(windows: &Vec<(isize, String)>, id: isize) -> (res: String)
    ensures
        res@ == window_title(windows@, id),
{
    let n = windows.len();
    for i in 0..n
        invariant
            n == windows@.len(),
            forall|j: int| 0 <= j < i ==> windows@[j].0 != id,
    {
        if windows[i].0 == id {
            proof {
                let ids = window_ids(windows@);
                assert(ids[i as int] == id);
                assert(is_first_index_of(ids, id, i as int));
                let c = choose|c: int| is_first_index_of(ids, id, c);
                assert(c == i);
            }
            return windows[i].1.clone();
        }
    }
    proof {
        if window_ids(windows@).contains(id) {
            let k = choose|k: int| 0 <= k < n && window_ids(windows@)[k] == id;
            assert(windows@[k].0 == id);
        }
    }
    String::new()
}

/// The windows of the cycle `order`, each with its title from `windows`.
fn titled_windows(order: &Vec<isize>, windows: &Vec<(isize, String)>) -> (res: Vec<(isize, String)>)
    ensures
        res@.len() == order@.len(),
        forall|k: int|
            0 <= k < order@.len() ==> (#[trigger] res@[k]).0 == titled(order@, windows@)[k].0
                && res@[k].1@ == titled(order@, windows@)[k].1,
{
    let mut res: Vec<(isize, String)> = Vec::new();
    let n = order.len();
    for i in 0..n
        invariant
            n == order@.len(),
            res@.len() == i,
            forall|k: int|
                0 <= k < i ==> (#[trigger] res@[k]).0 == order@[k] && res@[k].1@ == window_title(
                    windows@,
                    order@[k],
                ),
    {
        let id = order[i];
        let title = title_of(windows, id);
        res.push((id, title));
    }
    res
}

/// Computes the next step of the window cycle through the windows `ids` (at
/// least two) of the module `app_path`, from `state`: the window the cycle
/// started from, the position reached, and the cycle order.
pub fn plan_window_cycle(
    state: &SwitchWindowsState,
    app_path: &String,
    ids: &Vec<isize>,
    reverse: bool,
) -> (res: (isize, usize, Vec<isize>))
    requires
        ids@.len() >= 2,
    ensures
        ({
            let plan = window_cycle_plan(*state, app_path@, ids@, reverse);
            res.0 == plan.state_id && res.1 == plan.index && res.2@ == plan.windows
        }),
{
    let windows_len = ids.len();
    let current_id = ids[0];
    let mut index: usize = 1;
    let mut state_id = current_id;
    let mut state_windows: Vec<isize> = Vec::new();
    if windows_len >= 2 {
        match &state.cache {
            Some((cache_app_path, cache_id, cache_index, cache_windows)) => {
                if *cache_app_path == *app_path {
                    if state.modifier_released {
                        if *cache_id != current_id {
                            if let Some(i) = position_of(ids, *cache_id) {
                                index = i;
                            }
                        }
                    } else {
                        state_id = *cache_id;
                        state_windows = merge_window_order(cache_windows, ids);
                        proof {
                            lemma_merge_order(cache_windows@, ids@);
                            assert(state_windows@.contains(ids@[0]));
                        }
                        index = next_window_index(*cache_index, windows_len, reverse);
                    }
                }
            },
            None => {},
        }
    }
    if state_windows.len() == 0 {
        state_windows = ids.clone();
        proof {
            assert(state_windows@ =~= ids@);
        }
    }
    (state_id, index, state_windows)
}

impl App {
    /// Whether a press of the switch-windows hotkey from `hwnd` lands on a
    /// window of the cycle: `switch_windows` may be called when it does.
    pub fn can_switch_windows(&self, hwnd: isize, reverse: bool, groups: &Vec<WindowGroup>) -> (res:
        bool)
        ensures
            res == switch_windows_in_bounds(*self, groups@, hwnd, reverse),
    {
        match find_group(groups, hwnd) {
            None => true,
            Some(g) => {
                proof {
                    lemma_first_group_with(groups@, hwnd, g as int);
                }
                let windows = &groups[g].1;
                let ids = window_id_vec(windows);
                if ids.len() == 1 {
                    true
                } else if ids.len() == 0 {
                    proof {
                        assert(window_ids(windows@).contains(hwnd));
                    }
                    true
                } else {
                    let (_, index, state_windows) = plan_window_cycle(
                        &self.switch_windows_state,
                        &groups[g].0,
                        &ids,
                        reverse,
                    );
                    index < state_windows.len()
                }
            },
        }
    }
}

impl App {
    /// One press of the switch-windows hotkey, from the window `hwnd`, with
    /// the windows of each application in `groups`: steps the cycle through
    /// the windows of the application of `hwnd`, and shows the preview or
    /// switches at once. Returns whether there was a cycle to step.
    pub fn switch_windows(&mut self, hwnd: isize, reverse: bool, groups: &Vec<WindowGroup>) -> (res: (
        bool,
        Vec<Action>,
    ))
        requires
            old(self).wf(),
            forall|k: int| 0 <= k < groups@.len() ==> #[trigger] groups@[k].1@.len() <= MAX_ITEMS,
            switch_windows_in_bounds(*old(self), groups@, hwnd, reverse),
        ensures
            final(self).wf(),
            switch_windows_post(*old(self), *final(self), groups@, hwnd, reverse, res.0, res.1@),
    {
        let found = find_group(groups, hwnd);
        let g = match found {
            Some(g) => g,
            None => {
                return (false, Vec::new());
            },
        };
        let app_path = &groups[g].0;
        let windows = &groups[g].1;
        let windows_len = windows.len();
        let ids = window_id_vec(windows);
        proof {
            lemma_first_group_with(groups@, hwnd, g as int);
            assert(window_ids(windows@).len() == windows_len);
            assert(window_ids(windows@).contains(hwnd));
        }

        if windows_len == 1 {
            if self.config.switch_windows_show_preview {
                let preview_windows = titled_windows(&ids, windows);
                let current = windows[0].0;
                self.switch_windows_state = SwitchWindowsState {
                    cache: Some((app_path.clone(), current, 0, ids)),
                    modifier_released: false,
                };
                let mut actions: Vec<Action> = Vec::new();
                if let Some(old_state) = self.switch_windows_preview_state.take() {
                    actions.push(Action::CleanupThumbnails(old_state));
                }
                self.switch_windows_preview_state = Some(
                    SwitchWindowsPreviewState::new(preview_windows, 0),
                );
                proof {
                    assert(actions@ =~= cleanup_actions(old(self).switch_windows_preview_state));
                }
                return (true, actions);
            }
            return (false, Vec::new());
        }

        let (state_id, index, state_windows) = plan_window_cycle(
            &self.switch_windows_state,
            app_path,
            &ids,
            reverse,
        );
        let ghost plan = window_cycle_plan(
            old(self).switch_windows_state,
            app_path@,
            window_ids(windows@),
            reverse,
        );
        proof {
            lemma_merge_order_len(old(self).switch_windows_state, app_path@, window_ids(windows@), reverse);
        }
        let target_hwnd = state_windows[index];
        let cached_windows = state_windows.clone();
        proof {
            assert(cached_windows@ =~= state_windows@);
        }
        self.switch_windows_state = SwitchWindowsState {
            cache: Some((app_path.clone(), state_id, index, cached_windows)),
            modifier_released: false,
        };

        let mut actions: Vec<Action> = Vec::new();
        if self.config.switch_windows_show_preview {
            let preview_windows = titled_windows(&state_windows, windows);
            if let Some(old_state) = self.switch_windows_preview_state.take() {
                actions.push(Action::CleanupThumbnails(old_state));
            }
            self.switch_windows_preview_state = Some(
                SwitchWindowsPreviewState::new(preview_windows, index),
            );
            proof {
                assert(actions@ =~= cleanup_actions(old(self).switch_windows_preview_state));
            }
        } else {
            actions.push(Action::SetForeground(target_hwnd));
            proof {
                assert(actions@ =~= seq![Action::SetForeground(plan.windows[plan.index])]);
            }
        }
        (true, actions)
    }
}

/// The cycle order of a plan holds as many windows as the application has
/// distinct windows, and at least one.
proof fn lemma_merge_order_len(
    state: SwitchWindowsState,
    app_path: Seq<char>,
    ids: Seq<isize>,
    reverse: bool,
)
    requires
        ids.len() >= 2,
    ensures
        1 <= window_cycle_plan(state, app_path, ids, reverse).windows.len() <= ids.len(),
{
    match state.cache {
        Some((path, cache_id, cache_index, cache_windows)) => {
            lemma_merge_order(cache_windows@, ids);
            assert(merge_order(cache_windows@, ids).contains(ids[0]));
        },
        None => {},
    }
}


/// `new` is `old` with the window switcher closed, and `actions` switch to
/// the selected window (when `switch`) and then hide the window switcher, as
/// far as it was shown.
pub open spec fn closes_preview(old: App, new: App, actions: Seq<Action>, switch: bool) -> bool {
    &&& new.is_admin == old.is_admin
    &&& new.trayicon == old.trayicon
    &&& new.config == old.config
    &&& new.switch_windows_state == old.switch_windows_state
    &&& new.switch_apps_state == old.switch_apps_state
    &&& new.switch_windows_preview_state is None
    &&& actions == match old.switch_windows_preview_state {
        Some(p) => if switch && p.index < p.windows.len() {
            seq![Action::SetForeground(p.windows@[p.index as int].0), Action::UnpaintPreview(p)]
        } else {
            seq![Action::UnpaintPreview(p)]
        },
        None => Seq::<Action>::empty(),
    }
}

/// The outcome of closing the `index`th window of the window switcher: the
/// window is asked to close and leaves the preview, whose thumbnails are
/// dropped; the window switcher is hidden if no window is left, and
/// repainted otherwise, with the selection kept on a remaining window and
/// nothing hovered.
pub open spec fn close_preview_window_post(old: App, new: App, index: int, actions: Seq<Action>) -> bool {
    &&& new.is_admin == old.is_admin
    &&& new.trayicon == old.trayicon
    &&& new.config == old.config
    &&& new.switch_windows_state == old.switch_windows_state
    &&& new.switch_apps_state == old.switch_apps_state
    &&& match old.switch_windows_preview_state {
        Some(p) => if 0 <= index < p.windows.len() {
            let remaining = p.windows@.remove(index);
            &&& actions.len() == 2
            &&& actions[0] == Action::CloseWindow(p.windows@[index].0)
            &&& if remaining.len() == 0 {
                &&& new.switch_windows_preview_state is None
                &&& actions[1] matches Action::UnpaintPreview(q) && q.windows@ == remaining
                    && q.thumbnail_handles@ == Seq::<isize>::empty() && q.index == p.index
                    && q.hovered_index == p.hovered_index
            } else {
                &&& new.switch_windows_preview_state matches Some(q) && q.windows@ == remaining
                    && q.thumbnail_handles@ == Seq::<isize>::empty() && q.index == (if p.index
                    >= remaining.len() {
                    remaining.len() - 1
                } else {
                    p.index as int
                }) && q.hovered_index is None
                &&& actions[1] == Action::PaintPreview
            }
        } else {
            new == old && actions.len() == 0
        },
        None => new == old && actions.len() == 0,
    }
}

/// The preview under the cursor among `num_windows` on `monitor`, if any.
pub open spec fn clicked_preview(monitor: Rect, num_windows: int, cursor: Point) -> Option<usize> {
    let g = preview_geometry(monitor, num_windows);
    if exists|i: usize| i < num_windows && preview_hit(g, i as int, cursor) {
        Some(choose|i: usize| i < num_windows && preview_hit(g, i as int, cursor))
    } else {
        None
    }
}

/// The icon under the cursor among `num_apps` on `monitor`, if any.
pub open spec fn clicked_app(monitor: Rect, num_apps: int, cursor: Point) -> Option<usize> {
    let g = apps_geometry(monitor, num_apps);
    if exists|i: usize| i < num_apps && app_cell_hit(g, i as int, cursor) {
        Some(choose|i: usize| i < num_apps && app_cell_hit(g, i as int, cursor))
    } else {
        None
    }
}

proof fn lemma_clicked_preview(monitor: Rect, num_windows: int, cursor: Point, res: Option<usize>)
    requires
        preview_hit_result(monitor, num_windows, cursor, res),
    ensures
        res == clicked_preview(monitor, num_windows, cursor),
{
    let g = preview_geometry(monitor, num_windows);
    match res {
        Some(i) => {
            assert(i < num_windows && preview_hit(g, i as int, cursor));
            let c = choose|c: usize| c < num_windows && preview_hit(g, c as int, cursor);
            assert(c == i);
        },
        None => {
            assert(!exists|c: usize| c < num_windows && preview_hit(g, c as int, cursor));
        },
    }
}

proof fn lemma_clicked_app(monitor: Rect, num_apps: int, cursor: Point, res: Option<usize>)
    requires
        match res {
            Some(i) => {
                &&& i < num_apps
                &&& app_cell_hit(apps_geometry(monitor, num_apps), i as int, cursor)
                &&& forall|j: int|
                    0 <= j < num_apps && j != i ==> !app_cell_hit(
                        apps_geometry(monitor, num_apps),
                        j,
                        cursor,
                    )
            },
            None => forall|j: int|
                0 <= j < num_apps ==> !app_cell_hit(apps_geometry(monitor, num_apps), j, cursor),
        },
    ensures
        res == clicked_app(monitor, num_apps, cursor),
{
    let g = apps_geometry(monitor, num_apps);
    match res {
        Some(i) => {
            let c = choose|c: usize| c < num_apps && app_cell_hit(g, c as int, cursor);
            assert(c == i);
        },
        None => {
            assert(!exists|c: usize| c < num_apps && app_cell_hit(g, c as int, cursor));
        },
    }
}

/// A click on the close button of the `i`th preview is a click on that
/// preview: it is the one `click` acts on.
pub proof fn lemma_close_button_click(monitor: Rect, num_windows: int, i: usize, cursor: Point)
    requires
        monitor.bounded(),
        1 <= num_windows <= MAX_ITEMS,
        i < num_windows,
        close_button_hit(preview_geometry(monitor, num_windows), i as int, cursor),
    ensures
        clicked_preview(monitor, num_windows, cursor) == Some(i),
{
    let g = preview_geometry(monitor, num_windows);
    lemma_preview_geometry_bounded(monitor, num_windows);
    lemma_close_button_in_preview(g, i as int, cursor);
    let c = choose|c: usize| c < num_windows && preview_hit(g, c as int, cursor);
    assert(c == i);
}

/// A click inside the cell of the `i`th icon is a click on that icon: it is
/// the one `click` acts on.
pub proof fn lemma_app_cell_click(monitor: Rect, num_apps: int, i: usize, cursor: Point)
    requires
        i < num_apps,
        app_cell_hit(apps_geometry(monitor, num_apps), i as int, cursor),
    ensures
        clicked_app(monitor, num_apps, cursor) == Some(i),
{
    let g = apps_geometry(monitor, num_apps);
    let c = choose|c: usize| c < num_apps && app_cell_hit(g, c as int, cursor);
    if c < i {
        lemma_app_cells_disjoint(g, c as int, i as int, cursor);
    } else if i < c {
        lemma_app_cells_disjoint(g, i as int, c as int, cursor);
    }
}

/// The outcome of a click at `cursor`. A click on a preview of the window
/// switcher closes that window if it hits its close button, and otherwise
/// selects it and switches to it. Failing that, a click on an icon of the app
/// switcher selects it and switches to it. Other clicks change nothing.
pub open spec fn click_post(old: App, new: App, monitor: Rect, cursor: Point, actions: Seq<Action>) -> bool {
    let preview_target = match old.switch_windows_preview_state {
        Some(p) => clicked_preview(monitor, p.windows.len() as int, cursor),
        None => None,
    };
    match (old.switch_windows_preview_state, preview_target) {
        (Some(p), Some(i)) => if close_button_hit(
            preview_geometry(monitor, p.windows.len() as int),
            i as int,
            cursor,
        ) {
            close_preview_window_post(old, new, i as int, actions)
        } else {
            closes_preview(
                App {
                    switch_windows_preview_state: Some(SwitchWindowsPreviewState { index: i, ..p }),
                    ..old
                },
                new,
                actions,
                true,
            )
        },
        _ => match old.switch_apps_state {
            Some(s) => match clicked_app(monitor, s.apps.len() as int, cursor) {
                Some(i) => closes_switchers(
                    App { switch_apps_state: Some(SwitchAppsState { index: i, ..s }), ..old },
                    new,
                    actions,
                    true,
                ),
                None => new == old && actions.len() == 0,
            },
            None => new == old && actions.len() == 0,
        },
    }
}

impl App {
    /// Switches to the selected window and closes the window switcher.
    pub fn do_switch_window(&mut self) -> (actions: Vec<Action>)
        requires
            old(self).wf(),
        ensures
            final(self).wf(),
            closes_preview(*old(self), *final(self), actions@, true),
    {
        let mut actions: Vec<Action> = Vec::new();
        if let Some(state) = self.switch_windows_preview_state.take() {
            if state.index < state.windows.len() {
                let hwnd = state.windows[state.index].0;
                actions.push(Action::SetForeground(hwnd));
            }
            actions.push(Action::UnpaintPreview(state));
        }
        proof {
            match old(self).switch_windows_preview_state {
                Some(p) => {
                    assert(actions@ =~= seq![
                        Action::SetForeground(p.windows@[p.index as int].0),
                        Action::UnpaintPreview(p),
                    ]);
                },
                None => {},
            }
        }
        actions
    }

    /// Closes the window switcher without switching.
    pub fn cancel_switch_window(&mut self) -> (actions: Vec<Action>)
        requires
            old(self).wf(),
        ensures
            final(self).wf(),
            closes_preview(*old(self), *final(self), actions@, false),
    {
        let mut actions: Vec<Action> = Vec::new();
        if let Some(state) = self.switch_windows_preview_state.take() {
            actions.push(Action::UnpaintPreview(state));
        }
        proof {
            match old(self).switch_windows_preview_state {
                Some(p) => {
                    assert(actions@ =~= seq![Action::UnpaintPreview(p)]);
                },
                None => {},
            }
        }
        actions
    }

    /// Closes the `index`th window of the window switcher.
    pub fn close_preview_window(&mut self, index: usize) -> (actions: Vec<Action>)
        requires
            old(self).wf(),
        ensures
            final(self).wf(),
            close_preview_window_post(*old(self), *final(self), index as int, actions@),
    {
        let mut actions: Vec<Action> = Vec::new();
        match self.switch_windows_preview_state.take() {
            Some(mut state) => {
                if index < state.windows.len() {
                    let hwnd_to_close = state.windows[index].0;
                    actions.push(Action::CloseWindow(hwnd_to_close));

                    state.windows.remove(index);
                    state.thumbnail_handles.clear();

                    if state.windows.len() == 0 {
                        actions.push(Action::UnpaintPreview(state));
                    } else {
                        if state.index >= state.windows.len() {
                            state.index = state.windows.len() - 1;
                        }
                        state.hovered_index = None;
                        self.switch_windows_preview_state = Some(state);
                        actions.push(Action::PaintPreview);
                    }
                } else {
                    self.switch_windows_preview_state = Some(state);
                }
            },
            None => {},
        }
        actions
    }

    /// A click of the left mouse button at `cursor`, on `monitor`.
    pub fn click(&mut self, monitor: Rect, cursor: Point) -> (actions: Vec<Action>)
        requires
            old(self).wf(),
            monitor.bounded(),
            cursor.bounded(),
        ensures
            final(self).wf(),
            click_post(*old(self), *final(self), monitor, cursor, actions@),
    {
        match self.switch_windows_preview_state.take() {
            Some(mut state) => {
                let hit = find_clicked_preview_index(&state, monitor, cursor);
                proof {
                    lemma_clicked_preview(monitor, state.windows.len() as int, cursor, hit);
                }
                match hit {
                    Some(i) => {
                        let close = is_close_button_clicked(&state, i, monitor, cursor);
                        if close {
                            self.switch_windows_preview_state = Some(state);
                            return self.close_preview_window(i);
                        }
                        state.index = i;
                        self.switch_windows_preview_state = Some(state);
                        return self.do_switch_window();
                    },
                    None => {
                        self.switch_windows_preview_state = Some(state);
                    },
                }
            },
            None => {},
        }
        match self.switch_apps_state.take() {
            Some(mut state) => {
                let hit = find_clicked_app_index(&state, monitor, cursor);
                proof {
                    lemma_clicked_app(monitor, state.apps.len() as int, cursor, hit);
                }
                match hit {
                    Some(i) => {
                        state.index = i;
                        self.switch_apps_state = Some(state);
                        self.do_switch_app()
                    },
                    None => {
                        self.switch_apps_state = Some(state);
                        Vec::new()
                    },
                }
            },
            None => Vec::new(),
        }
    }

    /// The mouse moved to `cursor`, on `monitor`: the preview under it is
    /// the hovered one, and the window switcher is repainted if that changed.
    pub fn handle_mouse_move(&mut self, monitor: Rect, cursor: Point) -> (actions: Vec<Action>)
        requires
            old(self).wf(),
            monitor.bounded(),
            cursor.bounded(),
        ensures
            final(self).wf(),
            match old(self).switch_windows_preview_state {
                Some(p) => {
                    let hovered = clicked_preview(monitor, p.windows.len() as int, cursor);
                    if hovered != p.hovered_index {
                        &&& *final(self) == App {
                            switch_windows_preview_state: Some(
                                SwitchWindowsPreviewState { hovered_index: hovered, ..p },
                            ),
                            ..*old(self)
                        }
                        &&& actions@ == seq![Action::PaintPreview]
                    } else {
                        *final(self) == *old(self) && actions@.len() == 0
                    }
                },
                None => *final(self) == *old(self) && actions@.len() == 0,
            },
    {
        let mut actions: Vec<Action> = Vec::new();
        match self.switch_windows_preview_state.take() {
            Some(mut state) => {
                let new_hovered = find_hovered_preview_index(&state, monitor, cursor);
                proof {
                    lemma_clicked_preview(monitor, state.windows.len() as int, cursor, new_hovered);
                }
                if new_hovered != state.hovered_index {
                    state.hovered_index = new_hovered;
                    actions.push(Action::PaintPreview);
                }
                self.switch_windows_preview_state = Some(state);
            },
            None => {},
        }
        proof {
            assert(actions@ =~= seq![Action::PaintPreview] || actions@.len() == 0);
        }
        actions
    }

    /// The window to cycle from when the switch-windows hotkey is pressed:
    /// the window of the selected application while the app switcher is
    /// shown, or else `hint` (the foreground window when the key was
    /// pressed) unless it is null. None means the current foreground window.
    pub fn switch_windows_target(&self, hint: usize) -> (res: Option<isize>)
        requires
            self.wf(),
        ensures
            res == (match self.switch_apps_state {
                Some(s) => Some(s.apps@[s.index as int].1),
                None => if hint != 0 {
                    Some(hint as isize)
                } else {
                    None
                },
            }),
    {
        match &self.switch_apps_state {
            Some(state) => Some(state.apps[state.index].1),
            None => {
                if hint != 0 {
                    Some(hint as isize)
                } else {
                    None
                }
            },
        }
    }

    /// The switch-windows hotkey was pressed, from the window `hwnd`: steps
    /// the window cycle, then paints the window switcher if previews are
    /// shown and there is one.
    pub fn handle_switch_windows(
        &mut self,
        hwnd: isize,
        reverse: bool,
        groups: &Vec<WindowGroup>,
    ) -> (res: (bool, Vec<Action>))
        requires
            old(self).wf(),
            forall|k: int| 0 <= k < groups@.len() ==> #[trigger] groups@[k].1@.len() <= MAX_ITEMS,
            switch_windows_in_bounds(*old(self), groups@, hwnd, reverse),
        ensures
            final(self).wf(),
            ({
                let paint = final(self).config.switch_windows_show_preview
                    && final(self).switch_windows_preview_state is Some;
                let switch_actions = if paint {
                    res.1@.drop_last()
                } else {
                    res.1@
                };
                &&& switch_windows_post(
                    *old(self),
                    *final(self),
                    groups@,
                    hwnd,
                    reverse,
                    res.0,
                    switch_actions,
                )
                &&& paint ==> res.1@.len() >= 1 && res.1@.last() == Action::PaintPreview
            }),
    {
        let (switched, mut actions) = self.switch_windows(hwnd, reverse, groups);
        let ghost first = actions@;
        if self.config.switch_windows_show_preview && self.switch_windows_preview_state.is_some() {
            actions.push(Action::PaintPreview);
        }
        proof {
            if self.config.switch_windows_show_preview && self.switch_windows_preview_state is Some {
                assert(actions@.drop_last() =~= first);
            }
        }
        (switched, actions)
    }

    /// The modifier of the switch-windows hotkey was released: the next press
    /// starts a new cycle; with previews shown, this switches to the selected
    /// window and closes the window switcher.
    pub fn switch_windows_done(&mut self) -> (actions: Vec<Action>)
        requires
            old(self).wf(),
        ensures
            final(self).wf(),
            final(self).switch_windows_state.modifier_released,
            final(self).switch_windows_state.cache == old(self).switch_windows_state.cache,
            if old(self).config.switch_windows_show_preview {
                closes_preview(
                    App {
                        switch_windows_state: SwitchWindowsState {
                            modifier_released: true,
                            ..old(self).switch_windows_state
                        },
                        ..*old(self)
                    },
                    *final(self),
                    actions@,
                    true,
                )
            } else {
                &&& *final(self) == App {
                    switch_windows_state: SwitchWindowsState {
                        modifier_released: true,
                        ..old(self).switch_windows_state
                    },
                    ..*old(self)
                }
                &&& actions@.len() == 0
            },
    {
        self.switch_windows_state.modifier_released = true;
        if self.config.switch_windows_show_preview {
            self.do_switch_window()
        } else {
            Vec::new()
        }
    }
}


/// While the modifier is held, a press of the switch-windows hotkey and then
/// a press of the reversed hotkey, on the same windows, come back to the same
/// window of the cycle, in the same cycle order, from the same start.
pub proof fn lemma_window_cycle_undo(
    state: SwitchWindowsState,
    next: SwitchWindowsState,
    path: Seq<char>,
    ids: Seq<isize>,
    reverse: bool,
)
    requires
        ids.len() >= 2,
        ids.no_duplicates(),
        !state.modifier_released,
        state.cache matches Some((p, id, idx, w)) && p@ == path && idx < ids.len()
            && w@.no_duplicates() && w@.len() == ids.len() && forall|x: isize|
            #[trigger] w@.contains(x) <==> ids.contains(x),
        ({
            let plan = window_cycle_plan(state, path, ids, reverse);
            &&& !next.modifier_released
            &&& next.cache matches Some((p, id, idx, w)) && p@ == path && id == plan.state_id
                && idx == plan.index && w@ == plan.windows
        }),
    ensures
        ({
            let back = window_cycle_plan(next, path, ids, !reverse);
            &&& state.cache matches Some((p, id, idx, w)) && back.state_id == id && back.index
                == idx && back.windows == w@
        }),
{
    match state.cache {
        Some((p, id, idx, w)) => {
            lemma_merge_order_stable(w@, ids);
            lemma_step_index_undo(idx as int, ids.len() as int);
            let plan = window_cycle_plan(state, path, ids, reverse);
            assert(plan.windows == w@);
            match next.cache {
                Some((p2, id2, idx2, w2)) => {
                    lemma_merge_order_stable(w2@, ids);
                },
                None => {},
            }
        },
        None => {},
    }
}

impl App {
    /// Whether a tray icon event shows the tray menu: there is a tray icon and
    /// the event was a click.
    pub fn tray_menu_requested(&self, show_menu: bool) -> (res: bool)
        ensures
            res == (self.trayicon && show_menu),
    {
        self.trayicon && show_menu
    }
}


impl App {
    /// Whether to try registering the tray icon again later: there is a tray
    /// icon, its registration failed, and no tray icon exists.
    pub fn retry_trayicon(&self, registered: bool, exists: bool) -> (res: bool)
        ensures
            res == (self.trayicon && !registered && !exists),
    {
        self.trayicon && !registered && !exists
    }
}

// ---------------------------------------------------------------------------
// The icons of applications, fetched once per module.
// ---------------------------------------------------------------------------

/// The icon remembered for the module `path` in `entries`: that of its first
/// entry, if it has one.
pub open spec fn cached_icon(entries: Seq<(String, isize)>, path: Seq<char>) -> Option<isize>
    decreases entries.len(),
{
    if entries.len() == 0 {
        None
    } else {
        match cached_icon(entries.drop_last(), path) {
            Some(icon) => Some(icon),
            None => if entries.last().0@ == path {
                Some(entries.last().1)
            } else {
                None
            },
        }
    }
}

/// The icons fetched so far, by module path.
#[derive(Debug)]
pub struct IconCache {
    pub entries: Vec<(String, isize)>,
}

impl IconCache {
    /// A cache that remembers no icon.
    pub fn new() -> (res: IconCache)
        ensures
            res.entries@ == Seq::<(String, isize)>::empty(),
    {
        IconCache { entries: Vec::new() }
    }

    /// The icon remembered for the module `path`; None means that it is to
    /// be fetched and remembered.
    pub fn icon_for(&self, path: &String) -> (res: Option<isize>)
        ensures
            res == cached_icon(self.entries@, path@),
    {
        let n = self.entries.len();
        for i in 0..n
            invariant
                n == self.entries@.len(),
                cached_icon(self.entries@.take(i as int), path@) is None,
        {
            proof {
                assert(self.entries@.take(i + 1).drop_last() =~= self.entries@.take(i as int));
            }
            if self.entries[i].0 == *path {
                proof {
                    lemma_cached_icon_prefix(self.entries@, i + 1, path@);
                }
                return Some(self.entries[i].1);
            }
        }
        proof {
            assert(self.entries@.take(n as int) =~= self.entries@);
        }
        None
    }

    /// Remembers `icon` for the module `path`, which has none yet: it is the
    /// icon of `path` from now on, and the icons of other modules stay.
    pub fn remember(&mut self, path: String, icon: isize)
        requires
            cached_icon(old(self).entries@, path@) is None,
        ensures
            final(self).entries@ == old(self).entries@.push((path, icon)),
            cached_icon(final(self).entries@, path@) == Some(icon),
            forall|other: Seq<char>|
                other != path@ ==> #[trigger] cached_icon(final(self).entries@, other) == cached_icon(
                    old(self).entries@,
                    other,
                ),
    {
        let ghost key = path@;
        self.entries.push((path, icon));
        proof {
            assert(self.entries@.drop_last() =~= old(self).entries@);
        }
    }
}

/// Once a prefix of the entries remembers an icon for a path, so do the
/// entries.
proof fn lemma_cached_icon_prefix(entries: Seq<(String, isize)>, k: int, path: Seq<char>)
    requires
        0 < k <= entries.len(),
        entries[k - 1].0@ == path,
        cached_icon(entries.take(k - 1), path) is None,
    ensures
        cached_icon(entries, path) == Some(entries[k - 1].1),
    decreases entries.len() - k,
{
    if k == entries.len() {
        assert(entries.drop_last() =~= entries.take(k - 1));
    } else {
        assert(entries.drop_last().take(k - 1) =~= entries.take(k - 1));
        lemma_cached_icon_prefix(entries.drop_last(), k, path);
    }
}


/// After the modifier was released, the next press on the same application
/// goes back to the window the previous cycle started from, at its first
/// place in the current window list, when that window is still open and is
/// not the current one; the cycle order is the current window list.
pub proof fn lemma_released_cycle_returns_to_start(
    state: SwitchWindowsState,
    path: Seq<char>,
    ids: Seq<isize>,
    reverse: bool,
)
    requires
        ids.len() >= 2,
        state.modifier_released,
        state.cache matches Some((p, id, idx, w)) && p@ == path && id != ids[0] && ids.contains(id),
    ensures
        ({
            let plan = window_cycle_plan(state, path, ids, reverse);
            &&& state.cache matches Some((p, id, idx, w)) && 0 <= plan.index < ids.len()
                && ids[plan.index] == id && forall|j: int| 0 <= j < plan.index ==> ids[j] != id
            &&& plan.windows == ids
            &&& plan.state_id == ids[0]
        }),
{
    match state.cache {
        Some((p, id, idx, w)) => {
            let k = choose|k: int| 0 <= k < ids.len() && ids[k] == id;
            lemma_first_index_exists(ids, id, k);
        },
        None => {},
    }
}

/// Where a value occurs in a sequence, it has a first position.
proof fn lemma_first_index_exists(s: Seq<isize>, x: isize, k: int)
    requires
        0 <= k < s.len(),
        s[k] == x,
    ensures
        is_first_index_of(s, x, first_index_of(s, x)),
    decreases k,
{
    if exists|j: int| 0 <= j < k && s[j] == x {
        let j = choose|j: int| 0 <= j < k && s[j] == x;
        lemma_first_index_exists(s, x, j);
    } else {
        assert(is_first_index_of(s, x, k));
    }
}

/// A new cycle (another application, no cycle remembered, or the modifier
/// released with nothing to go back to) starts at the second window, in the
/// order of the current window list, from the current window.
pub proof fn lemma_fresh_cycle_starts_at_second_window(
    state: SwitchWindowsState,
    path: Seq<char>,
    ids: Seq<isize>,
    reverse: bool,
)
    requires
        ids.len() >= 2,
        match state.cache {
            Some((p, id, idx, w)) => p@ != path || (state.modifier_released && (id == ids[0]
                || !ids.contains(id))),
            None => true,
        },
    ensures
        window_cycle_plan(state, path, ids, reverse).index == 1,
        window_cycle_plan(state, path, ids, reverse).windows == ids,
        window_cycle_plan(state, path, ids, reverse).state_id == ids[0],
{
}

/// While the app switcher is shown on `len` applications, a forward press
/// moves the selection from `index` to `(index + 1) mod len`, and a reverse
/// press to `(index + len - 1) mod len`.
pub proof fn lemma_cycle_app_index_modular(index: int, len: int)
    requires
        0 <= index < len,
    ensures
        cycle_app_index(index, len, false) == (index + 1) % len,
        cycle_app_index(index, len, true) == (index + len - 1) % len,
{
    if index == len - 1 {
        assert((index + 1) % len == 0) by {
            vstd::arithmetic::div_mod::lemma_mod_self_0(len);
        }
    } else {
        vstd::arithmetic::div_mod::lemma_small_mod((index + 1) as nat, len as nat);
    }
    if index == 0 {
        vstd::arithmetic::div_mod::lemma_small_mod((len - 1) as nat, len as nat);
    } else {
        vstd::arithmetic::div_mod::lemma_mod_add_multiples_vanish(index - 1, len);
        vstd::arithmetic::div_mod::lemma_small_mod((index - 1) as nat, len as nat);
    }
}

/// The app switcher opens on the second application (forward) or the last
/// one (reverse), and moves between its applications as a cycle.
pub proof fn lemma_first_app_index(len: int, reverse: bool)
    requires
        len >= 1,
    ensures
        0 <= first_app_index(len, reverse) < len,
        len >= 2 ==> first_app_index(len, reverse) == (if reverse {
            len - 1
        } else {
            1
        }),
        len >= 2 ==> first_app_index(len, reverse) == cycle_app_index(0, len, reverse),
{
}

/// Closing the preview at position `index` asks exactly that window to close
/// and leaves the preview listing the other windows, in their order: the
/// windows before `index` stay where they were and those after it move up by
/// one.
pub proof fn lemma_close_preview_window_removes_entry(
    old: App,
    new: App,
    index: int,
    actions: Seq<Action>,
)
    requires
        close_preview_window_post(old, new, index, actions),
        old.switch_windows_preview_state matches Some(p) && 0 <= index < p.windows.len(),
    ensures
        ({
            let p = old.switch_windows_preview_state->0;
            let n = p.windows@.len();
            let listed = if n == 1 {
                actions[1]->UnpaintPreview_0.windows@
            } else {
                new.switch_windows_preview_state->0.windows@
            };
            &&& actions[0] == Action::CloseWindow(p.windows@[index].0)
            &&& listed.len() == n - 1
            &&& forall|j: int| 0 <= j < index ==> #[trigger] listed[j] == p.windows@[j]
            &&& forall|j: int| index <= j < n - 1 ==> #[trigger] listed[j] == p.windows@[j + 1]
            &&& n == 1 <==> new.switch_windows_preview_state is None
        }),
{
}


/// Switching to the selected application hides the window switcher first
/// (if shown), then brings the selected application's window to the front,
/// then hides the app switcher; nothing stays shown.
pub proof fn lemma_do_switch_app_brings_selected(old: App, new: App, actions: Seq<Action>)
    requires
        old.wf(),
        closes_switchers(old, new, actions, true),
        old.switch_apps_state is Some,
    ensures
        ({
            let s = old.switch_apps_state->0;
            let k = if old.switch_windows_preview_state is Some {
                1int
            } else {
                0int
            };
            &&& actions.len() == k + 2
            &&& actions[k] == Action::SetForeground(s.apps@[s.index as int].1)
            &&& actions[k + 1] == Action::UnpaintApps(s)
            &&& k == 1 ==> actions[0] == Action::UnpaintPreview(old.switch_windows_preview_state->0)
            &&& new.switch_apps_state is None && new.switch_windows_preview_state is None
        }),
{
}

/// Switching to the selected window of the window switcher brings that
/// window to the front and then hides the window switcher.
pub proof fn lemma_do_switch_window_brings_selected(old: App, new: App, actions: Seq<Action>)
    requires
        old.wf(),
        closes_preview(old, new, actions, true),
        old.switch_windows_preview_state is Some,
    ensures
        ({
            let p = old.switch_windows_preview_state->0;
            &&& actions.len() == 2
            &&& actions[0] == Action::SetForeground(p.windows@[p.index as int].0)
            &&& actions[1] == Action::UnpaintPreview(p)
            &&& new.switch_windows_preview_state is None
        }),
{
}

/// A click on a preview, off its close button, brings that preview's window
/// to the front and hides the window switcher; a click on its close button
/// asks that window to close.
pub proof fn lemma_click_on_preview(
    old: App,
    new: App,
    monitor: Rect,
    cursor: Point,
    actions: Seq<Action>,
    i: usize,
)
    requires
        old.wf(),
        monitor.bounded(),
        click_post(old, new, monitor, cursor, actions),
        old.switch_windows_preview_state matches Some(p) && i < p.windows.len() && preview_hit(
            preview_geometry(monitor, p.windows.len() as int),
            i as int,
            cursor,
        ),
    ensures
        ({
            let p = old.switch_windows_preview_state->0;
            let g = preview_geometry(monitor, p.windows.len() as int);
            &&& close_button_hit(g, i as int, cursor) ==> actions.len() == 2 && actions[0]
                == Action::CloseWindow(p.windows@[i as int].0)
            &&& !close_button_hit(g, i as int, cursor) ==> actions.len() == 2 && actions[0]
                == Action::SetForeground(p.windows@[i as int].0)
                && new.switch_windows_preview_state is None
        }),
{
    let p = old.switch_windows_preview_state->0;
    let n = p.windows.len() as int;
    let g = preview_geometry(monitor, n);
    lemma_preview_geometry_bounded(monitor, n);
    let c = choose|c: usize| c < n && preview_hit(g, c as int, cursor);
    if c != i {
        lemma_preview_hits_disjoint(g, c as int, i as int, cursor);
    }
    assert(clicked_preview(monitor, n, cursor) == Some(i));
}

} // verus!
