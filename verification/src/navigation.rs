//! How the dashboard reacts to actions: selection, scrolling, tabs, filters,
//! help, quitting.
use vstd::prelude::*;

use crate::dashboard::{ActiveTab, ActiveView};
use crate::keys::Action;

verus! {

/// The dashboard's interactive state.
#[derive(Debug)]
pub struct Navigation {
    pub active_tab: ActiveTab,
    pub active_view: ActiveView,
    pub selected_index: usize,
    pub scroll_offset: usize,
    pub filter_active: bool,
    pub provider_filter: Option<usize>,
    pub show_help: bool,
    pub quit_pending: bool,
    pub should_exit: bool,
    pub force_refresh: bool,
    pub toast_visible: bool,
    pub toast_message: String,
    pub filter_text: String,
}

/// The facts an action is judged against.
#[derive(Debug, Clone, Copy, PartialEq, Eq, Structural)]
pub struct NavContext {
    /// Pull requests shown after filtering.
    pub filtered_len: usize,
    /// Terminal height in rows.
    pub height: u16,
    /// Configured providers.
    pub provider_count: usize,
    /// Pull requests of the active tab before filtering.
    pub current_len: usize,
}

/// The navigation state as values.
pub struct NavState {
    pub active_tab: ActiveTab,
    pub active_view: ActiveView,
    pub selected_index: int,
    pub scroll_offset: int,
    pub filter_active: bool,
    pub provider_filter: Option<usize>,
    pub show_help: bool,
    pub quit_pending: bool,
    pub should_exit: bool,
    pub force_refresh: bool,
    pub toast_visible: bool,
    pub toast_message: Seq<char>,
    pub filter_text: Seq<char>,
}

impl View for Navigation {
    type V = NavState;

    open spec fn view(&self) -> NavState {
        NavState {
            active_tab: self.active_tab,
            active_view: self.active_view,
            selected_index: self.selected_index as int,
            scroll_offset: self.scroll_offset as int,
            filter_active: self.filter_active,
            provider_filter: self.provider_filter,
            show_help: self.show_help,
            quit_pending: self.quit_pending,
            should_exit: self.should_exit,
            force_refresh: self.force_refresh,
            toast_visible: self.toast_visible,
            toast_message: self.toast_message@,
            filter_text: self.filter_text@,
        }
    }
}

/// Rows left for the list: the terminal height less six, never negative.
pub open spec fn list_rows(height: u16) -> int {
    if height > 6 {
        height - 6
    } else {
        0
    }
}

pub open spec fn min_int(a: int, b: int) -> int {
    if a < b {
        a
    } else {
        b
    }
}

/// Moving down scrolls by a row count less one, which does not exist for a
/// terminal of six rows or fewer.
pub open spec fn move_down_undefined(s: NavState, ctx: NavContext) -> bool {
    ctx.filtered_len > 0 && list_rows(ctx.height) == 0 && min_int(s.selected_index + 1, ctx.filtered_len - 1) >= s.scroll_offset
}

/// The state after an action.
pub open spec fn next_state(s: NavState, action: Action, ctx: NavContext) -> NavState {
    let len = ctx.filtered_len as int;
    let rows = list_rows(ctx.height);
    match action {
        Action::Quit => if s.quit_pending {
            NavState { should_exit: true, ..s }
        } else {
            NavState { quit_pending: true, toast_message: "Press again to quit"@, toast_visible: true, ..s }
        },
        Action::MoveDown => if len > 0 {
            let new = min_int(s.selected_index + 1, len - 1);
            if new >= s.scroll_offset + rows {
                let back = new - (rows - 1);
                NavState { selected_index: new, scroll_offset: if back > 0 { back } else { 0 }, ..s }
            } else {
                NavState { selected_index: new, ..s }
            }
        } else {
            s
        },
        Action::MoveUp => {
            let new = if s.selected_index > 0 { s.selected_index - 1 } else { 0 };
            if new < s.scroll_offset {
                NavState { selected_index: new, scroll_offset: new, ..s }
            } else {
                NavState { selected_index: new, ..s }
            }
        },
        Action::JumpTop => NavState { selected_index: 0, scroll_offset: 0, ..s },
        Action::JumpBottom => if len > 0 {
            if len > rows {
                NavState { selected_index: len - 1, scroll_offset: len - rows, ..s }
            } else {
                NavState { selected_index: len - 1, ..s }
            }
        } else {
            s
        },
        Action::OpenDetail => if len > 0 {
            NavState { active_view: ActiveView::Detail(s.selected_index as usize), ..s }
        } else {
            s
        },
        Action::OpenBrowser => s,
        Action::SwitchTab => NavState {
            active_tab: match s.active_tab {
                ActiveTab::Reviewing => ActiveTab::Authored,
                ActiveTab::Authored => ActiveTab::Reviewing,
            },
            selected_index: 0,
            scroll_offset: 0,
            ..s
        },
        Action::FocusSearch => NavState { filter_active: true, ..s },
        Action::ForceRefresh => NavState { force_refresh: true, toast_message: "Refreshing..."@, toast_visible: true, ..s },
        Action::ProviderFilter(n) => if n < ctx.provider_count {
            NavState { provider_filter: Some(n), selected_index: 0, scroll_offset: 0, ..s }
        } else {
            s
        },
        Action::ClearProviderFilter => NavState { provider_filter: None, selected_index: 0, scroll_offset: 0, ..s },
        Action::ToggleHelp => NavState { show_help: !s.show_help, ..s },
        Action::Back => if s.filter_active {
            NavState { filter_active: false, ..s }
        } else if s.show_help {
            NavState { show_help: false, ..s }
        } else if s.active_view != ActiveView::Dashboard {
            NavState { active_view: ActiveView::Dashboard, ..s }
        } else {
            NavState { filter_text: seq![], ..s }
        },
        Action::NoAction => s,
    }
}

/// The position in the active tab's unfiltered list whose page an action
/// opens in the browser.
pub open spec fn browser_target(s: NavState, action: Action, ctx: NavContext) -> Option<usize> {
    match action {
        Action::OpenBrowser => if s.selected_index < ctx.current_len {
            Some(s.selected_index as usize)
        } else {
            None
        },
        _ => None,
    }
}

impl Navigation {
    /// The state of a fresh dashboard.
    pub fn new() -> (r: Self)
        ensures
            r@ == (NavState {
                active_tab: ActiveTab::Reviewing,
                active_view: ActiveView::Dashboard,
                selected_index: 0,
                scroll_offset: 0,
                filter_active: false,
                provider_filter: None,
                show_help: false,
                quit_pending: false,
                should_exit: false,
                force_refresh: false,
                toast_visible: false,
                toast_message: seq![],
                filter_text: seq![],
            }),
    {
        Navigation {
            active_tab: ActiveTab::Reviewing,
            active_view: ActiveView::Dashboard,
            selected_index: 0,
            scroll_offset: 0,
            filter_active: false,
            provider_filter: None,
            show_help: false,
            quit_pending: false,
            should_exit: false,
            force_refresh: false,
            toast_visible: false,
            toast_message: String::new(),
            filter_text: String::new(),
        }
    }

    /// Applies an action; returns the position of the pull request to open in
    /// the browser, if the action opens one.
    pub fn apply(&mut self, action: Action, ctx: NavContext) -> (r: Option<usize>)
        requires
            action == Action::MoveDown ==> !move_down_undefined(old(self)@, ctx),
        ensures
            final(self)@ == next_state(old(self)@, action, ctx),
            r == browser_target(old(self)@, action, ctx),
    {
        let len = ctx.filtered_len;
        let rows: usize = if ctx.height > 6 {
            (ctx.height - 6) as usize
        } else {
            0
        };
        match action {
            Action::Quit => {
                if self.quit_pending {
                    self.should_exit = true;
                } else {
                    self.quit_pending = true;
                    self.toast_message = String::from_str("Press again to quit");
                    self.toast_visible = true;
                }
                None
            },
            Action::MoveDown => {
                if len > 0 {
                    let new_idx = if self.selected_index < len - 1 {
                        self.selected_index + 1
                    } else {
                        len - 1
                    };
                    self.selected_index = new_idx;
                    if new_idx >= self.scroll_offset && new_idx - self.scroll_offset >= rows {
                        let back = rows - 1;
                        self.scroll_offset = if new_idx > back {
                            new_idx - back
                        } else {
                            0
                        };
                    }
                }
                None
            },
            Action::MoveUp => {
                let new_idx = if self.selected_index > 0 {
                    self.selected_index - 1
                } else {
                    0
                };
                self.selected_index = new_idx;
                if new_idx < self.scroll_offset {
                    self.scroll_offset = new_idx;
                }
                None
            },
            Action::JumpTop => {
                self.selected_index = 0;
                self.scroll_offset = 0;
                None
            },
            Action::JumpBottom => {
                if len > 0 {
                    self.selected_index = len - 1;
                    if len > rows {
                        self.scroll_offset = len - rows;
                    }
                }
                None
            },
            Action::OpenDetail => {
                if len > 0 {
                    self.active_view = ActiveView::Detail(self.selected_index);
                }
                None
            },
            Action::OpenBrowser => {
                if self.selected_index < ctx.current_len {
                    Some(self.selected_index)
                } else {
                    None
                }
            },
            Action::SwitchTab => {
                self.active_tab = match self.active_tab {
                    ActiveTab::Reviewing => ActiveTab::Authored,
                    ActiveTab::Authored => ActiveTab::Reviewing,
                };
                self.selected_index = 0;
                self.scroll_offset = 0;
                None
            },
            Action::FocusSearch => {
                self.filter_active = true;
                None
            },
            Action::ForceRefresh => {
                self.force_refresh = true;
                self.toast_message = String::from_str("Refreshing...");
                self.toast_visible = true;
                None
            },
            Action::ProviderFilter(n) => {
                if n < ctx.provider_count {
                    self.provider_filter = Some(n);
                    self.selected_index = 0;
                    self.scroll_offset = 0;
                }
                None
            },
            Action::ClearProviderFilter => {
                self.provider_filter = None;
                self.selected_index = 0;
                self.scroll_offset = 0;
                None
            },
            Action::ToggleHelp => {
                self.show_help = !self.show_help;
                None
            },
            Action::Back => {
                if self.filter_active {
                    self.filter_active = false;
                } else if self.show_help {
                    self.show_help = false;
                } else if self.active_view != ActiveView::Dashboard {
                    self.active_view = ActiveView::Dashboard;
                } else {
                    self.filter_text = String::new();
                }
                None
            },
            Action::NoAction => None,
        }
    }

    /// The periodic reset: a shown toast is hidden and cleared, and a pending
    /// quit confirmation lapses.
    pub fn tick(&mut self)
        ensures
            final(self)@ == (NavState {
                toast_visible: false,
                toast_message: if old(self).toast_visible { seq![] } else { old(self)@.toast_message },
                quit_pending: false,
                ..old(self)@
            }),
    {
        if self.toast_visible {
            self.toast_visible = false;
            self.toast_message = String::new();
        }
        if self.quit_pending {
            self.quit_pending = false;
        }
    }
}

/// After a move down, a jump to the bottom or any action that resets the
/// selection, the selection lies inside a non-empty filtered list; after a
/// move down, the selection is also on screen.
pub proof fn lemma_selection_in_list(s: NavState, action: Action, ctx: NavContext)
    requires
        ctx.filtered_len > 0,
        action == Action::MoveDown || action == Action::JumpBottom || action == Action::JumpTop
            || action == Action::SwitchTab || action == Action::ClearProviderFilter,
        0 <= s.selected_index,
        0 <= s.scroll_offset,
        action == Action::MoveDown ==> !move_down_undefined(s, ctx),
    ensures
        0 <= next_state(s, action, ctx).selected_index < ctx.filtered_len,
        action == Action::MoveDown && s.scroll_offset <= next_state(s, action, ctx).selected_index ==>
            next_state(s, action, ctx).scroll_offset <= next_state(s, action, ctx).selected_index
            && next_state(s, action, ctx).selected_index < next_state(s, action, ctx).scroll_offset + list_rows(ctx.height),
{
}

/// Switching tabs twice comes back to the first tab, with the selection and
/// the scroll at the top.
pub proof fn lemma_switch_tab_twice(s: NavState, ctx: NavContext)
    ensures
        next_state(next_state(s, Action::SwitchTab, ctx), Action::SwitchTab, ctx).active_tab == s.active_tab,
        next_state(next_state(s, Action::SwitchTab, ctx), Action::SwitchTab, ctx).selected_index == 0,
        next_state(next_state(s, Action::SwitchTab, ctx), Action::SwitchTab, ctx).scroll_offset == 0,
{
}

/// Quitting takes two presses: the first only asks for confirmation.
pub proof fn lemma_quit_needs_confirmation(s: NavState, ctx: NavContext)
    requires
        !s.quit_pending,
        !s.should_exit,
    ensures
        !next_state(s, Action::Quit, ctx).should_exit,
        next_state(next_state(s, Action::Quit, ctx), Action::Quit, ctx).should_exit,
{
}


/// Moving up: from a selection k above the top it selects k - 1, from the top
/// it stays; the scroll follows so the selection stays on screen. Moving down
/// then up comes back to the same selection.
pub proof fn lemma_move_up(s: NavState, ctx: NavContext)
    requires
        s.selected_index >= 0,
        s.scroll_offset >= 0,
    ensures
        next_state(s, Action::MoveUp, ctx).selected_index == if s.selected_index > 0 {
            s.selected_index - 1
        } else {
            0
        },
        next_state(s, Action::MoveUp, ctx).scroll_offset <= next_state(s, Action::MoveUp, ctx).selected_index,
        s.selected_index + 1 < ctx.filtered_len && list_rows(ctx.height) > 0 ==> next_state(
            next_state(s, Action::MoveDown, ctx),
            Action::MoveUp,
            ctx,
        ).selected_index == s.selected_index,
{
}

/// Moving down: in a non-empty list it selects the next pull request, or
/// stays on the last one; a selection on screen stays on screen.
pub proof fn lemma_move_down(s: NavState, ctx: NavContext)
    requires
        s.selected_index >= 0,
        s.scroll_offset >= 0,
        ctx.filtered_len > 0,
        !move_down_undefined(s, ctx),
    ensures
        next_state(s, Action::MoveDown, ctx).selected_index == if s.selected_index + 1 < ctx.filtered_len {
            s.selected_index + 1
        } else {
            ctx.filtered_len - 1
        },
        s.scroll_offset <= s.selected_index < ctx.filtered_len ==> next_state(s, Action::MoveDown, ctx).scroll_offset
            <= next_state(s, Action::MoveDown, ctx).selected_index < next_state(s, Action::MoveDown, ctx).scroll_offset
            + list_rows(ctx.height),
{
}

} // verus!
