//! The setup wizard of the terminal program: entering the organization and
//! token, choosing extra projects, and what is saved.
use vstd::prelude::*;

use crate::keys::{Key, KeyInput};
use crate::text::{
    contains_str, contains_text, decimal, join_text, lowercase, push_decimal, push_str,
    to_lowercase, trim_end_char, trim_end_matching,
};

verus! {

/// The wizard's screens.
#[derive(Debug, Clone, Copy, PartialEq, Eq, Structural)]
pub enum SetupStep {
    /// Organization address and token.
    Input,
    /// Checking the credentials and listing the projects.
    Connecting,
    /// Choosing extra projects.
    Projects,
    /// Saved.
    Done,
}

/// The input field with focus on the first screen.
#[derive(Debug, Clone, Copy, PartialEq, Eq, Structural)]
pub enum SetupField {
    Url,
    Pat,
}

/// The wizard's state.
#[derive(Debug)]
pub struct SetupState {
    pub step: SetupStep,
    pub active_field: SetupField,
    pub org_url: String,
    pub pat: String,
    pub error_msg: String,
    pub user_name: String,
    pub projects: Vec<(String, bool)>,
    pub project_idx: usize,
    pub project_scroll: usize,
    pub should_exit: bool,
    pub quit_pending: bool,
    pub trigger_connect: bool,
    pub trigger_save: bool,
    pub search_text: String,
    pub search_active: bool,
}

/// The projects whose names contain the search text, both lower-cased; all
/// of them for an empty search. Positions into the project list, in order.
pub open spec fn matching_positions(projects: Seq<(String, bool)>, search: Seq<char>, n: int) -> Seq<int>
    decreases n,
{
    if n <= 0 {
        seq![]
    } else {
        let rest = matching_positions(projects, search, n - 1);
        if search.len() == 0 || contains_text(lowercase(projects[n - 1].0@), lowercase(search)) {
            rest.push(n - 1)
        } else {
            rest
        }
    }
}

proof fn lemma_matching_positions_bounds(projects: Seq<(String, bool)>, search: Seq<char>, n: int)
    ensures
        forall|k: int| 0 <= k < matching_positions(projects, search, n).len() ==>
            0 <= #[trigger] matching_positions(projects, search, n)[k] < n,
    decreases n,
{
    if n > 0 {
        lemma_matching_positions_bounds(projects, search, n - 1);
        let rest = matching_positions(projects, search, n - 1);
        assert forall|k: int| 0 <= k < matching_positions(projects, search, n).len() implies
            0 <= #[trigger] matching_positions(projects, search, n)[k] < n by {
            if k < rest.len() {
                assert(0 <= rest[k] < n - 1);
            }
        }
    }
}

pub open spec fn shown_positions(s: SetupState) -> Seq<int> {
    matching_positions(s.projects@, s.search_text@, s.projects@.len() as int)
}

/// Rows for the project list: the terminal height less twelve, never negative.
pub open spec fn project_rows(height: u16) -> int {
    if height > 12 {
        height - 12
    } else {
        0
    }
}

/// The selection and scroll after moving down in a list of `len` rows.
pub open spec fn moved_down(idx: int, scroll: int, len: int, rows: int) -> (int, int) {
    if len > 0 {
        let new = if idx + 1 < len - 1 { idx + 1 } else { len - 1 };
        if rows > 0 && new >= scroll + rows {
            let back = new - (rows - 1);
            (new, if back > 0 { back } else { 0 })
        } else {
            (new, scroll)
        }
    } else {
        (idx, scroll)
    }
}

/// The selection and scroll after moving up.
pub open spec fn moved_up(idx: int, scroll: int) -> (int, int) {
    let new = if idx > 0 { idx - 1 } else { 0 };
    if new < scroll {
        (new, new)
    } else {
        (new, scroll)
    }
}

/// The selection and scroll after jumping to the last of `len` rows.
pub open spec fn moved_to_bottom(idx: int, scroll: int, len: int, rows: int) -> (int, int) {
    if len > 0 {
        if rows > 0 && len > rows {
            (len - 1, len - rows)
        } else {
            (len - 1, scroll)
        }
    } else {
        (idx, scroll)
    }
}

/// The project list with the first project named `name` switched.
pub open spec fn toggled(projects: Seq<(String, bool)>, name: Seq<char>) -> Seq<(String, bool)> {
    if exists|i: int| 0 <= i < projects.len() && projects[i].0@ == name {
        let i = choose|i: int| 0 <= i < projects.len() && projects[i].0@ == name && forall|j: int| 0 <= j < i ==> projects[j].0@ != name;
        projects.update(i, (projects[i].0, !projects[i].1))
    } else {
        projects
    }
}

/// The project list with every project selected when one was not, else with
/// none selected.
pub open spec fn all_toggled(projects: Seq<(String, bool)>) -> Seq<(String, bool)> {
    let any_unselected = exists|i: int| 0 <= i < projects.len() && !projects[i].1;
    projects.map_values(|p: (String, bool)| (p.0, any_unselected))
}

fn clone_projects(v: &Vec<(String, bool)>) -> (r: Vec<(String, bool)>)
    ensures
        r@ == v@,
{
    let mut r: Vec<(String, bool)> = Vec::new();
    let mut i: usize = 0;
    while i < v.len()
        invariant
            i <= v@.len(),
            r@ == v@.subrange(0, i as int),
        decreases v@.len() - i,
    {
        r.push((v[i].0.clone(), v[i].1));
        i = i + 1;
        assert(r@ =~= v@.subrange(0, i as int));
    }
    assert(v@.subrange(0, v@.len() as int) =~= v@);
    r
}

/// The organization name that an address ends with, lower-cased: the part
/// after the last '/' once trailing slashes are dropped.
pub open spec fn last_segment(s: Seq<char>) -> Seq<char>
    decreases s.len(),
{
    if s.len() == 0 {
        s
    } else if s.last() == '/' {
        seq![]
    } else {
        last_segment(s.drop_last()).push(s.last())
    }
}

pub open spec fn provider_name_text(url: Seq<char>) -> Seq<char> {
    lowercase(last_segment(trim_end_char(url, '/')))
}

/// The provider name the wizard saves for an organization address.
pub fn provider_name_from_url(url: &str) -> (r: String)
    ensures
        r@ == provider_name_text(url@),
{
    let trimmed = trim_end_matching(url, '/');
    let v = crate::text::chars_of(trimmed.as_str());
    let mut start: usize = v.len();
    while start > 0 && v[start - 1] != '/'
        invariant
            start <= v@.len(),
            forall|k: int| start <= k < v@.len() ==> v@[k] != '/',
        decreases start,
    {
        start = start - 1;
    }
    proof {
        lemma_last_segment(v@, start as int);
    }
    let mut seg = String::new();
    let mut i: usize = start;
    while i < v.len()
        invariant
            start <= i <= v@.len(),
            seg@ == v@.subrange(start as int, i as int),
        decreases v@.len() - i,
    {
        crate::text::push_char(&mut seg, v[i]);
        i = i + 1;
        assert(v@.subrange(start as int, i as int) == v@.subrange(start as int, i - 1).push(v@[i - 1]));
    }
    to_lowercase(seg.as_str())
}

proof fn lemma_last_segment(s: Seq<char>, start: int)
    requires
        0 <= start <= s.len(),
        forall|k: int| start <= k < s.len() ==> s[k] != '/',
        start == 0 || s[start - 1] == '/',
    ensures
        last_segment(s) == s.subrange(start, s.len() as int),
    decreases s.len(),
{
    if s.len() == 0 {
    } else if s.last() == '/' {
        assert(start == s.len());
    } else if start == s.len() {
        assert(s[s.len() - 1] != '/' || start == 0);
    } else {
        let t = s.drop_last();
        lemma_last_segment(t, start);
        assert(t.subrange(start, t.len() as int).push(s.last()) =~= s.subrange(start, s.len() as int));
    }
}

/// The names of the selected projects, in order.
pub open spec fn selected_names(projects: Seq<(String, bool)>) -> Seq<Seq<char>> {
    projects.filter(|p: (String, bool)| p.1).map_values(|p: (String, bool)| p.0@)
}

/// What a save writes: the token under the provider name, and a configuration
/// naming the selected projects.
#[derive(Debug)]
pub struct SavePlan {
    pub org_url: String,
    pub token: String,
    pub provider_name: String,
    pub selected: Vec<String>,
}

/// Why saving failed.
#[derive(Debug)]
pub enum SaveFailure {
    Token(String),
    Config(String),
}

/// The summary of the chosen projects on the last screen.
pub open spec fn names_preview_text(names: Seq<Seq<char>>) -> Seq<char> {
    if names.len() == 0 {
        "None — showing only PRs you're assigned to"@
    } else if names.len() <= 5 {
        join_text(names, ", "@)
    } else {
        join_text(names.subrange(0, 4), ", "@) + ", ... and "@ + decimal((names.len() - 4) as nat) + " more"@
    }
}

pub(crate) fn join_strings(names: &Vec<String>, n: usize, sep: &str) -> (r: String)
    requires
        n <= names@.len(),
    ensures
        r@ == join_text(names@.subrange(0, n as int).map_values(|s: String| s@), sep@),
{
    let ghost parts = names@.map_values(|s: String| s@);
    let mut out = String::new();
    let mut i: usize = 0;
    while i < n
        invariant
            n <= names@.len(),
            i <= n,
            parts == names@.map_values(|s: String| s@),
            out@ == join_text(parts.subrange(0, i as int), sep@),
        decreases n - i,
    {
        proof {
            let pre = parts.subrange(0, i + 1);
            assert(pre.drop_last() =~= parts.subrange(0, i as int));
            assert(pre.last() == names@[i as int]@);
        }
        if i > 0 {
            push_str(&mut out, sep);
        } else {
            assert(parts.subrange(0, 1) =~= seq![names@[0]@]);
        }
        push_str(&mut out, names[i].as_str());
        i = i + 1;
    }
    assert(names@.subrange(0, n as int).map_values(|s: String| s@) =~= parts.subrange(0, n as int));
    out
}

/// The summary of the chosen projects.
pub fn names_preview(names: &Vec<String>) -> (r: String)
    ensures
        r@ == names_preview_text(names@.map_values(|s: String| s@)),
{
    let ghost parts = names@.map_values(|s: String| s@);
    if names.len() == 0 {
        String::from_str("None — showing only PRs you're assigned to")
    } else if names.len() <= 5 {
        let r = join_strings(names, names.len(), ", ");
        assert(names@.subrange(0, names@.len() as int) =~= names@);
        r
    } else {
        let mut r = join_strings(names, 4, ", ");
        assert(names@.subrange(0, 4).map_values(|s: String| s@) =~= parts.subrange(0, 4));
        push_str(&mut r, ", ... and ");
        push_decimal(&mut r, (names.len() - 4) as u64);
        push_str(&mut r, " more");
        r
    }
}

/// The heading of the project screen.
pub open spec fn projects_header_text(selected: nat, total: nat, shown: nat) -> Seq<char> {
    "Monitor extra projects ("@ + decimal(selected) + " of "@ + decimal(total) + " selected, "@
        + decimal(shown) + " shown)"@
}

pub fn projects_header(selected: usize, total: usize, shown: usize) -> (r: String)
    ensures
        r@ == projects_header_text(selected as nat, total as nat, shown as nat),
{
    let mut r = String::from_str("Monitor extra projects (");
    push_decimal(&mut r, selected as u64);
    push_str(&mut r, " of ");
    push_decimal(&mut r, total as u64);
    push_str(&mut r, " selected, ");
    push_decimal(&mut r, shown as u64);
    push_str(&mut r, " shown)");
    r
}

/// The wizard's state as mathematical values.
pub struct SetupView {
    pub step: SetupStep,
    pub active_field: SetupField,
    pub org_url: Seq<char>,
    pub pat: Seq<char>,
    pub error_msg: Seq<char>,
    pub user_name: Seq<char>,
    pub projects: Seq<(String, bool)>,
    pub project_idx: usize,
    pub project_scroll: usize,
    pub should_exit: bool,
    pub quit_pending: bool,
    pub trigger_connect: bool,
    pub trigger_save: bool,
    pub search_text: Seq<char>,
    pub search_active: bool,
}

impl View for SetupState {
    type V = SetupView;

    open spec fn view(&self) -> SetupView {
        SetupView {
            step: self.step,
            active_field: self.active_field,
            org_url: self.org_url@,
            pat: self.pat@,
            error_msg: self.error_msg@,
            user_name: self.user_name@,
            projects: self.projects@,
            project_idx: self.project_idx,
            project_scroll: self.project_scroll,
            should_exit: self.should_exit,
            quit_pending: self.quit_pending,
            trigger_connect: self.trigger_connect,
            trigger_save: self.trigger_save,
            search_text: self.search_text@,
            search_active: self.search_active,
        }
    }
}

/// The positions of the projects the search shows, for a wizard state.
pub open spec fn view_shown(s: SetupView) -> Seq<int> {
    matching_positions(s.projects, s.search_text, s.projects.len() as int)
}

/// The selection and scroll replaced by a pair of positions.
pub open spec fn with_selection(s: SetupView, pos: (int, int)) -> SetupView {
    SetupView { project_idx: pos.0 as usize, project_scroll: pos.1 as usize, ..s }
}

/// The state after a quit key: the exit once confirmed, else the request to
/// press again with `message`.
pub open spec fn quit_step(s: SetupView, message: Seq<char>) -> SetupView {
    if s.quit_pending {
        SetupView { should_exit: true, ..s }
    } else {
        SetupView { quit_pending: true, error_msg: message, ..s }
    }
}

/// The first screen's answer to a key.
pub open spec fn input_step(s: SetupView, key: Key) -> SetupView {
    match key {
        Key::Enter => if s.org_url.len() > 0 && s.pat.len() > 0 {
            SetupView { trigger_connect: true, ..s }
        } else if s.active_field == SetupField::Url && s.org_url.len() > 0 {
            SetupView { active_field: SetupField::Pat, ..s }
        } else {
            s
        },
        Key::Tab | Key::BackTab => SetupView {
            active_field: if s.active_field == SetupField::Url {
                SetupField::Pat
            } else {
                SetupField::Url
            },
            ..s
        },
        Key::Esc => quit_step(s, "Press Esc again to quit"@),
        _ => s,
    }
}

/// The project screen's answer to a key, for a terminal `height` rows high.
pub open spec fn projects_step(s: SetupView, key: Key, height: u16) -> SetupView {
    let len = view_shown(s).len() as int;
    let rows = project_rows(height);
    let idx = s.project_idx as int;
    let scroll = s.project_scroll as int;
    if s.search_active {
        match key {
            Key::Esc => SetupView {
                search_active: false,
                search_text: seq![],
                project_idx: 0,
                project_scroll: 0,
                ..s
            },
            Key::Enter => SetupView { search_active: false, ..s },
            Key::Down => with_selection(s, moved_down(idx, scroll, len, rows)),
            Key::Up => with_selection(s, moved_up(idx, scroll)),
            _ => s,
        }
    } else {
        match key {
            Key::Down => with_selection(s, moved_down(idx, scroll, len, rows)),
            Key::Up => with_selection(s, moved_up(idx, scroll)),
            Key::Char(c) => if c == 'j' {
                with_selection(s, moved_down(idx, scroll, len, rows))
            } else if c == 'k' {
                with_selection(s, moved_up(idx, scroll))
            } else if c == 'g' {
                SetupView { project_idx: 0, project_scroll: 0, ..s }
            } else if c == 'G' {
                with_selection(s, moved_to_bottom(idx, scroll, len, rows))
            } else if c == ' ' || c == 'x' {
                if idx < len {
                    SetupView { projects: toggled(s.projects, s.projects[view_shown(s)[idx]].0@), ..s }
                } else {
                    s
                }
            } else if c == 'a' {
                SetupView { projects: all_toggled(s.projects), ..s }
            } else if c == '/' {
                SetupView { search_active: true, search_text: seq![], ..s }
            } else {
                s
            },
            Key::Enter => SetupView { trigger_save: true, ..s },
            Key::Esc => SetupView { step: SetupStep::Input, error_msg: seq![], ..s },
            _ => s,
        }
    }
}

/// The wizard's answer to a key event: releases change nothing; Ctrl+C quits
/// after a confirmation press; otherwise the screen shown decides. Every field
/// that the answer does not name keeps its value.
pub open spec fn key_step(s: SetupView, event: KeyInput, height: u16) -> SetupView {
    if event.release {
        s
    } else if event.key == Key::Char('c') && event.ctrl {
        quit_step(s, "Press again to quit"@)
    } else {
        match s.step {
            SetupStep::Input => input_step(s, event.key),
            SetupStep::Projects => projects_step(s, event.key, height),
            SetupStep::Done => if event.key == Key::Enter {
                SetupView { should_exit: true, ..s }
            } else {
                s
            },
            SetupStep::Connecting => s,
        }
    }
}

/// Enter in the project list, outside a search, only asks for the save: the
/// address, the token, the projects and their choices, and the screen all
/// stay, so the save that follows (`begin_save`) writes what was entered.
pub proof fn lemma_enter_requests_save_of_entries(s: SetupView, event: KeyInput, height: u16)
    requires
        s.step == SetupStep::Projects,
        !s.search_active,
        !event.release,
        event.key == Key::Enter,
    ensures
        key_step(s, event, height) == (SetupView { trigger_save: true, ..s }),
        key_step(s, event, height).org_url == s.org_url,
        key_step(s, event, height).pat == s.pat,
        key_step(s, event, height).projects == s.projects,
{
}

impl SetupState {
    /// The wizard's first screen, with the address field holding
    /// "https://dev.azure.com/".
    pub fn new() -> (r: Self)
        ensures
            r.step == SetupStep::Input,
            r.active_field == SetupField::Url,
            r.org_url@ == "https://dev.azure.com/"@,
            r.pat@.len() == 0,
            r.error_msg@.len() == 0,
            r.projects@.len() == 0,
            !r.should_exit && !r.quit_pending && !r.trigger_connect && !r.trigger_save && !r.search_active,
    {
        SetupState {
            step: SetupStep::Input,
            active_field: SetupField::Url,
            org_url: String::from_str("https://dev.azure.com/"),
            pat: String::new(),
            error_msg: String::new(),
            user_name: String::new(),
            projects: Vec::new(),
            project_idx: 0,
            project_scroll: 0,
            should_exit: false,
            quit_pending: false,
            trigger_connect: false,
            trigger_save: false,
            search_text: String::new(),
            search_active: false,
        }
    }

    /// The positions of the projects the search shows.
    pub fn shown(&self) -> (r: Vec<usize>)
        ensures
            r@.len() == shown_positions(*self).len(),
            forall|i: int| 0 <= i < r@.len() ==> r@[i] as int == #[trigger] shown_positions(*self)[i],
            forall|i: int| 0 <= i < r@.len() ==> #[trigger] r@[i] < self.projects@.len(),
    {
        proof {
            lemma_matching_positions_bounds(self.projects@, self.search_text@, self.projects@.len() as int);
        }
        let ghost all = shown_positions(*self);
        let lower = to_lowercase(self.search_text.as_str());
        let empty = self.search_text.as_str().unicode_len() == 0;
        let mut out: Vec<usize> = Vec::new();
        let mut i: usize = 0;
        while i < self.projects.len()
            invariant
                i <= self.projects@.len(),
                lower@ == lowercase(self.search_text@),
                empty == (self.search_text@.len() == 0),
                out@.len() == matching_positions(self.projects@, self.search_text@, i as int).len(),
                forall|k: int| 0 <= k < out@.len() ==> out@[k] as int == #[trigger] matching_positions(self.projects@, self.search_text@, i as int)[k],
            decreases self.projects@.len() - i,
        {
            let ghost before = matching_positions(self.projects@, self.search_text@, i as int);
            let keep = if empty {
                true
            } else {
                let name = to_lowercase(self.projects[i].0.as_str());
                contains_str(name.as_str(), lower.as_str())
            };
            if keep {
                out.push(i);
                assert(matching_positions(self.projects@, self.search_text@, i + 1) == before.push(i as int));
            }
            i = i + 1;
        }
        proof {
            assert forall|k: int| 0 <= k < out@.len() implies #[trigger] out@[k] < self.projects@.len() by {
                assert(out@[k] as int == all[k]);
            }
        }
        out
    }

    /// A key press. Releases do nothing. Ctrl+C quits after a confirmation
    /// press. On the first screen Enter connects once both fields are filled
    /// (or moves to the token field), Tab switches fields, Esc quits after a
    /// confirmation press. On the project screen the keys move, toggle,
    /// select all, search, save or go back; while searching, Esc clears the
    /// search, Enter ends it and the arrows move. On the last screen Enter exits.
    pub fn on_key(&mut self, event: KeyInput, height: u16)
        ensures
            final(self)@ == key_step(old(self)@, event, height),
    {
        if event.release {
            return;
        }
        if event.key == Key::Char('c') && event.ctrl {
            if self.quit_pending {
                self.should_exit = true;
            } else {
                self.quit_pending = true;
                self.error_msg = String::from_str("Press again to quit");
            }
            return;
        }
        match self.step {
            SetupStep::Input => {
                match event.key {
                    Key::Enter => {
                        if self.org_url.as_str().unicode_len() > 0 && self.pat.as_str().unicode_len() > 0 {
                            self.trigger_connect = true;
                        } else if self.active_field == SetupField::Url && self.org_url.as_str().unicode_len() > 0 {
                            self.active_field = SetupField::Pat;
                        }
                    },
                    Key::Tab | Key::BackTab => {
                        self.active_field = if self.active_field == SetupField::Url {
                            SetupField::Pat
                        } else {
                            SetupField::Url
                        };
                    },
                    Key::Esc => {
                        if self.quit_pending {
                            self.should_exit = true;
                        } else {
                            self.quit_pending = true;
                            self.error_msg = String::from_str("Press Esc again to quit");
                        }
                    },
                    _ => {},
                }
            },
            SetupStep::Projects => {
                let shown = self.shown();
                let len = shown.len();
                let rows: usize = if height > 12 {
                    (height - 12) as usize
                } else {
                    0
                };
                if self.search_active {
                    match event.key {
                        Key::Esc => {
                            self.search_active = false;
                            self.search_text = String::new();
                            self.project_idx = 0;
                            self.project_scroll = 0;
                        },
                        Key::Enter => {
                            self.search_active = false;
                        },
                        Key::Down => {
                            self.move_down(len, rows);
                        },
                        Key::Up => {
                            self.move_up();
                        },
                        _ => {},
                    }
                    return;
                }
                match event.key {
                    Key::Down | Key::Char('j') => {
                        self.move_down(len, rows);
                    },
                    Key::Up | Key::Char('k') => {
                        self.move_up();
                    },
                    Key::Char('g') => {
                        self.project_idx = 0;
                        self.project_scroll = 0;
                    },
                    Key::Char('G') => {
                        if len > 0 {
                            self.project_idx = len - 1;
                            if rows > 0 && len > rows {
                                self.project_scroll = len - rows;
                            }
                        }
                    },
                    Key::Char(' ') | Key::Char('x') => {
                        if self.project_idx < len {
                            let target = self.projects[shown[self.project_idx]].0.clone();
                            self.toggle_named(&target);
                        }
                    },
                    Key::Char('a') => {
                        self.toggle_all();
                    },
                    Key::Char('/') => {
                        self.search_active = true;
                        self.search_text = String::new();
                    },
                    Key::Enter => {
                        self.trigger_save = true;
                    },
                    Key::Esc => {
                        self.step = SetupStep::Input;
                        self.error_msg = String::new();
                    },
                    _ => {},
                }
            },
            SetupStep::Done => {
                if event.key == Key::Enter {
                    self.should_exit = true;
                }
            },
            SetupStep::Connecting => {},
        }
    }

    fn move_down(&mut self, len: usize, rows: usize)
        ensures
            final(self)@ == with_selection(
                old(self)@,
                moved_down(old(self).project_idx as int, old(self).project_scroll as int, len as int, rows as int),
            ),
    {
        if len > 0 {
            let new_idx = if self.project_idx < len - 1 {
                self.project_idx + 1
            } else {
                len - 1
            };
            self.project_idx = new_idx;
            if rows > 0 && new_idx >= self.project_scroll && new_idx - self.project_scroll >= rows {
                let back = rows - 1;
                self.project_scroll = if new_idx > back {
                    new_idx - back
                } else {
                    0
                };
            }
        }
    }

    fn move_up(&mut self)
        ensures
            final(self)@ == with_selection(
                old(self)@,
                moved_up(old(self).project_idx as int, old(self).project_scroll as int),
            ),
    {
        let new_idx = if self.project_idx > 0 {
            self.project_idx - 1
        } else {
            0
        };
        self.project_idx = new_idx;
        if new_idx < self.project_scroll {
            self.project_scroll = new_idx;
        }
    }

    fn toggle_named(&mut self, name: &String)
        ensures
            final(self)@ == (SetupView { projects: toggled(old(self).projects@, name@), ..old(self)@ }),
    {
        let mut i: usize = 0;
        while i < self.projects.len()
            invariant
                i <= self.projects@.len(),
                *self == *old(self),
                forall|j: int| 0 <= j < i ==> self.projects@[j].0@ != name@,
            decreases self.projects@.len() - i,
        {
            if self.projects[i].0 == *name {
                let ghost before = self.projects@;
                let flipped = !self.projects[i].1;
                let n = self.projects[i].0.clone();
                self.projects.set(i, (n, flipped));
                proof {
                    let k = choose|k: int| 0 <= k < before.len() && before[k].0@ == name@ && forall|j: int| 0 <= j < k ==> before[j].0@ != name@;
                    if k < i {
                    } else if k > i {
                        assert(before[i as int].0@ == name@);
                    }
                    assert(k == i);
                    assert(self.projects@ =~= before.update(i as int, (before[i as int].0, !before[i as int].1)));
                }
                return;
            }
            i = i + 1;
        }
    }

    fn toggle_all(&mut self)
        ensures
            final(self)@ == (SetupView { projects: all_toggled(old(self).projects@), ..old(self)@ }),
    {
        let mut any_unselected = false;
        let mut i: usize = 0;
        while i < self.projects.len()
            invariant
                i <= self.projects@.len(),
                any_unselected == exists|k: int| 0 <= k < i && !self.projects@[k].1,
                *self == *old(self),
            decreases self.projects@.len() - i,
        {
            if !self.projects[i].1 {
                any_unselected = true;
            }
            i = i + 1;
        }
        let ghost before = self.projects@;
        let mut j: usize = 0;
        while j < self.projects.len()
            invariant
                j <= self.projects@.len(),
                self.projects@.len() == before.len(),
                before == old(self).projects@,
                self@ == (SetupView { projects: self.projects@, ..old(self)@ }),
                any_unselected == exists|k: int| 0 <= k < before.len() && !before[k].1,
                forall|k: int| 0 <= k < j ==> #[trigger] self.projects@[k] == (before[k].0, any_unselected),
                forall|k: int| j <= k < before.len() ==> #[trigger] self.projects@[k] == before[k],
            decreases self.projects@.len() - j,
        {
            let n = self.projects[j].0.clone();
            self.projects.set(j, (n, any_unselected));
            j = j + 1;
        }
        assert(self.projects@ =~= all_toggled(before));
    }

    /// New text in the address field.
    pub fn set_org_url(&mut self, value: String)
        ensures
            final(self).org_url == value,
            final(self).pat == old(self).pat,
            final(self).step == old(self).step,
            final(self)@ == (SetupView { org_url: value@, ..old(self)@ }),
    {
        self.org_url = value;
    }

    /// New text in the token field.
    pub fn set_pat(&mut self, value: String)
        ensures
            final(self).pat == value,
            final(self).org_url == old(self).org_url,
            final(self).step == old(self).step,
            final(self)@ == (SetupView { pat: value@, ..old(self)@ }),
    {
        self.pat = value;
    }

    /// New search text: the selection goes back to the top.
    pub fn set_search(&mut self, value: String)
        ensures
            final(self).search_text == value,
            final(self).project_idx == 0,
            final(self).project_scroll == 0,
            final(self).projects == old(self).projects,
            final(self)@ == (SetupView { search_text: value@, project_idx: 0, project_scroll: 0, ..old(self)@ }),
    {
        self.search_text = value;
        self.project_idx = 0;
        self.project_scroll = 0;
    }

    /// The periodic reset: a pending quit lapses and its message goes.
    pub fn tick(&mut self)
        ensures
            !final(self).quit_pending,
            old(self).quit_pending ==> final(self).error_msg@.len() == 0,
            !old(self).quit_pending ==> final(self).error_msg == old(self).error_msg,
            final(self).step == old(self).step,
            final(self)@ == (SetupView {
                quit_pending: false,
                error_msg: if old(self).quit_pending { seq![] } else { old(self)@.error_msg },
                ..old(self)@
            }),
    {
        if self.quit_pending {
            self.quit_pending = false;
            self.error_msg = String::new();
        }
    }

    /// Starts connecting when asked to: the wizard shows the connecting screen
    /// and returns the address and token to try.
    pub fn begin_connect(&mut self) -> (r: Option<(String, String)>)
        ensures
            old(self).trigger_connect ==> (r matches Some((u, t)) && u == old(self).org_url && t == old(self).pat
                && final(self).step == SetupStep::Connecting && !final(self).trigger_connect
                && final(self).error_msg@.len() == 0),
            !old(self).trigger_connect ==> r is None && final(self).step == old(self).step,
            old(self).trigger_connect ==> final(self)@ == (SetupView {
                trigger_connect: false,
                step: SetupStep::Connecting,
                error_msg: seq![],
                ..old(self)@
            }),
            !old(self).trigger_connect ==> *final(self) == *old(self),
    {
        if self.trigger_connect {
            self.trigger_connect = false;
            self.step = SetupStep::Connecting;
            self.error_msg = String::new();
            Some((self.org_url.clone(), self.pat.clone()))
        } else {
            None
        }
    }

    /// The credentials were accepted for the user `name`; returns whether the
    /// wizard still waits for this connection (it may have been left).
    pub fn on_authenticated(&mut self, name: String) -> (r: bool)
        ensures
            r == (old(self).step == SetupStep::Connecting),
            r ==> final(self).user_name == name,
            r ==> final(self)@ == (SetupView { user_name: name@, ..old(self)@ }),
            !r ==> *final(self) == *old(self),
    {
        if self.step != SetupStep::Connecting {
            return false;
        }
        self.user_name = name;
        true
    }

    /// The credentials were refused.
    pub fn on_auth_failed(&mut self, message: &str)
        ensures
            old(self).step == SetupStep::Connecting ==> final(self).step == SetupStep::Input
                && final(self).error_msg@ == "Authentication failed: "@ + message@,
            old(self).step != SetupStep::Connecting ==> *final(self) == *old(self),
            old(self).step == SetupStep::Connecting ==> final(self)@ == (SetupView {
                step: SetupStep::Input,
                error_msg: "Authentication failed: "@ + message@,
                ..old(self)@
            }),
    {
        if self.step == SetupStep::Connecting {
            let mut m = String::from_str("Authentication failed: ");
            push_str(&mut m, message);
            self.error_msg = m;
            self.step = SetupStep::Input;
        }
    }

    /// The organization's projects were listed (or the listing failed).
    pub fn on_projects_listed(&mut self, result: Result<Vec<String>, String>)
        ensures
            old(self).step != SetupStep::Connecting ==> *final(self) == *old(self),
            old(self).step == SetupStep::Connecting ==> match result {
                Ok(names) => if names@.len() == 0 {
                    final(self).step == SetupStep::Input && final(self).error_msg@ == "No projects found. Check PAT permissions."@
                } else {
                    &&& final(self).step == SetupStep::Projects
                    &&& final(self).projects@.len() == names@.len()
                    &&& forall|i: int| 0 <= i < names@.len() ==> #[trigger] final(self).projects@[i] == (names@[i], false)
                    &&& final(self).project_idx == 0
                    &&& final(self).project_scroll == 0
                },
                Err(e) => final(self).step == SetupStep::Input && final(self).error_msg@ == "Failed to list projects: "@ + e@,
            },
            old(self).step == SetupStep::Connecting ==> final(self)@ == match result {
                Ok(names) => if names@.len() == 0 {
                    SetupView {
                        step: SetupStep::Input,
                        error_msg: "No projects found. Check PAT permissions."@,
                        ..old(self)@
                    }
                } else {
                    SetupView {
                        step: SetupStep::Projects,
                        projects: names@.map_values(|n: String| (n, false)),
                        project_idx: 0,
                        project_scroll: 0,
                        ..old(self)@
                    }
                },
                Err(e) => SetupView {
                    step: SetupStep::Input,
                    error_msg: "Failed to list projects: "@ + e@,
                    ..old(self)@
                },
            },
    {
        if self.step != SetupStep::Connecting {
            return;
        }
        match result {
            Ok(names) => {
                if names.len() == 0 {
                    self.error_msg = String::from_str("No projects found. Check PAT permissions.");
                    self.step = SetupStep::Input;
                } else {
                    let ghost all = names@;
                    let mut items: Vec<(String, bool)> = Vec::new();
                    let mut rest = names;
                    let mut i: usize = 0;
                    let _n = rest.len();
                    while rest.len() > 0
                        invariant
                            all.len() <= usize::MAX,
                            i + rest@.len() == all.len(),
                            rest@ == all.subrange(i as int, all.len() as int),
                            items@.len() == i,
                            forall|k: int| 0 <= k < i ==> #[trigger] items@[k] == (all[k], false),
                        decreases rest@.len(),
                    {
                        let n = rest.remove(0);
                        assert(n == all[i as int]);
                        items.push((n, false));
                        i = i + 1;
                        assert(rest@ =~= all.subrange(i as int, all.len() as int));
                    }
                    assert(items@ =~= all.map_values(|n: String| (n, false)));
                    self.projects = items;
                    self.project_idx = 0;
                    self.project_scroll = 0;
                    self.step = SetupStep::Projects;
                }
            },
            Err(e) => {
                let mut m = String::from_str("Failed to list projects: ");
                push_str(&mut m, e.as_str());
                self.error_msg = m;
                self.step = SetupStep::Input;
            },
        }
    }

    /// Starts saving when asked to: the token is stored under the provider
    /// name of the address, and the configuration names the selected projects.
    pub fn begin_save(&mut self) -> (r: Option<SavePlan>)
        ensures
            old(self).trigger_save ==> (r matches Some(p) && p.org_url == old(self).org_url && p.token == old(self).pat
                && p.provider_name@ == provider_name_text(old(self).org_url@)
                && p.selected@.map_values(|s: String| s@) == selected_names(old(self).projects@)
                && !final(self).trigger_save),
            !old(self).trigger_save ==> r is None,
            final(self).step == old(self).step,
            final(self).projects == old(self).projects,
            final(self)@ == (SetupView { trigger_save: false, ..old(self)@ }),
    {
        if !self.trigger_save {
            return None;
        }
        self.trigger_save = false;
        let ghost pred = |p: (String, bool)| p.1;
        let mut selected: Vec<String> = Vec::new();
        let mut i: usize = 0;
        while i < self.projects.len()
            invariant
                i <= self.projects@.len(),
                pred == (|p: (String, bool)| p.1),
                selected@.map_values(|s: String| s@) == self.projects@.subrange(0, i as int).filter(pred).map_values(|p: (String, bool)| p.0@),
            decreases self.projects@.len() - i,
        {
            let ghost old_f = self.projects@.subrange(0, i as int).filter(pred);
            proof {
                let pre = self.projects@.subrange(0, i + 1);
                assert(pre.drop_last() =~= self.projects@.subrange(0, i as int));
                assert(pre.last() == self.projects@[i as int]);
                reveal_with_fuel(Seq::<_>::filter, 1);
            }
            let ghost before = selected@;
            if self.projects[i].1 {
                selected.push(self.projects[i].0.clone());
                assert(self.projects@.subrange(0, i + 1).filter(pred) == old_f.push(self.projects@[i as int]));
                assert(selected@.map_values(|s: String| s@) =~= before.map_values(|s: String| s@).push(self.projects@[i as int].0@));
                assert(old_f.push(self.projects@[i as int]).map_values(|p: (String, bool)| p.0@) =~= old_f.map_values(|p: (String, bool)| p.0@).push(self.projects@[i as int].0@));
            }
            i = i + 1;
        }
        assert(self.projects@.subrange(0, self.projects@.len() as int) =~= self.projects@);
        let provider_name = provider_name_from_url(self.org_url.as_str());
        Some(SavePlan {
            org_url: self.org_url.clone(),
            token: self.pat.clone(),
            provider_name,
            selected,
        })
    }

    /// The outcome of a save.
    pub fn on_saved(&mut self, result: Result<(), SaveFailure>)
        ensures
            match result {
                Ok(()) => final(self).step == SetupStep::Done,
                Err(SaveFailure::Token(e)) => final(self).step == SetupStep::Projects
                    && final(self).error_msg@ == "Failed to store token: "@ + e@,
                Err(SaveFailure::Config(e)) => final(self).step == SetupStep::Projects
                    && final(self).error_msg@ == "Failed to save config: "@ + e@,
            },
            final(self)@ == match result {
                Ok(()) => SetupView { step: SetupStep::Done, ..old(self)@ },
                Err(SaveFailure::Token(e)) => SetupView {
                    step: SetupStep::Projects,
                    error_msg: "Failed to store token: "@ + e@,
                    ..old(self)@
                },
                Err(SaveFailure::Config(e)) => SetupView {
                    step: SetupStep::Projects,
                    error_msg: "Failed to save config: "@ + e@,
                    ..old(self)@
                },
            },
    {
        match result {
            Ok(()) => {
                self.step = SetupStep::Done;
            },
            Err(SaveFailure::Token(e)) => {
                let mut m = String::from_str("Failed to store token: ");
                push_str(&mut m, e.as_str());
                self.error_msg = m;
                self.step = SetupStep::Projects;
            },
            Err(SaveFailure::Config(e)) => {
                let mut m = String::from_str("Failed to save config: ");
                push_str(&mut m, e.as_str());
                self.error_msg = m;
                self.step = SetupStep::Projects;
            },
        }
    }
}


/// Select all: when some project is not selected, 'a' selects every project;
/// when all are selected, it deselects them all. The names and their order
/// stay. On the project list outside a search, the 'a' key does exactly this.
pub proof fn lemma_select_all(projects: Seq<(String, bool)>, s: SetupView, event: KeyInput, height: u16)
    ensures
        all_toggled(projects).len() == projects.len(),
        forall|j: int| 0 <= j < projects.len() ==> #[trigger] all_toggled(projects)[j].0 == projects[j].0,
        (exists|i: int| 0 <= i < projects.len() && !projects[i].1) ==> forall|j: int|
            0 <= j < projects.len() ==> #[trigger] all_toggled(projects)[j].1,
        (forall|i: int| 0 <= i < projects.len() ==> projects[i].1) ==> forall|j: int|
            0 <= j < projects.len() ==> !(#[trigger] all_toggled(projects)[j].1),
        s.step == SetupStep::Projects && !s.search_active && !event.release && !event.ctrl && event.key
            == Key::Char('a') ==> key_step(s, event, height).projects == all_toggled(s.projects),
{
}

} // verus!
