//! Keys of the terminal dashboard and the actions they trigger.
use vstd::prelude::*;

verus! {

/// A key, as far as the dashboard tells keys apart.
#[derive(Debug, Clone, Copy, PartialEq, Eq, Structural)]
pub enum Key {
    Char(char),
    Up,
    Down,
    Enter,
    Tab,
    BackTab,
    Esc,
    Other,
}

/// One key event.
#[derive(Debug, Clone, Copy, PartialEq, Eq, Structural)]
pub struct KeyInput {
    pub key: Key,
    /// The Control modifier was held.
    pub ctrl: bool,
    /// The event is a key release.
    pub release: bool,
}

/// Actions that keys trigger.
#[derive(Debug, Clone, Copy, PartialEq, Eq, Structural)]
pub enum Action {
    MoveUp,
    MoveDown,
    JumpTop,
    JumpBottom,
    OpenDetail,
    OpenBrowser,
    SwitchTab,
    FocusSearch,
    ForceRefresh,
    ProviderFilter(usize),
    ClearProviderFilter,
    ToggleHelp,
    Quit,
    Back,
    NoAction,
}

/// The action of a key. Releases do nothing; Ctrl+C always quits; while the
/// search field has focus only Esc and Enter act (both leave the field);
/// digits 1-9 select a provider filter and 0 clears it.
pub open spec fn action_of(event: KeyInput, filter_active: bool) -> Action {
    if event.release {
        Action::NoAction
    } else if event.key == Key::Char('c') && event.ctrl {
        Action::Quit
    } else if filter_active {
        match event.key {
            Key::Esc => Action::Back,
            Key::Enter => Action::Back,
            _ => Action::NoAction,
        }
    } else {
        match event.key {
            Key::Char(c) => if c == 'q' {
                Action::Quit
            } else if c == 'j' {
                Action::MoveDown
            } else if c == 'k' {
                Action::MoveUp
            } else if c == 'g' {
                Action::JumpTop
            } else if c == 'G' {
                Action::JumpBottom
            } else if c == 'o' {
                Action::OpenBrowser
            } else if c == '/' {
                Action::FocusSearch
            } else if c == 'r' {
                Action::ForceRefresh
            } else if c == '?' {
                Action::ToggleHelp
            } else if '0' <= c && c <= '9' {
                if c == '0' {
                    Action::ClearProviderFilter
                } else {
                    Action::ProviderFilter(((c as u32) - 49) as usize)
                }
            } else {
                Action::NoAction
            },
            Key::Down => Action::MoveDown,
            Key::Up => Action::MoveUp,
            Key::Enter => Action::OpenDetail,
            Key::Tab => Action::SwitchTab,
            Key::Esc => Action::Back,
            _ => Action::NoAction,
        }
    }
}

/// The action of a key event.
pub fn map_key(event: &KeyInput, filter_active: bool) -> (r: Action)
    ensures
        r == action_of(*event, filter_active),
{
    if event.release {
        return Action::NoAction;
    }
    if event.key == Key::Char('c') && event.ctrl {
        return Action::Quit;
    }
    if filter_active {
        return match event.key {
            Key::Esc => Action::Back,
            Key::Enter => Action::Back,
            _ => Action::NoAction,
        };
    }
    match event.key {
        Key::Char(c) => {
            if c == 'q' {
                Action::Quit
            } else if c == 'j' {
                Action::MoveDown
            } else if c == 'k' {
                Action::MoveUp
            } else if c == 'g' {
                Action::JumpTop
            } else if c == 'G' {
                Action::JumpBottom
            } else if c == 'o' {
                Action::OpenBrowser
            } else if c == '/' {
                Action::FocusSearch
            } else if c == 'r' {
                Action::ForceRefresh
            } else if c == '?' {
                Action::ToggleHelp
            } else if '0' <= c && c <= '9' {
                if c == '0' {
                    Action::ClearProviderFilter
                } else {
                    let n: u32 = (c as u32) - 48;
                    Action::ProviderFilter((n - 1) as usize)
                }
            } else {
                Action::NoAction
            }
        },
        Key::Down => Action::MoveDown,
        Key::Up => Action::MoveUp,
        Key::Enter => Action::OpenDetail,
        Key::Tab => Action::SwitchTab,
        Key::Esc => Action::Back,
        _ => Action::NoAction,
    }
}

/// The key bindings listed by the help overlay, in order.
pub open spec fn help_entries() -> Seq<(Seq<char>, Seq<char>)> {
    seq![
        ("j/↓"@, "Move down"@),
        ("k/↑"@, "Move up"@),
        ("g/G"@, "Jump to top/bottom"@),
        ("Enter"@, "Open PR detail"@),
        ("o"@, "Open in browser"@),
        ("Tab"@, "Switch Reviewing/My PRs"@),
        ("/"@, "Search filter"@),
        ("r"@, "Force refresh"@),
        ("1-9"@, "Filter by provider"@),
        ("0"@, "Clear provider filter"@),
        ("?"@, "Toggle help"@),
        ("q"@, "Quit"@),
        ("Esc"@, "Back / clear filter"@),
    ]
}

/// The key bindings for the help overlay.
pub fn keybinding_help() -> (r: Vec<(&'static str, &'static str)>)
    ensures
        r@.map_values(|e: (&'static str, &'static str)| (e.0@, e.1@)) == help_entries(),
{
    let mut v: Vec<(&'static str, &'static str)> = Vec::new();
    v.push(("j/↓", "Move down"));
    v.push(("k/↑", "Move up"));
    v.push(("g/G", "Jump to top/bottom"));
    v.push(("Enter", "Open PR detail"));
    v.push(("o", "Open in browser"));
    v.push(("Tab", "Switch Reviewing/My PRs"));
    v.push(("/", "Search filter"));
    v.push(("r", "Force refresh"));
    v.push(("1-9", "Filter by provider"));
    v.push(("0", "Clear provider filter"));
    v.push(("?", "Toggle help"));
    v.push(("q", "Quit"));
    v.push(("Esc", "Back / clear filter"));
    assert(v@.map_values(|e: (&'static str, &'static str)| (e.0@, e.1@)) =~= help_entries());
    v
}


/// The arrows and the vi letters agree: outside the search field, a pressed
/// Up arrow moves up as 'k' does and a pressed Down arrow moves down as 'j'
/// does, with or without Ctrl.
pub proof fn lemma_arrows_match_letters(ctrl: bool)
    ensures
        action_of(KeyInput { key: Key::Up, ctrl, release: false }, false) == Action::MoveUp,
        action_of(KeyInput { key: Key::Char('k'), ctrl, release: false }, false) == Action::MoveUp,
        action_of(KeyInput { key: Key::Down, ctrl, release: false }, false) == Action::MoveDown,
        action_of(KeyInput { key: Key::Char('j'), ctrl, release: false }, false) == Action::MoveDown,
        action_of(KeyInput { key: Key::Up, ctrl, release: false }, false) != action_of(
            KeyInput { key: Key::Down, ctrl, release: false },
            false,
        ),
{
}

/// What holds of every key event: a release does nothing; Ctrl+C quits
/// whether or not the search field has focus; while it has focus, Esc and
/// Enter leave it and every other key is left to the field; Esc goes back in
/// either mode.
pub proof fn lemma_key_contexts(event: KeyInput, filter_active: bool)
    ensures
        event.release ==> action_of(event, filter_active) == Action::NoAction,
        !event.release && event.ctrl && event.key == Key::Char('c') ==> action_of(event, filter_active)
            == Action::Quit,
        !event.release && filter_active && !(event.ctrl && event.key == Key::Char('c')) ==> (action_of(
            event,
            true,
        ) == if event.key == Key::Esc || event.key == Key::Enter {
            Action::Back
        } else {
            Action::NoAction
        }),
        !event.release && event.key == Key::Esc ==> action_of(event, filter_active) == Action::Back,
{
}

} // verus!
