//! What the terminal program says and decides while it starts: reading a
//! token typed by the user, and the reasons it gives for sending the user to
//! the setup wizard.
use vstd::prelude::*;

use crate::text::{is_white, is_white_char, join_text, push_str};

verus! {

/// `s` without its leading whitespace.
pub open spec fn trim_start_white(s: Seq<char>) -> Seq<char>
    decreases s.len(),
{
    if s.len() > 0 && is_white(s[0]) {
        trim_start_white(s.drop_first())
    } else {
        s
    }
}

/// `s` without its trailing whitespace.
pub open spec fn trim_end_white(s: Seq<char>) -> Seq<char>
    decreases s.len(),
{
    if s.len() > 0 && is_white(s.last()) {
        trim_end_white(s.drop_last())
    } else {
        s
    }
}

/// `s` without whitespace at either end (`str::trim`).
pub open spec fn trim_white(s: Seq<char>) -> Seq<char> {
    trim_end_white(trim_start_white(s))
}

proof fn lemma_trim_start(s: Seq<char>, a: int)
    requires
        0 <= a <= s.len(),
        forall|k: int| 0 <= k < a ==> is_white(#[trigger] s[k]),
        a == s.len() || !is_white(s[a]),
    ensures
        trim_start_white(s) == s.subrange(a, s.len() as int),
    decreases a,
{
    if a == 0 {
        assert(s.subrange(0, s.len() as int) =~= s);
    } else {
        let t = s.drop_first();
        assert forall|k: int| 0 <= k < a - 1 implies is_white(#[trigger] t[k]) by {
            assert(t[k] == s[k + 1]);
        }
        lemma_trim_start(t, a - 1);
        assert(t.subrange(a - 1, t.len() as int) =~= s.subrange(a, s.len() as int));
    }
}

proof fn lemma_trim_end(s: Seq<char>, b: int)
    requires
        0 <= b <= s.len(),
        forall|k: int| b <= k < s.len() ==> is_white(#[trigger] s[k]),
        b == 0 || !is_white(s[b - 1]),
    ensures
        trim_end_white(s) == s.subrange(0, b),
    decreases s.len() - b,
{
    if b == s.len() {
        assert(s.subrange(0, b) =~= s);
    } else {
        let t = s.drop_last();
        lemma_trim_end(t, b);
        assert(t.subrange(0, b) =~= s.subrange(0, b));
    }
}

/// `s` without whitespace at either end.
pub fn trim_whitespace(s: &str) -> (r: String)
    ensures
        r@ == trim_white(s@),
{
    let v = crate::text::chars_of(s);
    let mut a: usize = 0;
    while a < v.len() && is_white_char(v[a])
        invariant
            a <= v@.len(),
            forall|k: int| 0 <= k < a ==> is_white(#[trigger] v@[k]),
        decreases v@.len() - a,
    {
        a = a + 1;
    }
    let mut b: usize = v.len();
    while b > a && is_white_char(v[b - 1])
        invariant
            a <= b <= v@.len(),
            forall|k: int| b <= k < v@.len() ==> is_white(#[trigger] v@[k]),
        decreases b,
    {
        b = b - 1;
    }
    proof {
        lemma_trim_start(v@, a as int);
        let t = v@.subrange(a as int, v@.len() as int);
        assert forall|k: int| b - a <= k < t.len() implies is_white(#[trigger] t[k]) by {
            assert(t[k] == v@[k + a]);
        }
        if b > a {
            assert(t[b - a - 1] == v@[b - 1]);
        }
        lemma_trim_end(t, b - a);
        assert(t.subrange(0, b - a) =~= v@.subrange(a as int, b as int));
    }
    let mut r = String::new();
    let mut i: usize = a;
    while i < b
        invariant
            a <= i <= b <= v@.len(),
            r@ == v@.subrange(a as int, i as int),
        decreases b - i,
    {
        crate::text::push_char(&mut r, v[i]);
        i = i + 1;
        assert(r@ =~= v@.subrange(a as int, i as int));
    }
    r
}

/// A token typed at the prompt: the line without surrounding whitespace, or
/// an error when nothing is left.
pub fn token_from_input(line: &str) -> (r: Result<String, String>)
    ensures
        trim_white(line@).len() > 0 <==> r is Ok,
        r matches Ok(t) ==> t@ == trim_white(line@),
        r matches Err(e) ==> e@ == "token cannot be empty"@,
{
    let t = trim_whitespace(line);
    if t.as_str().unicode_len() == 0 {
        Err(String::from_str("token cannot be empty"))
    } else {
        Ok(t)
    }
}

/// The error for a provider without a stored token, naming the command
/// that stores one.
pub open spec fn missing_token_text(name: Seq<char>) -> Seq<char> {
    "no token found for provider '"@ + name + "'. Run: ridgeline auth add "@ + name
}

pub fn missing_token_message(name: &str) -> (r: String)
    ensures
        r@ == missing_token_text(name@),
{
    let mut r = String::from_str("no token found for provider '");
    push_str(&mut r, name);
    push_str(&mut r, "'. Run: ridgeline auth add ");
    push_str(&mut r, name);
    r
}

/// Why the program needs setup when no token is stored for a provider.
pub open spec fn no_token_reason_text(name: Seq<char>) -> Seq<char> {
    "No token found for provider '"@ + name + "'"@
}

pub fn no_token_reason(name: &str) -> (r: String)
    ensures
        r@ == no_token_reason_text(name@),
{
    let mut r = String::from_str("No token found for provider '");
    push_str(&mut r, name);
    push_str(&mut r, "'");
    r
}

/// Why the program needs setup when the service refused the token.
pub open spec fn auth_failed_reason_text(name: Seq<char>, error: Seq<char>) -> Seq<char> {
    "Authentication failed for '"@ + name + "': "@ + error
}

pub fn auth_failed_reason(name: &str, error: &str) -> (r: String)
    ensures
        r@ == auth_failed_reason_text(name@, error@),
{
    let mut r = String::from_str("Authentication failed for '");
    push_str(&mut r, name);
    push_str(&mut r, "': ");
    push_str(&mut r, error);
    r
}

/// The warning for configured projects that the organization lacks; none
/// when every project was found.
pub open spec fn invalid_projects_warning_text(name: Seq<char>, invalid: Seq<Seq<char>>) -> Option<
    Seq<char>,
> {
    if invalid.len() == 0 {
        None
    } else {
        Some(
            "Warning: project(s) not found in '"@ + name + "': "@ + join_text(invalid, ", "@)
                + " (skipping)"@,
        )
    }
}

pub fn invalid_projects_warning(name: &str, invalid: &Vec<String>) -> (r: Option<String>)
    ensures
        r.is_some() == invalid_projects_warning_text(name@, invalid@.map_values(|s: String| s@)).is_some(),
        r matches Some(t) ==> invalid_projects_warning_text(name@, invalid@.map_values(|s: String| s@))
            == Some(t@),
{
    if invalid.len() == 0 {
        return None;
    }
    let mut r = String::from_str("Warning: project(s) not found in '");
    push_str(&mut r, name);
    push_str(&mut r, "': ");
    let joined = crate::setup::join_strings(invalid, invalid.len(), ", ");
    assert(invalid@.subrange(0, invalid@.len() as int) =~= invalid@);
    push_str(&mut r, joined.as_str());
    push_str(&mut r, " (skipping)");
    Some(r)
}

/// The line printed once a provider accepted the token.
pub open spec fn authenticated_text(user: Seq<char>, name: Seq<char>) -> Seq<char> {
    "Authenticated as '"@ + user + "' on '"@ + name + "'"@
}

pub fn authenticated_message(user: &str, name: &str) -> (r: String)
    ensures
        r@ == authenticated_text(user@, name@),
{
    let mut r = String::from_str("Authenticated as '");
    push_str(&mut r, user);
    push_str(&mut r, "' on '");
    push_str(&mut r, name);
    push_str(&mut r, "'");
    r
}


// ---------------------------------------------------------------------------
// Connecting the configured providers at start-up
// ---------------------------------------------------------------------------

/// What the program reports back while it connects the providers.
#[derive(Debug)]
pub enum InitEvent {
    /// Connecting begins.
    Start,
    /// No token is stored for the current provider.
    TokenMissing,
    /// The current provider's token was read.
    TokenFound,
    /// The service refused the token, with the error's text.
    AuthFailed(String),
    /// The service accepted the token for the user with this display name.
    Authenticated(String),
    /// The configured projects were checked: the ones the organization lacks,
    /// or `None` when the check itself failed.
    ProjectsChecked(Option<Vec<String>>),
}

/// What the program is to do next.
#[derive(Debug)]
pub enum InitCommand {
    ReadToken(usize),
    Authenticate(usize),
    Validate(usize),
    /// Stop and send the user to setup, for this reason.
    NeedsSetup(String),
    /// Every provider is connected.
    Done,
}

/// The provider being connected, and the user it accepted.
#[derive(Debug)]
pub struct InitState {
    pub index: usize,
    pub user: String,
}

/// One step: the next state, the lines to print, and the next command.
#[derive(Debug)]
pub struct InitStep {
    pub state: InitState,
    pub print: Vec<String>,
    pub command: InitCommand,
}

/// The lines printed once provider `name` is connected as `user`: the
/// warning for missing projects, if the check found any, then the greeting.
pub open spec fn connected_lines(name: Seq<char>, user: Seq<char>, checked: Option<Seq<Seq<char>>>) -> Seq<
    Seq<char>,
> {
    let warning = match checked {
        Some(invalid) => match invalid_projects_warning_text(name, invalid) {
            Some(w) => seq![w],
            None => seq![],
        },
        None => seq![],
    };
    warning.push(authenticated_text(user, name))
}

/// The command after provider `i` of `n` is connected.
pub open spec fn after_connected(i: int, n: int, command: InitCommand) -> bool {
    if i + 1 < n {
        command == InitCommand::ReadToken((i + 1) as usize)
    } else {
        command is Done
    }
}

fn finish(names: &Vec<String>, i: usize, user: &str, checked: Option<Vec<String>>) -> (r: InitStep)
    requires
        i < names@.len(),
    ensures
        r.state.index == i + 1,
        r.state.user@.len() == 0,
        r.print@.map_values(|s: String| s@) == connected_lines(
            names@[i as int]@,
            user@,
            match checked {
                Some(v) => Some(v@.map_values(|s: String| s@)),
                None => None,
            },
        ),
        after_connected(i as int, names@.len() as int, r.command),
{
    let name = names[i].as_str();
    let mut print: Vec<String> = Vec::new();
    match &checked {
        Some(invalid) => match invalid_projects_warning(name, invalid) {
            Some(w) => {
                print.push(w);
            },
            None => {},
        },
        None => {},
    }
    let ghost before = print@.map_values(|s: String| s@);
    print.push(authenticated_message(user, name));
    assert(print@.map_values(|s: String| s@) =~= before.push(authenticated_text(user@, names@[i as int]@)));
    let n = names.len();
    let command = if i < n - 1 {
        InitCommand::ReadToken(i + 1)
    } else {
        InitCommand::Done
    };
    let next: usize = i + 1;
    InitStep { state: InitState { index: next, user: String::new() }, print, command }
}

/// The start-up connection of the configured providers, as a state machine:
/// each provider in order has its token read, then is authenticated, then,
/// where it names projects, has them checked; a missing token or a refused
/// one stops everything and sends the user to setup. `names` are the
/// providers' names and `with_projects` whether each names projects.
pub fn init_step(names: &Vec<String>, with_projects: &Vec<bool>, state: &InitState, event: InitEvent) -> (r: InitStep)
    requires
        names@.len() == with_projects@.len(),
        event is Start || state.index < names@.len(),
    ensures
        match event {
            InitEvent::Start => r.state.index == 0 && r.state.user@.len() == 0 && r.print@.len() == 0
                && (if names@.len() == 0 { r.command is Done } else { r.command == InitCommand::ReadToken(0) }),
            InitEvent::TokenMissing => r.state == *state && r.print@.len() == 0
                && (r.command matches InitCommand::NeedsSetup(m) && m@ == no_token_reason_text(
                    names@[state.index as int]@,
                )),
            InitEvent::TokenFound => r.state == *state && r.print@.len() == 0
                && r.command == InitCommand::Authenticate(state.index),
            InitEvent::AuthFailed(e) => r.state == *state && r.print@.len() == 0
                && (r.command matches InitCommand::NeedsSetup(m) && m@ == auth_failed_reason_text(
                    names@[state.index as int]@,
                    e@,
                )),
            InitEvent::Authenticated(u) => if with_projects@[state.index as int] {
                r.state.index == state.index && r.state.user == u && r.print@.len() == 0
                    && r.command == InitCommand::Validate(state.index)
            } else {
                &&& r.state.index == state.index + 1
                &&& r.state.user@.len() == 0
                &&& r.print@.map_values(|s: String| s@) == connected_lines(names@[state.index as int]@, u@, None)
                &&& after_connected(state.index as int, names@.len() as int, r.command)
            },
            InitEvent::ProjectsChecked(checked) => {
                &&& r.state.index == state.index + 1
                &&& r.state.user@.len() == 0
                &&& r.print@.map_values(|s: String| s@) == connected_lines(
                    names@[state.index as int]@,
                    state.user@,
                    match checked {
                        Some(v) => Some(v@.map_values(|s: String| s@)),
                        None => None,
                    },
                )
                &&& after_connected(state.index as int, names@.len() as int, r.command)
            },
        },
{
    let same = InitState { index: state.index, user: state.user.clone() };
    match event {
        InitEvent::Start => {
            let command = if names.len() == 0 {
                InitCommand::Done
            } else {
                InitCommand::ReadToken(0)
            };
            InitStep { state: InitState { index: 0, user: String::new() }, print: Vec::new(), command }
        },
        InitEvent::TokenMissing => InitStep {
            state: same,
            print: Vec::new(),
            command: InitCommand::NeedsSetup(no_token_reason(names[state.index].as_str())),
        },
        InitEvent::TokenFound => InitStep {
            state: same,
            print: Vec::new(),
            command: InitCommand::Authenticate(state.index),
        },
        InitEvent::AuthFailed(e) => InitStep {
            state: same,
            print: Vec::new(),
            command: InitCommand::NeedsSetup(auth_failed_reason(names[state.index].as_str(), e.as_str())),
        },
        InitEvent::Authenticated(u) => {
            if with_projects[state.index] {
                InitStep {
                    state: InitState { index: state.index, user: u },
                    print: Vec::new(),
                    command: InitCommand::Validate(state.index),
                }
            } else {
                finish(names, state.index, u.as_str(), None)
            }
        },
        InitEvent::ProjectsChecked(checked) => finish(names, state.index, state.user.as_str(), checked),
    }
}

} // verus!
