//! The configuration model, its defaults, and where its files live.
use vstd::prelude::*;

use crate::text::{push_str, push_char};

verus! {

/// The whole configuration file.
#[derive(Debug)]
pub struct Config {
    pub general: GeneralConfig,
    pub providers: Vec<ProviderConfig>,
}

/// Settings that apply to every provider.
#[derive(Debug)]
pub struct GeneralConfig {
    pub refresh_interval_secs: u64,
    pub stale_threshold_hours: u64,
    pub notifications_enabled: bool,
    pub notifications: NotificationConfig,
    pub provider_indicator: ProviderIndicator,
    pub age_warning_hours: u64,
    pub age_danger_hours: u64,
    pub show_project_name: bool,
    pub parse_conventional_commits: bool,
    pub tabs: Vec<TabConfig>,
}

/// How a pull request row shows which provider it comes from.
#[derive(Debug, Clone, Copy, PartialEq, Eq, Structural)]
pub enum ProviderIndicator {
    Off,
    Border,
    Badge,
}

impl Default for ProviderIndicator {
    fn default() -> (r: Self)
        ensures
            r == ProviderIndicator::Border,
    {
        ProviderIndicator::Border
    }
}

/// Which kinds of change are announced by a desktop notification.
#[derive(Debug, Clone, Copy, PartialEq, Eq, Structural)]
pub struct NotificationConfig {
    pub new_pr: bool,
    pub vote_changed: bool,
    pub waiting_for_author: bool,
    pub build_failed: bool,
    pub completed: bool,
}

impl Default for NotificationConfig {
    fn default() -> (r: Self)
        ensures
            r.new_pr && r.vote_changed && r.waiting_for_author && r.build_failed && r.completed,
    {
        NotificationConfig {
            new_pr: true,
            vote_changed: true,
            waiting_for_author: true,
            build_failed: true,
            completed: true,
        }
    }
}

/// Seconds between two polls when the file does not say.
pub fn default_refresh_interval() -> (r: u64)
    ensures
        r == 60,
{
    60
}

/// Age in hours from which a pull request counts as stale when the file does not say.
pub fn default_stale_threshold() -> (r: u64)
    ensures
        r == 48,
{
    48
}

/// Age in hours from which the age is shown as a warning.
pub fn default_warning_hours() -> (r: u64)
    ensures
        r == 48,
{
    48
}

/// Age in hours from which the age is shown as a danger.
pub fn default_danger_hours() -> (r: u64)
    ensures
        r == 144,
{
    144
}

/// The default of the switches that are on unless the file says otherwise.
pub fn default_true() -> (r: bool)
    ensures
        r,
{
    true
}

/// Where a tab takes its pull requests from.
#[derive(Debug, Clone, Copy, PartialEq, Eq, Structural)]
pub enum TabSource {
    Reviewing,
    Authored,
    All,
}

impl Default for TabSource {
    fn default() -> (r: Self)
        ensures
            r == TabSource::Reviewing,
    {
        TabSource::Reviewing
    }
}

/// How a tab lays out its rows.
#[derive(Debug, Clone, Copy, PartialEq, Eq, Structural)]
pub enum TabDisplay {
    Reviewing,
    Authored,
}

impl Default for TabDisplay {
    fn default() -> (r: Self)
        ensures
            r == TabDisplay::Reviewing,
    {
        TabDisplay::Reviewing
    }
}

/// Extra conditions a tab puts on its pull requests; `None` imposes nothing.
#[derive(Debug)]
pub struct TabFilter {
    pub max_reviewers: Option<u32>,
    pub hide_drafts: Option<bool>,
    pub branch_prefix: Option<String>,
    pub cc_type: Option<String>,
}

impl TabFilter {
    pub open spec fn is_empty(self) -> bool {
        self.max_reviewers is None && self.hide_drafts is None && self.branch_prefix is None
            && self.cc_type is None
    }
}

impl Default for TabFilter {
    fn default() -> (r: Self)
        ensures
            r.is_empty(),
    {
        TabFilter { max_reviewers: None, hide_drafts: None, branch_prefix: None, cc_type: None }
    }
}

/// One tab of the dashboard.
#[derive(Debug)]
pub struct TabConfig {
    pub label: String,
    pub source: TabSource,
    pub display: TabDisplay,
    pub enabled: bool,
    pub filter: TabFilter,
}

/// The tabs a fresh configuration has: "Reviewing" and "Authored", enabled
/// and unfiltered, and "Up for grabs" (every pull request without voters,
/// drafts hidden), disabled.
pub open spec fn default_tabs_spec(tabs: Seq<TabConfig>) -> bool {
    &&& tabs.len() == 3
    &&& tabs[0].label@ == "Reviewing"@
    &&& tabs[0].source == TabSource::Reviewing
    &&& tabs[0].display == TabDisplay::Reviewing
    &&& tabs[0].enabled
    &&& tabs[0].filter.is_empty()
    &&& tabs[1].label@ == "Authored"@
    &&& tabs[1].source == TabSource::Authored
    &&& tabs[1].display == TabDisplay::Authored
    &&& tabs[1].enabled
    &&& tabs[1].filter.is_empty()
    &&& tabs[2].label@ == "Up for grabs"@
    &&& tabs[2].source == TabSource::All
    &&& tabs[2].display == TabDisplay::Reviewing
    &&& !tabs[2].enabled
    &&& tabs[2].filter.max_reviewers == Some(0u32)
    &&& tabs[2].filter.hide_drafts == Some(true)
    &&& tabs[2].filter.branch_prefix is None
    &&& tabs[2].filter.cc_type is None
}

/// The tabs of a fresh configuration.
pub fn default_tabs() -> (r: Vec<TabConfig>)
    ensures
        default_tabs_spec(r@),
{
    let mut tabs: Vec<TabConfig> = Vec::new();
    tabs.push(
        TabConfig {
            label: String::from_str("Reviewing"),
            source: TabSource::Reviewing,
            display: TabDisplay::Reviewing,
            enabled: true,
            filter: TabFilter::default(),
        },
    );
    tabs.push(
        TabConfig {
            label: String::from_str("Authored"),
            source: TabSource::Authored,
            display: TabDisplay::Authored,
            enabled: true,
            filter: TabFilter::default(),
        },
    );
    tabs.push(
        TabConfig {
            label: String::from_str("Up for grabs"),
            source: TabSource::All,
            display: TabDisplay::Reviewing,
            enabled: false,
            filter: TabFilter {
                max_reviewers: Some(0),
                hide_drafts: Some(true),
                branch_prefix: None,
                cc_type: None,
            },
        },
    );
    tabs
}

impl GeneralConfig {
    /// The settings of a fresh configuration.
    pub open spec fn is_default(self) -> bool {
        &&& self.refresh_interval_secs == 60
        &&& self.stale_threshold_hours == 48
        &&& self.notifications_enabled
        &&& self.notifications == NotificationConfig {
            new_pr: true,
            vote_changed: true,
            waiting_for_author: true,
            build_failed: true,
            completed: true,
        }
        &&& self.provider_indicator == ProviderIndicator::Border
        &&& self.age_warning_hours == 48
        &&& self.age_danger_hours == 144
        &&& self.show_project_name
        &&& !self.parse_conventional_commits
        &&& default_tabs_spec(self.tabs@)
    }
}

impl Default for GeneralConfig {
    fn default() -> (r: Self)
        ensures
            r.is_default(),
    {
        GeneralConfig {
            refresh_interval_secs: default_refresh_interval(),
            stale_threshold_hours: default_stale_threshold(),
            notifications_enabled: true,
            notifications: NotificationConfig::default(),
            provider_indicator: ProviderIndicator::default(),
            age_warning_hours: default_warning_hours(),
            age_danger_hours: default_danger_hours(),
            show_project_name: true,
            parse_conventional_commits: false,
            tabs: default_tabs(),
        }
    }
}

impl Config {
    /// The configuration used when there is no file: default settings, no providers.
    pub fn empty() -> (r: Self)
        ensures
            r.general.is_default(),
            r.providers@.len() == 0,
    {
        Config { general: GeneralConfig::default(), providers: Vec::new() }
    }
}

/// One configured provider.
#[derive(Debug)]
pub enum ProviderConfig {
    AzureDevOps(AzureDevOpsConfig),
}

/// An Azure DevOps organization.
#[derive(Debug)]
pub struct AzureDevOpsConfig {
    pub name: String,
    pub url: String,
    pub color: Option<String>,
    pub projects: Vec<ProjectFilter>,
}

/// A project whose pull requests are watched beyond the user's own; with
/// repositories named, only those.
#[derive(Debug)]
pub struct ProjectFilter {
    pub name: String,
    pub repos: Vec<String>,
}

impl Clone for ProjectFilter {
    fn clone(&self) -> (r: Self)
        ensures
            r.name == self.name,
            r.repos@ == self.repos@,
    {
        ProjectFilter { name: self.name.clone(), repos: crate::model::clone_strings(&self.repos) }
    }
}

// ---------------------------------------------------------------------------
// Where the files live
// ---------------------------------------------------------------------------

/// Why a path could not be made.
#[derive(Debug, Clone, Copy, PartialEq, Eq, Structural)]
pub enum ConfigError {
    /// The platform reports no configuration directory.
    NoConfigDir,
}

impl ConfigError {
    pub open spec fn message_text(self) -> Seq<char> {
        "could not determine config directory"@
    }

    /// The error's message.
    pub fn message(&self) -> (r: String)
        ensures
            r@ == self.message_text(),
    {
        String::from_str("could not determine config directory")
    }
}

/// `dirs::config_dir`: the user's configuration directory, as text. It comes
/// from the environment and the platform, so nothing is promised of it. A
/// directory whose path is not valid UTF-8 cannot be held as text and counts
/// as none, rather than as some other path.
#[verifier::external_body]
pub(crate) fn platform_config_dir() -> (r: Option<String>) {
    dirs::config_dir().and_then(|p| p.into_os_string().into_string().ok())
}

/// `base` followed by the relative path `part`, with one separator between them.
pub open spec fn join_path_text(base: Seq<char>, part: Seq<char>) -> Seq<char> {
    if base.len() == 0 || base.last() == '/' {
        base + part
    } else {
        base + "/"@ + part
    }
}

/// Appends the relative path `part` to `base`.
pub fn join_path(base: &str, part: &str) -> (r: String)
    ensures
        r@ == join_path_text(base@, part@),
{
    let mut r = String::from_str(base);
    let n = base.unicode_len();
    if n == 0 || base.get_char(n - 1) == '/' {
        push_str(&mut r, part);
    } else {
        push_char(&mut r, '/');
        push_str(&mut r, part);
        proof {
            reveal_strlit("/");
            assert("/"@ =~= seq!['/']);
        }
    }
    r
}

/// The program's own directory inside the configuration directory `base`.
pub open spec fn app_dir_text(base: Seq<char>) -> Seq<char> {
    join_path_text(base, "ridgeline"@)
}

/// The configuration file below the configuration directory `base`.
pub open spec fn config_file_text(base: Seq<char>) -> Seq<char> {
    join_path_text(app_dir_text(base), "config.toml"@)
}

/// The file holding the token of provider `name` below `base`.
pub open spec fn token_file_text(base: Seq<char>, name: Seq<char>) -> Seq<char> {
    join_path_text(app_dir_text(base), ".token_"@ + name)
}

/// The file holding the change tracker's memory below `base`.
pub open spec fn tracker_state_file_text(base: Seq<char>) -> Seq<char> {
    join_path_text(app_dir_text(base), ".tracker_state.json"@)
}

/// The program's directory below the configuration directory `base`.
pub fn app_dir_in(base: &str) -> (r: String)
    ensures
        r@ == app_dir_text(base@),
{
    join_path(base, "ridgeline")
}

/// The configuration file below the configuration directory `base`.
pub fn config_path_in(base: &str) -> (r: String)
    ensures
        r@ == config_file_text(base@),
{
    let dir = app_dir_in(base);
    join_path(dir.as_str(), "config.toml")
}

/// The token file of provider `name` below the configuration directory `base`.
pub fn token_file_path_in(base: &str, name: &str) -> (r: String)
    ensures
        r@ == token_file_text(base@, name@),
{
    let dir = app_dir_in(base);
    let mut file = String::from_str(".token_");
    push_str(&mut file, name);
    join_path(dir.as_str(), file.as_str())
}

/// The tracker's state file below the configuration directory `base`.
pub fn tracker_state_path_in(base: &str) -> (r: String)
    ensures
        r@ == tracker_state_file_text(base@),
{
    let dir = app_dir_in(base);
    join_path(dir.as_str(), ".tracker_state.json")
}

/// The program's directory inside the user's configuration directory.
pub fn config_dir() -> (r: Result<String, ConfigError>)
    ensures
        match r {
            Ok(p) => exists|base: Seq<char>| p@ == app_dir_text(base),
            Err(e) => e == ConfigError::NoConfigDir,
        },
{
    match platform_config_dir() {
        Some(base) => Ok(app_dir_in(base.as_str())),
        None => Err(ConfigError::NoConfigDir),
    }
}

/// The configuration file inside the user's configuration directory.
pub fn config_path() -> (r: Result<String, ConfigError>)
    ensures
        match r {
            Ok(p) => exists|base: Seq<char>| p@ == config_file_text(base),
            Err(e) => e == ConfigError::NoConfigDir,
        },
{
    match platform_config_dir() {
        Some(base) => Ok(config_path_in(base.as_str())),
        None => Err(ConfigError::NoConfigDir),
    }
}

/// The token file of a provider inside the user's configuration directory.
pub fn token_file_path(provider_name: &str) -> (r: Result<String, ConfigError>)
    ensures
        match r {
            Ok(p) => exists|base: Seq<char>| p@ == token_file_text(base, provider_name@),
            Err(e) => e == ConfigError::NoConfigDir,
        },
{
    match platform_config_dir() {
        Some(base) => Ok(token_file_path_in(base.as_str(), provider_name)),
        None => Err(ConfigError::NoConfigDir),
    }
}

/// The tracker's state file inside the user's configuration directory, if
/// the platform has one.
pub fn tracker_state_path() -> (r: Option<String>)
    ensures
        match r {
            Some(p) => exists|base: Seq<char>| p@ == tracker_state_file_text(base),
            None => true,
        },
{
    match platform_config_dir() {
        Some(base) => Some(tracker_state_path_in(base.as_str())),
        None => None,
    }
}

// ---------------------------------------------------------------------------
// The file written by the terminal setup wizard
// ---------------------------------------------------------------------------

pub open spec fn project_block_text(name: Seq<char>) -> Seq<char> {
    "  [[providers.projects]]\n"@ + "  name = \""@ + name + "\"\n"@ + "  repos = []\n\n"@
}

pub open spec fn project_blocks_text(projects: Seq<Seq<char>>) -> Seq<char>
    decreases projects.len(),
{
    if projects.len() == 0 {
        seq![]
    } else {
        project_blocks_text(projects.drop_last()) + project_block_text(projects.last())
    }
}

/// The configuration file that setup writes for one Azure DevOps organization
/// and the projects chosen to watch.
pub open spec fn setup_config_text(
    org_url: Seq<char>,
    provider_name: Seq<char>,
    projects: Seq<Seq<char>>,
) -> Seq<char> {
    "[general]\n"@ + "refresh_interval_secs = 60\n"@ + "stale_threshold_hours = 48\n"@
        + "notifications_enabled = true\n\n"@ + "[[providers]]\n"@ + "type = \"azure-devops\"\n"@
        + "name = \""@ + provider_name + "\"\n"@ + "url = \""@ + org_url + "\"\n\n"@
        + project_blocks_text(projects)
}

/// The text of the configuration file that setup writes.
pub fn setup_config_content(org_url: &str, provider_name: &str, projects: &Vec<String>) -> (r: String)
    ensures
        r@ == setup_config_text(org_url@, provider_name@, projects@.map_values(|s: String| s@)),
{
    let mut content = String::new();
    push_str(&mut content, "[general]\n");
    push_str(&mut content, "refresh_interval_secs = 60\n");
    push_str(&mut content, "stale_threshold_hours = 48\n");
    push_str(&mut content, "notifications_enabled = true\n\n");
    push_str(&mut content, "[[providers]]\n");
    push_str(&mut content, "type = \"azure-devops\"\n");
    push_str(&mut content, "name = \"");
    push_str(&mut content, provider_name);
    push_str(&mut content, "\"\n");
    push_str(&mut content, "url = \"");
    push_str(&mut content, org_url);
    push_str(&mut content, "\"\n\n");
    let ghost head = content@;
    let ghost names = projects@.map_values(|s: String| s@);
    let mut i: usize = 0;
    while i < projects.len()
        invariant
            i <= projects@.len(),
            names == projects@.map_values(|s: String| s@),
            content@ == head + project_blocks_text(names.subrange(0, i as int)),
        decreases projects@.len() - i,
    {
        let ghost before = content@;
        push_str(&mut content, "  [[providers.projects]]\n");
        push_str(&mut content, "  name = \"");
        push_str(&mut content, projects[i].as_str());
        push_str(&mut content, "\"\n");
        push_str(&mut content, "  repos = []\n\n");
        proof {
            let ns = names.subrange(0, i + 1);
            assert(ns.drop_last() =~= names.subrange(0, i as int));
            assert(ns.last() == projects@[i as int]@);
            assert(content@ =~= before + project_block_text(projects@[i as int]@));
        }
        i = i + 1;
    }
    assert(names.subrange(0, names.len() as int) =~= names);
    content
}

} // verus!
