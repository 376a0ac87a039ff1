use ridgeline::dashboard::{apply_filters, ActiveTab, ActiveView, AppState, EnrichedPr};
use ridgeline::keys::{keybinding_help, map_key, Action, Key, KeyInput};
use ridgeline::model::{DiffStats, PrId, PrStatus, PullRequest, Repository, Reviewer, User, Vote};
use ridgeline::navigation::{NavContext, Navigation};
use ridgeline::theme::{TermColor, Theme};
use ridgeline::time::{is_stale_at, relative_time_at, Timestamp};
use ridgeline::views::{
    active_votes, age_color, authored_tab_label, branch_line, description_text, detail_header,
    error_text, provider_filter_text, refresh_text, reviewer_line, reviewing_tab_label, row_id,
    row_selector, row_title, spinner_frame, status_color, visible_end, vote_text, votes_count_text,
    votes_display,
};

fn press(key: Key) -> KeyInput {
    KeyInput { key, ctrl: false, release: false }
}

fn user(name: &str) -> User {
    User { id: name.to_lowercase(), display_name: name.to_string(), unique_name: None }
}

fn reviewer(name: &str, vote: Vote, required: bool) -> Reviewer {
    Reviewer { user: user(name), vote, is_required: required }
}

fn pr(provider: &str, number: u64, title: &str, author: &str) -> PullRequest {
    PullRequest {
        id: PrId {
            provider: provider.to_string(),
            project: "Shop".to_string(),
            repository: "web".to_string(),
            number,
        },
        title: title.to_string(),
        description: None,
        status: PrStatus::Active,
        is_draft: false,
        created_at: Timestamp { secs: 1_000_000, nanos: 0 },
        author: user(author),
        source_branch: "feature/login".to_string(),
        target_branch: "main".to_string(),
        reviewers: vec![],
        repository: Repository { name: "web".to_string(), project: "Shop".to_string() },
        labels: vec![],
        merge_status: None,
        build_status: None,
        source_commit_id: None,
        web_url: String::new(),
    }
}

fn at(secs: i64) -> Timestamp {
    Timestamp { secs, nanos: 0 }
}

fn ctx(len: usize, height: u16) -> NavContext {
    NavContext { filtered_len: len, height, provider_count: 2, current_len: len }
}

#[test]
fn compact_ages() {
    let t0 = at(1_000_000);
    assert_eq!(relative_time_at(&t0, &at(1_000_030)), "now");
    assert_eq!(relative_time_at(&t0, &at(1_000_000 + 5 * 60)), "5m");
    assert_eq!(relative_time_at(&t0, &at(1_000_000 + 3 * 3600)), "3h");
    assert_eq!(relative_time_at(&t0, &at(1_000_000 + 2 * 86400)), "2d");
    assert_eq!(relative_time_at(&t0, &at(1_000_000 + 15 * 86400)), "2w");
    assert_eq!(relative_time_at(&t0, &at(1_000_000 + 400 * 86400)), "1y");
    // A creation time in the future reads as now.
    assert_eq!(relative_time_at(&at(1_000_000), &at(999_000)), "now");
}

#[test]
fn staleness_threshold_in_hours() {
    let t0 = at(0);
    assert!(!is_stale_at(&t0, &at(47 * 3600 + 3599), 48));
    assert!(is_stale_at(&t0, &at(48 * 3600), 48));
    assert!(is_stale_at(&t0, &at(0), 0));
}

#[test]
fn key_bindings() {
    assert_eq!(map_key(&press(Key::Char('j')), false), Action::MoveDown);
    assert_eq!(map_key(&press(Key::Down), false), Action::MoveDown);
    assert_eq!(map_key(&press(Key::Char('k')), false), Action::MoveUp);
    assert_eq!(map_key(&press(Key::Char('g')), false), Action::JumpTop);
    assert_eq!(map_key(&press(Key::Char('G')), false), Action::JumpBottom);
    assert_eq!(map_key(&press(Key::Enter), false), Action::OpenDetail);
    assert_eq!(map_key(&press(Key::Char('o')), false), Action::OpenBrowser);
    assert_eq!(map_key(&press(Key::Tab), false), Action::SwitchTab);
    assert_eq!(map_key(&press(Key::Char('/')), false), Action::FocusSearch);
    assert_eq!(map_key(&press(Key::Char('r')), false), Action::ForceRefresh);
    assert_eq!(map_key(&press(Key::Char('1')), false), Action::ProviderFilter(0));
    assert_eq!(map_key(&press(Key::Char('9')), false), Action::ProviderFilter(8));
    assert_eq!(map_key(&press(Key::Char('0')), false), Action::ClearProviderFilter);
    assert_eq!(map_key(&press(Key::Char('?')), false), Action::ToggleHelp);
    assert_eq!(map_key(&press(Key::Char('q')), false), Action::Quit);
    assert_eq!(map_key(&press(Key::Esc), false), Action::Back);
    assert_eq!(map_key(&press(Key::Char('x')), false), Action::NoAction);
    let ctrl_c = KeyInput { key: Key::Char('c'), ctrl: true, release: false };
    assert_eq!(map_key(&ctrl_c, true), Action::Quit);
    let release = KeyInput { key: Key::Char('q'), ctrl: false, release: true };
    assert_eq!(map_key(&release, false), Action::NoAction);
    // While searching only Esc and Enter act.
    assert_eq!(map_key(&press(Key::Char('q')), true), Action::NoAction);
    assert_eq!(map_key(&press(Key::Esc), true), Action::Back);
    assert_eq!(map_key(&press(Key::Enter), true), Action::Back);
}

#[test]
fn help_lists_thirteen_bindings() {
    let help = keybinding_help();
    assert_eq!(help.len(), 13);
    assert_eq!(help[0], ("j/↓", "Move down"));
    assert_eq!(help[5], ("Tab", "Switch Reviewing/My PRs"));
    assert_eq!(help[12], ("Esc", "Back / clear filter"));
}

#[test]
fn navigation_moves_and_scrolls() {
    let mut nav = Navigation::new();
    // Height 10 leaves four rows.
    for _ in 0..5 {
        nav.apply(Action::MoveDown, ctx(10, 10));
    }
    assert_eq!(nav.selected_index, 5);
    assert_eq!(nav.scroll_offset, 2);
    nav.apply(Action::JumpBottom, ctx(10, 10));
    assert_eq!(nav.selected_index, 9);
    assert_eq!(nav.scroll_offset, 6);
    nav.apply(Action::JumpTop, ctx(10, 10));
    assert_eq!((nav.selected_index, nav.scroll_offset), (0, 0));
    nav.apply(Action::MoveUp, ctx(10, 10));
    assert_eq!(nav.selected_index, 0);
    nav.apply(Action::MoveDown, ctx(0, 10));
    assert_eq!(nav.selected_index, 0);
}

#[test]
fn switching_tab_twice_returns_to_the_first_tab() {
    let mut nav = Navigation::new();
    nav.apply(Action::MoveDown, ctx(3, 20));
    nav.apply(Action::SwitchTab, ctx(3, 20));
    assert_eq!(nav.active_tab, ActiveTab::Authored);
    assert_eq!(nav.selected_index, 0);
    nav.apply(Action::SwitchTab, ctx(3, 20));
    assert_eq!(nav.active_tab, ActiveTab::Reviewing);
}

#[test]
fn quitting_needs_a_second_press() {
    let mut nav = Navigation::new();
    nav.apply(Action::Quit, ctx(0, 20));
    assert!(!nav.should_exit);
    assert!(nav.quit_pending);
    assert_eq!(nav.toast_message, "Press again to quit");
    nav.apply(Action::Quit, ctx(0, 20));
    assert!(nav.should_exit);
}

#[test]
fn pending_quit_lapses_on_tick() {
    let mut nav = Navigation::new();
    nav.apply(Action::Quit, ctx(0, 20));
    nav.tick();
    assert!(!nav.quit_pending);
    nav.apply(Action::Quit, ctx(0, 20));
    assert!(!nav.should_exit);
}

#[test]
fn back_closes_one_layer_at_a_time() {
    let mut nav = Navigation::new();
    nav.apply(Action::OpenDetail, ctx(2, 20));
    assert_eq!(nav.active_view, ActiveView::Detail(0));
    nav.apply(Action::ToggleHelp, ctx(2, 20));
    nav.apply(Action::FocusSearch, ctx(2, 20));
    nav.apply(Action::Back, ctx(2, 20));
    assert!(!nav.filter_active);
    assert!(nav.show_help);
    nav.apply(Action::Back, ctx(2, 20));
    assert!(!nav.show_help);
    nav.apply(Action::Back, ctx(2, 20));
    assert_eq!(nav.active_view, ActiveView::Dashboard);
}

#[test]
fn provider_filter_and_browser_target() {
    let mut nav = Navigation::new();
    nav.apply(Action::ProviderFilter(1), ctx(3, 20));
    assert_eq!(nav.provider_filter, Some(1));
    nav.apply(Action::ProviderFilter(5), ctx(3, 20));
    assert_eq!(nav.provider_filter, Some(1));
    nav.apply(Action::ClearProviderFilter, ctx(3, 20));
    assert_eq!(nav.provider_filter, None);
    nav.apply(Action::MoveDown, ctx(3, 20));
    assert_eq!(nav.apply(Action::OpenBrowser, ctx(3, 20)), Some(1));
    assert_eq!(nav.apply(Action::OpenBrowser, ctx(1, 20)), None);
    nav.apply(Action::ForceRefresh, ctx(3, 20));
    assert!(nav.force_refresh);
    assert_eq!(nav.toast_message, "Refreshing...");
}

#[test]
fn enriched_rows() {
    let mut p = pr("contoso", 7, "Fix", "jane doe");
    p.reviewers = vec![reviewer("John Smith", Vote::Approved, true), reviewer("ann", Vote::Rejected, false)];
    let e = EnrichedPr::from_pr_at(p, 48, &at(1_000_000 + 50 * 3600));
    assert_eq!(e.age_display, "2d");
    assert!(e.is_stale);
    assert_eq!(e.vote_summary, "✓JS ✗A");
    assert_eq!(e.source_display, "contoso/Shop/web");
}

#[test]
fn search_and_provider_filters() {
    let now = at(1_000_000);
    let prs = vec![
        EnrichedPr::from_pr_at(pr("contoso", 1, "Add Login", "Jane"), 48, &now),
        EnrichedPr::from_pr_at(pr("fabrikam", 22, "Fix build", "Bob"), 48, &now),
        EnrichedPr::from_pr_at(pr("contoso", 3, "Docs", "Ann"), 48, &now),
    ];
    let numbers = |v: Vec<&EnrichedPr>| v.iter().map(|e| e.pr.id.number).collect::<Vec<u64>>();
    assert_eq!(numbers(apply_filters(&prs, "", None)), vec![1, 22, 3]);
    assert_eq!(numbers(apply_filters(&prs, "ADD", None)), vec![1]);
    // Every row's source branch is "feature/login".
    assert_eq!(numbers(apply_filters(&prs, "LOGIN", None)), vec![1, 22, 3]);
    assert_eq!(numbers(apply_filters(&prs, "bob", None)), vec![22]);
    assert_eq!(numbers(apply_filters(&prs, "22", None)), vec![22]);
    assert_eq!(numbers(apply_filters(&prs, "feature", None)), vec![1, 22, 3]);
    assert_eq!(numbers(apply_filters(&prs, "", Some("contoso"))), vec![1, 3]);
    assert_eq!(numbers(apply_filters(&prs, "", Some(""))), vec![1, 22, 3]);
    assert_eq!(numbers(apply_filters(&prs, "docs", Some("fabrikam"))), Vec::<u64>::new());
}

#[test]
fn dashboard_state_selection() {
    let now = at(1_000_000);
    let mut app = AppState::new(vec!["contoso".to_string(), "fabrikam".to_string()]);
    assert!(app.loading);
    assert_eq!(app.active_tab, ActiveTab::Reviewing);
    app.reviewing = vec![
        EnrichedPr::from_pr_at(pr("contoso", 1, "A", "Jane"), 48, &now),
        EnrichedPr::from_pr_at(pr("fabrikam", 2, "B", "Bob"), 48, &now),
    ];
    app.selected_index = 5;
    app.clamp_selection();
    assert_eq!(app.selected_index, 1);
    app.provider_filter = Some(1);
    assert_eq!(app.filtered_list().len(), 1);
    app.clamp_selection();
    assert_eq!(app.selected_index, 0);
    app.active_tab = ActiveTab::Authored;
    assert!(app.current_list().is_empty());
    app.show_toast("hello".to_string());
    assert_eq!(app.toast_message.as_ref().map(|t| t.0.as_str()), Some("hello"));
}

#[test]
fn status_bar_and_tab_texts() {
    assert_eq!(spinner_frame(0), "⠋");
    assert_eq!(spinner_frame(13), "⠸");
    assert_eq!(refresh_text(true, 1, "x"), "⠙ refreshing...");
    assert_eq!(refresh_text(false, 0, ""), "never refreshed");
    assert_eq!(refresh_text(false, 0, "12:00:00"), "refreshed 12:00:00");
    assert_eq!(provider_filter_text(""), "");
    assert_eq!(provider_filter_text("contoso"), " │ filter: contoso");
    assert_eq!(error_text(0, "x"), "");
    assert_eq!(error_text(2, "boom"), " │ 2 error(s): boom");
    assert_eq!(reviewing_tab_label(3), " Reviewing (3) ");
    assert_eq!(authored_tab_label(0), " My PRs (0) ");
}

#[test]
fn row_and_detail_texts() {
    let mut p = pr("contoso", 42, "Add login", "Jane");
    assert_eq!(row_selector(true), "▸ ");
    assert_eq!(row_selector(false), "  ");
    assert_eq!(row_title(&p), "Add login");
    p.is_draft = true;
    assert_eq!(row_title(&p), "Add login [draft]");
    assert_eq!(row_id(&p), "#42");
    assert_eq!(detail_header(&p), "#42 Add login");
    assert_eq!(branch_line(&p), "feature/login → main");
    assert_eq!(description_text(&p), "No description provided.");
    p.description = Some("Body".to_string());
    assert_eq!(description_text(&p), "Body");
    assert_eq!(vote_text(&Vote::ApprovedWithSuggestions), "Approved with suggestions");
    assert_eq!(reviewer_line(&reviewer("Ann Lee", Vote::Approved, true)), "  ✓ Ann Lee - Approved (required)");
    assert_eq!(reviewer_line(&reviewer("Bob", Vote::NoVote, false)), "  · Bob - No vote");
    assert_eq!(visible_end(2, 5, 4), 4);
    assert_eq!(visible_end(2, 1, 4), 3);
    assert_eq!(DiffStats { files_changed: 3, additions: 10, deletions: 2 }.summary(), "+10/-2");
    assert_eq!(p.id.to_display_string(), "contoso/Shop/web/#42");
    assert_eq!(PrStatus::Abandoned.label(), "Abandoned");
}

#[test]
fn vote_badges_and_colors() {
    let theme = Theme::dark();
    assert_eq!(theme, Theme::default());
    assert_eq!(theme.vote_color(&Vote::Approved), TermColor::Green);
    assert_eq!(theme.vote_color(&Vote::WaitingForAuthor), TermColor::Yellow);
    assert_eq!(theme.vote_color(&Vote::Rejected), TermColor::Red);
    assert_eq!(status_color(&theme, PrStatus::Active), TermColor::Green);
    assert_eq!(status_color(&theme, PrStatus::Completed), TermColor::Cyan);
    assert_eq!(age_color(&theme, true), TermColor::Yellow);
    assert_eq!(age_color(&theme, false), TermColor::Grey);
    let reviewers = vec![
        reviewer("john smith", Vote::Approved, false),
        reviewer("Nobody", Vote::NoVote, false),
        reviewer("Mary Ann Lee", Vote::WaitingForAuthor, false),
    ];
    assert_eq!(active_votes(&reviewers), 2);
    assert_eq!(votes_count_text(&reviewers), "●2");
    assert_eq!(votes_count_text(&vec![]), "");
    let shown = votes_display(&reviewers, &theme);
    assert_eq!(shown, vec![("✓JS".to_string(), TermColor::Green), ("⏳MA".to_string(), TermColor::Yellow)]);
    assert_eq!(Vote::Rejected.initials_display(&user("zoe")), "✗Z");
    assert_eq!(Vote::NoVote.symbol(), "·");
}

#[test]
fn clamping_changes_only_the_selection() {
    let now = at(1_000_000);
    let mut app = AppState::new(vec!["contoso".to_string()]);
    app.reviewing = vec![EnrichedPr::from_pr_at(pr("contoso", 1, "A", "Jane"), 48, &now)];
    app.selected_index = 3;
    app.active_view = ActiveView::Help;
    app.filter_active = true;
    app.loading = false;
    app.errors = vec!["boom".to_string()];
    app.clamp_selection();
    assert_eq!(app.selected_index, 0);
    assert_eq!(app.active_view, ActiveView::Help);
    assert!(app.filter_active);
    assert!(!app.loading);
    assert_eq!(app.errors, vec!["boom".to_string()]);
}

#[test]
fn toast_changes_only_the_toast() {
    let mut app = AppState::new(vec![]);
    app.active_tab = ActiveTab::Authored;
    app.filter_text = "abc".to_string();
    app.show_toast("saved".to_string());
    assert_eq!(app.active_tab, ActiveTab::Authored);
    assert_eq!(app.filter_text, "abc");
    assert!(app.toast_message.is_some());
}
