use ridgeline::keys::{Key, KeyInput};
use ridgeline::setup::{
    names_preview, projects_header, provider_name_from_url, SaveFailure, SetupField, SetupState,
    SetupStep,
};

fn press(key: Key) -> KeyInput {
    KeyInput { key, ctrl: false, release: false }
}

fn wizard_at_projects(names: &[&str]) -> SetupState {
    let mut s = SetupState::new();
    s.set_org_url("https://dev.azure.com/Contoso".to_string());
    s.set_pat("secret".to_string());
    s.on_key(press(Key::Enter), 40);
    assert!(s.trigger_connect);
    let (url, pat) = s.begin_connect().unwrap();
    assert_eq!(url, "https://dev.azure.com/Contoso");
    assert_eq!(pat, "secret");
    assert_eq!(s.step, SetupStep::Connecting);
    assert!(s.on_authenticated("Ann".to_string()));
    s.on_projects_listed(Ok(names.iter().map(|n| n.to_string()).collect()));
    assert_eq!(s.step, SetupStep::Projects);
    s
}

#[test]
fn provider_name_is_the_last_path_segment_lower_cased() {
    assert_eq!(provider_name_from_url("https://dev.azure.com/Contoso"), "contoso");
    assert_eq!(provider_name_from_url("https://dev.azure.com/Contoso//"), "contoso");
    assert_eq!(provider_name_from_url("contoso"), "contoso");
    assert_eq!(provider_name_from_url("https://dev.azure.com/"), "dev.azure.com");
}

#[test]
fn first_screen_fields() {
    let mut s = SetupState::new();
    assert_eq!(s.org_url, "https://dev.azure.com/");
    assert_eq!(s.active_field, SetupField::Url);
    s.on_key(press(Key::Enter), 40);
    assert_eq!(s.active_field, SetupField::Pat);
    assert!(!s.trigger_connect);
    s.on_key(press(Key::Tab), 40);
    assert_eq!(s.active_field, SetupField::Url);
    assert!(s.begin_connect().is_none());
}

#[test]
fn escape_twice_quits() {
    let mut s = SetupState::new();
    s.on_key(press(Key::Esc), 40);
    assert!(s.quit_pending);
    assert_eq!(s.error_msg, "Press Esc again to quit");
    assert!(!s.should_exit);
    s.on_key(press(Key::Esc), 40);
    assert!(s.should_exit);
}

#[test]
fn pending_quit_lapses() {
    let mut s = SetupState::new();
    s.on_key(KeyInput { key: Key::Char('c'), ctrl: true, release: false }, 40);
    assert_eq!(s.error_msg, "Press again to quit");
    s.tick();
    assert!(!s.quit_pending);
    assert_eq!(s.error_msg, "");
}

#[test]
fn authentication_failure_returns_to_input() {
    let mut s = SetupState::new();
    s.set_pat("x".to_string());
    s.on_key(press(Key::Enter), 40);
    s.begin_connect();
    s.on_auth_failed("HTTP 401");
    assert_eq!(s.step, SetupStep::Input);
    assert_eq!(s.error_msg, "Authentication failed: HTTP 401");
    // A late answer after leaving the connecting screen changes nothing.
    assert!(!s.on_authenticated("late".to_string()));
}

#[test]
fn empty_or_failed_project_listing() {
    let mut s = SetupState::new();
    s.set_pat("x".to_string());
    s.on_key(press(Key::Enter), 40);
    s.begin_connect();
    s.on_projects_listed(Ok(vec![]));
    assert_eq!(s.step, SetupStep::Input);
    assert_eq!(s.error_msg, "No projects found. Check PAT permissions.");
    s.on_key(press(Key::Enter), 40);
    s.begin_connect();
    s.on_projects_listed(Err("timeout".to_string()));
    assert_eq!(s.error_msg, "Failed to list projects: timeout");
}

#[test]
fn choosing_projects_and_saving() {
    let mut s = wizard_at_projects(&["Alpha", "Beta", "Gamma"]);
    assert_eq!(s.projects.len(), 3);
    assert!(s.projects.iter().all(|p| !p.1));
    s.on_key(press(Key::Char(' ')), 40);
    s.on_key(press(Key::Char('j')), 40);
    s.on_key(press(Key::Char('j')), 40);
    s.on_key(press(Key::Char('x')), 40);
    assert_eq!(s.project_idx, 2);
    assert!(s.projects[0].1 && !s.projects[1].1 && s.projects[2].1);
    s.on_key(press(Key::Enter), 40);
    let plan = s.begin_save().unwrap();
    assert_eq!(plan.provider_name, "contoso");
    assert_eq!(plan.org_url, "https://dev.azure.com/Contoso");
    assert_eq!(plan.token, "secret");
    assert_eq!(plan.selected, vec!["Alpha".to_string(), "Gamma".to_string()]);
    s.on_saved(Err(SaveFailure::Config("disk full".to_string())));
    assert_eq!(s.step, SetupStep::Projects);
    assert_eq!(s.error_msg, "Failed to save config: disk full");
    s.on_saved(Ok(()));
    assert_eq!(s.step, SetupStep::Done);
    s.on_key(press(Key::Enter), 40);
    assert!(s.should_exit);
}

#[test]
fn select_all_toggles_everything() {
    let mut s = wizard_at_projects(&["A", "B"]);
    s.on_key(press(Key::Char('a')), 40);
    assert!(s.projects.iter().all(|p| p.1));
    s.on_key(press(Key::Char('a')), 40);
    assert!(s.projects.iter().all(|p| !p.1));
}

#[test]
fn search_narrows_the_list() {
    let mut s = wizard_at_projects(&["Shop", "Ops", "Shipping"]);
    s.on_key(press(Key::Char('/')), 40);
    assert!(s.search_active);
    s.set_search("SH".to_string());
    assert_eq!(s.shown(), vec![0, 2]);
    s.on_key(press(Key::Down), 40);
    assert_eq!(s.project_idx, 1);
    s.on_key(press(Key::Enter), 40);
    assert!(!s.search_active);
    s.on_key(press(Key::Char(' ')), 40);
    assert!(s.projects[2].1);
    s.on_key(press(Key::Char('/')), 40);
    s.on_key(press(Key::Esc), 40);
    assert_eq!(s.search_text, "");
    assert_eq!(s.shown(), vec![0, 1, 2]);
}

#[test]
fn long_lists_scroll() {
    let names: Vec<String> = (0..20).map(|i| format!("P{i}")).collect();
    let refs: Vec<&str> = names.iter().map(|s| s.as_str()).collect();
    let mut s = wizard_at_projects(&refs);
    // Height 16 leaves four rows.
    for _ in 0..5 {
        s.on_key(press(Key::Down), 16);
    }
    assert_eq!(s.project_idx, 5);
    assert_eq!(s.project_scroll, 2);
    s.on_key(press(Key::Char('G')), 16);
    assert_eq!((s.project_idx, s.project_scroll), (19, 16));
    s.on_key(press(Key::Char('g')), 16);
    assert_eq!((s.project_idx, s.project_scroll), (0, 0));
}

#[test]
fn summary_texts() {
    assert_eq!(names_preview(&vec![]), "None — showing only PRs you're assigned to");
    assert_eq!(names_preview(&vec!["A".to_string(), "B".to_string()]), "A, B");
    let six: Vec<String> = ["A", "B", "C", "D", "E", "F"].iter().map(|s| s.to_string()).collect();
    assert_eq!(names_preview(&six), "A, B, C, D, ... and 2 more");
    assert_eq!(projects_header(1, 10, 4), "Monitor extra projects (1 of 10 selected, 4 shown)");
}

#[test]
fn escape_on_projects_goes_back() {
    let mut s = wizard_at_projects(&["A"]);
    s.on_key(press(Key::Esc), 40);
    assert_eq!(s.step, SetupStep::Input);
    assert_eq!(s.error_msg, "");
}

#[test]
fn enter_in_the_project_list_keeps_what_was_entered() {
    let mut s = wizard_at_projects(&["Alpha", "Beta"]);
    s.on_key(press(Key::Char(' ')), 40);
    s.on_key(press(Key::Enter), 40);
    assert!(s.trigger_save);
    assert_eq!(s.step, SetupStep::Projects);
    assert_eq!(s.org_url, "https://dev.azure.com/Contoso");
    assert_eq!(s.pat, "secret");
    assert_eq!(s.projects, vec![("Alpha".to_string(), true), ("Beta".to_string(), false)]);
    let plan = s.begin_save().unwrap();
    assert_eq!(plan.selected, vec!["Alpha".to_string()]);
    assert!(!s.trigger_save);
    assert_eq!(s.projects.len(), 2);
}
