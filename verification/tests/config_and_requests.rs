use ridgeline::client::{
    connection_data_path, policy_evaluations_path, projects_path, pull_request_path,
    pull_requests_by_project_path, pull_requests_by_repo_path, pull_requests_org_path,
    sort_project_names, threads_path, AzureDevOpsClient,
};
use ridgeline::config::{
    app_dir_in, config_path_in, default_danger_hours, default_refresh_interval,
    default_stale_threshold, default_tabs, default_true, default_warning_hours, join_path,
    setup_config_content, token_file_path_in, tracker_state_path_in, Config, GeneralConfig,
    NotificationConfig, ProviderIndicator, TabDisplay, TabSource,
};
use ridgeline::fetch::{
    classify_status, parse_failure, ProviderError, RequestOutcome, Retrier, RetryDecision,
    StatusClass,
};

#[test]
fn default_settings() {
    assert_eq!(default_refresh_interval(), 60);
    assert_eq!(default_stale_threshold(), 48);
    assert_eq!(default_warning_hours(), 48);
    assert_eq!(default_danger_hours(), 144);
    assert!(default_true());
    let g = GeneralConfig::default();
    assert_eq!(g.refresh_interval_secs, 60);
    assert_eq!(g.stale_threshold_hours, 48);
    assert!(g.notifications_enabled);
    assert_eq!(g.provider_indicator, ProviderIndicator::Border);
    assert_eq!(g.age_warning_hours, 48);
    assert_eq!(g.age_danger_hours, 144);
    assert!(g.show_project_name);
    assert!(!g.parse_conventional_commits);
    assert_eq!(g.tabs.len(), 3);
    let n = NotificationConfig::default();
    assert!(n.new_pr && n.vote_changed && n.waiting_for_author && n.build_failed && n.completed);
    let c = Config::empty();
    assert!(c.providers.is_empty());
}

#[test]
fn default_tab_set() {
    let tabs = default_tabs();
    assert_eq!(tabs[0].label, "Reviewing");
    assert_eq!(tabs[0].source, TabSource::Reviewing);
    assert_eq!(tabs[0].display, TabDisplay::Reviewing);
    assert!(tabs[0].enabled);
    assert_eq!(tabs[1].label, "Authored");
    assert_eq!(tabs[1].source, TabSource::Authored);
    assert_eq!(tabs[1].display, TabDisplay::Authored);
    assert_eq!(tabs[2].label, "Up for grabs");
    assert_eq!(tabs[2].source, TabSource::All);
    assert!(!tabs[2].enabled);
    assert_eq!(tabs[2].filter.max_reviewers, Some(0));
    assert_eq!(tabs[2].filter.hide_drafts, Some(true));
}

#[test]
fn paths_below_the_config_directory() {
    assert_eq!(join_path("/home/a/.config", "x"), "/home/a/.config/x");
    assert_eq!(join_path("/home/a/.config/", "x"), "/home/a/.config/x");
    assert_eq!(join_path("", "x"), "x");
    assert_eq!(app_dir_in("/c"), "/c/ridgeline");
    assert_eq!(config_path_in("/c"), "/c/ridgeline/config.toml");
    assert_eq!(token_file_path_in("/c", "contoso"), "/c/ridgeline/.token_contoso");
    assert_eq!(tracker_state_path_in("/c"), "/c/ridgeline/.tracker_state.json");
}

#[test]
fn setup_writes_the_configuration_file() {
    let text = setup_config_content(
        "https://dev.azure.com/contoso",
        "contoso",
        &vec!["Shop".to_string(), "Ops".to_string()],
    );
    let expected = "[general]\nrefresh_interval_secs = 60\nstale_threshold_hours = 48\nnotifications_enabled = true\n\n[[providers]]\ntype = \"azure-devops\"\nname = \"contoso\"\nurl = \"https://dev.azure.com/contoso\"\n\n  [[providers.projects]]\n  name = \"Shop\"\n  repos = []\n\n  [[providers.projects]]\n  name = \"Ops\"\n  repos = []\n\n";
    assert_eq!(text, expected);
}

#[test]
fn client_trims_base_url_and_encodes_token() {
    let c = AzureDevOpsClient::new("https://dev.azure.com/contoso/", "abc");
    assert_eq!(c.base_url(), "https://dev.azure.com/contoso");
    assert_eq!(c.auth_header(), "Basic OmFiYw==");
    assert_eq!(c.url_for("/_apis/x"), "https://dev.azure.com/contoso/_apis/x");
    let d = AzureDevOpsClient::new("https://x//", "ab");
    assert_eq!(d.base_url(), "https://x");
    assert_eq!(d.auth_header(), "Basic OmFi");
    let e = AzureDevOpsClient::new("https://x", "");
    assert_eq!(e.auth_header(), "Basic Og==");
}

#[test]
fn request_paths() {
    assert_eq!(connection_data_path(), "/_apis/connectionData?api-version=7.1-preview");
    assert_eq!(
        pull_requests_org_path(Some("me"), None),
        "/_apis/git/pullrequests?searchCriteria.status=active&$top=200&api-version=7.1-preview&searchCriteria.reviewerId=me"
    );
    assert_eq!(
        pull_requests_org_path(None, Some("me")),
        "/_apis/git/pullrequests?searchCriteria.status=active&$top=200&api-version=7.1-preview&searchCriteria.creatorId=me"
    );
    assert_eq!(
        pull_requests_by_project_path("Shop", None, None),
        "/Shop/_apis/git/pullrequests?searchCriteria.status=active&$top=100&api-version=7.1-preview"
    );
    assert_eq!(
        pull_requests_by_repo_path("Shop", "web", Some("r"), Some("c")),
        "/Shop/_apis/git/repositories/web/pullrequests?searchCriteria.status=active&$top=100&api-version=7.1-preview&searchCriteria.reviewerId=r&searchCriteria.creatorId=c"
    );
    assert_eq!(
        projects_path(),
        "/_apis/projects?api-version=7.1-preview&$top=1000&stateFilter=wellFormed"
    );
    assert_eq!(
        pull_request_path("Shop", "web", 7),
        "/Shop/_apis/git/repositories/web/pullrequests/7?api-version=7.1-preview"
    );
    assert_eq!(
        policy_evaluations_path("Shop", 7),
        "/Shop/_apis/policy/evaluations?artifactId=vstfs:///CodeReview/CodeReviewId/Shop/7&api-version=7.1-preview"
    );
    assert_eq!(
        threads_path("Shop", "r1", 7),
        "/Shop/_apis/git/repositories/r1/pullrequests/7/threads?api-version=7.1-preview"
    );
}

#[test]
fn project_names_sort_without_case() {
    let sorted = sort_project_names(vec![
        "beta".to_string(),
        "Alpha".to_string(),
        "gamma".to_string(),
        "alpha".to_string(),
        "Beta".to_string(),
    ]);
    assert_eq!(
        sorted,
        vec![
            "Alpha".to_string(),
            "alpha".to_string(),
            "beta".to_string(),
            "Beta".to_string(),
            "gamma".to_string()
        ]
    );
}

#[test]
fn status_classes() {
    assert_eq!(classify_status(200), StatusClass::Success);
    assert_eq!(classify_status(204), StatusClass::Success);
    assert_eq!(classify_status(401), StatusClass::AuthFailure);
    assert_eq!(classify_status(403), StatusClass::AuthFailure);
    assert_eq!(classify_status(500), StatusClass::ServerError);
    assert_eq!(classify_status(503), StatusClass::ServerError);
    assert_eq!(classify_status(404), StatusClass::ClientError);
    assert_eq!(classify_status(302), StatusClass::ClientError);
}

#[test]
fn error_messages() {
    assert_eq!(ProviderError::Http { message: "timeout".to_string() }.message(), "HTTP request failed: timeout");
    assert_eq!(
        ProviderError::Auth { provider: "c".to_string(), message: "HTTP 401".to_string() }.message(),
        "authentication failed for provider 'c': HTTP 401"
    );
    assert_eq!(
        ProviderError::Api { provider: "c".to_string(), status: 404, message: "nope".to_string() }.message(),
        "API error from c: 404 nope"
    );
    assert_eq!(ProviderError::Deserialize("bad".to_string()).message(), "deserialization error: bad");
    assert_eq!(ProviderError::Other("plain".to_string()).message(), "plain");
    match parse_failure("https://x", "eof") {
        ProviderError::Deserialize(m) => assert_eq!(m, "failed to parse response from https://x: eof"),
        other => panic!("unexpected {other:?}"),
    }
}

fn server_error() -> RequestOutcome {
    RequestOutcome::Responded { code: 503, status_text: "503 Service Unavailable".to_string(), body: "busy".to_string() }
}

#[test]
fn retries_back_off_then_give_up() {
    let mut r = Retrier::new();
    assert_eq!(r.attempt(), 0);
    let mut delays = vec![];
    for _ in 0..3 {
        match r.on_outcome("c", server_error()) {
            RetryDecision::Retry { delay_ms } => delays.push(delay_ms),
            other => panic!("unexpected {other:?}"),
        }
    }
    assert_eq!(delays, vec![500, 1000, 2000]);
    assert_eq!(r.attempt(), 3);
    match r.on_outcome("c", server_error()) {
        RetryDecision::Fail(ProviderError::Api { provider, status, message }) => {
            assert_eq!(provider, "c");
            assert_eq!(status, 503);
            assert_eq!(message, "busy");
        },
        other => panic!("unexpected {other:?}"),
    }
}

#[test]
fn transport_failures_are_retried() {
    let mut r = Retrier::new();
    for expected in [500u64, 1000, 2000] {
        match r.on_outcome("c", RequestOutcome::SendFailed { message: "reset".to_string() }) {
            RetryDecision::Retry { delay_ms } => assert_eq!(delay_ms, expected),
            other => panic!("unexpected {other:?}"),
        }
    }
    match r.on_outcome("c", RequestOutcome::SendFailed { message: "refused".to_string() }) {
        RetryDecision::Fail(ProviderError::Http { message }) => assert_eq!(message, "refused"),
        other => panic!("unexpected {other:?}"),
    }
}

#[test]
fn refused_credentials_and_client_errors_end_at_once() {
    let mut r = Retrier::new();
    let out = r.on_outcome(
        "contoso",
        RequestOutcome::Responded { code: 401, status_text: "401 Unauthorized".to_string(), body: String::new() },
    );
    match out {
        RetryDecision::Fail(ProviderError::Auth { provider, message }) => {
            assert_eq!(provider, "contoso");
            assert_eq!(message, "HTTP 401 Unauthorized - check your PAT token");
        },
        other => panic!("unexpected {other:?}"),
    }
    let mut r = Retrier::new();
    let out = r.on_outcome(
        "contoso",
        RequestOutcome::Responded { code: 404, status_text: "404 Not Found".to_string(), body: "missing".to_string() },
    );
    match out {
        RetryDecision::Fail(ProviderError::Api { status, message, .. }) => {
            assert_eq!(status, 404);
            assert_eq!(message, "missing");
        },
        other => panic!("unexpected {other:?}"),
    }
    let mut r = Retrier::new();
    let out = r.on_outcome(
        "contoso",
        RequestOutcome::Responded { code: 200, status_text: "200 OK".to_string(), body: "{}".to_string() },
    );
    assert!(matches!(out, RetryDecision::Accept));
}
