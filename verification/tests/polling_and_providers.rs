use ridgeline::ado::{
    AdoAuthenticatedUser, AdoConnectionData, AdoIdentity, AdoPolicyConfiguration,
    AdoPolicyEvaluation, AdoPolicyType, AdoProject, AdoPropertyValue, AdoPullRequest,
    AdoRepository, AdoUserProperties,
};
use ridgeline::config::{AzureDevOpsConfig, ProjectFilter};
use ridgeline::fetch::ProviderError;
use ridgeline::mcp::{filter_by_project, find_provider, provider_not_found, select_providers, GetPrDetailParams};
use ridgeline::model::{
    BuildStatus, PolicyEvaluation, PolicyStatus, PrId, PrStatus, ProviderType, PullRequest, Repository,
    User,
};
use ridgeline::polling::{combine_poll, derive_build_status, error_kind, BuildCache, PollErrorKind};
use ridgeline::provider::{provider_label, AzureDevOpsProvider};
use ridgeline::startup::{
    init_step, InitCommand, InitEvent, InitState,
    auth_failed_reason, authenticated_message, invalid_projects_warning, no_token_reason,
    token_from_input, trim_whitespace,
};
use ridgeline::time::Timestamp;

fn model_pr(project: &str, number: u64, commit: Option<&str>) -> PullRequest {
    PullRequest {
        id: PrId {
            provider: "contoso".to_string(),
            project: project.to_string(),
            repository: "web".to_string(),
            number,
        },
        title: format!("PR {number}"),
        description: None,
        status: PrStatus::Active,
        is_draft: false,
        created_at: Timestamp { secs: 0, nanos: 0 },
        author: User { id: "a".to_string(), display_name: "Ann".to_string(), unique_name: None },
        source_branch: "f".to_string(),
        target_branch: "main".to_string(),
        reviewers: vec![],
        repository: Repository { name: "web".to_string(), project: project.to_string() },
        labels: vec![],
        merge_status: None,
        build_status: None,
        source_commit_id: commit.map(|c| c.to_string()),
        web_url: String::new(),
    }
}

fn ado_pr(number: u64) -> AdoPullRequest {
    AdoPullRequest {
        pull_request_id: number,
        title: format!("PR {number}"),
        description: None,
        status: "active".to_string(),
        is_draft: None,
        creation_date: "2024-01-15T10:30:00Z".to_string(),
        source_ref_name: "refs/heads/f".to_string(),
        target_ref_name: "refs/heads/main".to_string(),
        created_by: AdoIdentity { id: "a".to_string(), display_name: "Ann".to_string(), unique_name: None },
        reviewers: None,
        repository: AdoRepository {
            id: "r".to_string(),
            name: "web".to_string(),
            project: AdoProject { id: "p".to_string(), name: "Shop".to_string() },
        },
        labels: None,
        merge_status: None,
        url: None,
        last_merge_source_commit: None,
    }
}

fn policy(name: &str, status: PolicyEvaluation) -> PolicyStatus {
    PolicyStatus { name: name.to_string(), is_blocking: true, status }
}

fn provider_with_projects() -> AzureDevOpsProvider {
    let config = AzureDevOpsConfig {
        name: "contoso".to_string(),
        url: "https://dev.azure.com/contoso/".to_string(),
        color: None,
        projects: vec![
            ProjectFilter { name: "Shop".to_string(), repos: vec![] },
            ProjectFilter { name: "Ops".to_string(), repos: vec!["infra".to_string(), "tools".to_string()] },
        ],
    };
    AzureDevOpsProvider::new(&config, "abc")
}

#[test]
fn build_status_from_policies() {
    assert_eq!(derive_build_status(&vec![]), BuildStatus::NotStarted);
    assert_eq!(derive_build_status(&vec![policy("Minimum approvers", PolicyEvaluation::Rejected)]), BuildStatus::NotStarted);
    assert_eq!(
        derive_build_status(&vec![
            policy("Build validation", PolicyEvaluation::Approved),
            policy("CI pipeline", PolicyEvaluation::Rejected),
        ]),
        BuildStatus::Failed
    );
    assert_eq!(derive_build_status(&vec![policy("Pipeline run", PolicyEvaluation::Queued)]), BuildStatus::InProgress);
    assert_eq!(derive_build_status(&vec![policy("BUILD", PolicyEvaluation::Running)]), BuildStatus::InProgress);
    assert_eq!(derive_build_status(&vec![policy("Build", PolicyEvaluation::Approved)]), BuildStatus::Succeeded);
}

#[test]
fn cache_answers_until_the_commit_moves() {
    let mut cache = BuildCache::new();
    let mut pr = model_pr("Shop", 1, Some("c1"));
    assert_eq!(cache.cached_status(&pr), None);
    cache.apply_policies(&mut pr, &vec![policy("Build", PolicyEvaluation::Rejected)]);
    assert_eq!(pr.build_status, Some(BuildStatus::Failed));
    assert_eq!(cache.cached_status(&model_pr("Shop", 1, Some("c1"))), Some(BuildStatus::Failed));
    assert_eq!(cache.cached_status(&model_pr("Shop", 1, Some("c2"))), None);
    let mut no_commit = model_pr("Shop", 2, None);
    cache.apply_policies(&mut no_commit, &vec![policy("Build", PolicyEvaluation::Approved)]);
    assert_eq!(no_commit.build_status, Some(BuildStatus::Succeeded));
    assert_eq!(cache.cached_status(&model_pr("Shop", 2, None)), None);
}

#[test]
fn error_kinds() {
    assert_eq!(error_kind(&ProviderError::Http { message: String::new() }), PollErrorKind::Network);
    assert_eq!(error_kind(&ProviderError::Auth { provider: String::new(), message: String::new() }), PollErrorKind::Auth);
    assert_eq!(error_kind(&ProviderError::Api { provider: String::new(), status: 500, message: String::new() }), PollErrorKind::Server);
    assert_eq!(error_kind(&ProviderError::Deserialize(String::new())), PollErrorKind::Parse);
    assert_eq!(error_kind(&ProviderError::Other(String::new())), PollErrorKind::Unknown);
}

#[test]
fn a_failing_provider_leaves_the_others() {
    let result = combine_poll(
        vec![
            ("a".to_string(), Ok(vec![model_pr("Shop", 1, None)])),
            ("b".to_string(), Err(ProviderError::Http { message: "down".to_string() })),
            ("c".to_string(), Ok(vec![model_pr("Shop", 2, None), model_pr("Shop", 3, None)])),
        ],
        vec![("a".to_string(), Err(ProviderError::Other("boom".to_string())))],
    );
    let numbers: Vec<u64> = result.reviewing.iter().map(|p| p.id.number).collect();
    assert_eq!(numbers, vec![1, 2, 3]);
    assert!(result.authored.is_empty());
    assert_eq!(result.errors.len(), 2);
    assert_eq!(result.errors[0].provider, "b");
    assert_eq!(result.errors[0].kind, PollErrorKind::Network);
    assert_eq!(result.errors[0].message, "HTTP request failed: down");
    assert_eq!(result.errors[1].provider, "a");
    assert_eq!(result.errors[1].kind, PollErrorKind::Unknown);
    assert_eq!(result.errors[1].message, "boom");
}

#[test]
fn list_pull_requests_returns_empty_with_no_providers() {
    let names: Vec<String> = vec![];
    let selected = select_providers(&names, &None).unwrap();
    assert!(selected.is_empty());
    let result = combine_poll(vec![], vec![]);
    assert!(result.reviewing.is_empty());
    assert!(result.authored.is_empty());
    assert!(result.errors.is_empty());
}

#[test]
fn list_pull_requests_with_unknown_provider_filter_returns_error() {
    let names: Vec<String> = vec![];
    let r = select_providers(&names, &Some("nonexistent".to_string()));
    assert_eq!(r, Err("provider 'nonexistent' not found".to_string()));
}

#[test]
fn get_pr_detail_fails_with_unknown_provider() {
    let params = GetPrDetailParams {
        provider: "nonexistent".to_string(),
        project: "proj".to_string(),
        repository: "repo".to_string(),
        number: 1,
    };
    let id = params.pr_id();
    assert_eq!(id.provider, "nonexistent");
    assert_eq!(id.number, 1);
    let names: Vec<String> = vec![];
    let err = find_provider(&names, &id.provider).unwrap_err();
    assert!(err.contains("nonexistent"));
}

#[test]
fn provider_selection_ignores_ascii_case() {
    let names = vec!["Contoso".to_string(), "fabrikam".to_string(), "CONTOSO".to_string()];
    assert_eq!(select_providers(&names, &Some("contoso".to_string())).unwrap(), vec![0, 2]);
    assert_eq!(select_providers(&names, &None).unwrap(), vec![0, 1, 2]);
    assert_eq!(find_provider(&names, "fabrikam"), Ok(1));
    assert_eq!(find_provider(&names, "contoso"), Err(provider_not_found("contoso")));
    assert_eq!(provider_not_found("x"), "provider 'x' not found");
}

#[test]
fn project_filter_keeps_matching_projects() {
    let prs = vec![model_pr("Shop", 1, None), model_pr("Ops", 2, None), model_pr("SHOP", 3, None)];
    let kept = filter_by_project(prs, &Some("shop".to_string()));
    let numbers: Vec<u64> = kept.iter().map(|p| p.id.number).collect();
    assert_eq!(numbers, vec![1, 3]);
    let all = filter_by_project(vec![model_pr("Shop", 1, None)], &None);
    assert_eq!(all.len(), 1);
}

#[test]
fn provider_from_configuration() {
    let p = provider_with_projects();
    assert_eq!(p.name(), "contoso");
    assert_eq!(p.provider_type(), ProviderType::AzureDevOps);
    assert_eq!(ProviderType::AzureDevOps.label(), "Azure DevOps");
    assert_eq!(p.client().base_url(), "https://dev.azure.com/contoso");
    assert_eq!(p.projects().len(), 2);
    let id = PrId {
        provider: "contoso".to_string(),
        project: "Shop".to_string(),
        repository: "web".to_string(),
        number: 9,
    };
    assert_eq!(p.web_url(&id), "https://dev.azure.com/contoso/Shop/Shop/_git/web/pullrequest/9");
    let q = AzureDevOpsProvider::new_from_params("x", "https://h/", "t");
    assert_eq!(q.name(), "x");
    assert!(q.projects().is_empty());
    assert_eq!(provider_label("contoso", "Ann"), "contoso (Ann)");
}

#[test]
fn validation_reports_missing_projects() {
    let p = provider_with_projects();
    let missing = p.validate_projects(&vec!["shop".to_string(), "Billing".to_string()]);
    assert_eq!(missing, vec!["Ops".to_string()]);
    assert!(p.validate_projects(&vec!["SHOP".to_string(), "ops".to_string()]).is_empty());
}

#[test]
fn extra_requests_per_project_or_repository() {
    let p = provider_with_projects();
    assert_eq!(
        p.extra_request_paths(),
        vec![
            "/Shop/_apis/git/pullrequests?searchCriteria.status=active&$top=100&api-version=7.1-preview".to_string(),
            "/Ops/_apis/git/repositories/infra/pullrequests?searchCriteria.status=active&$top=100&api-version=7.1-preview".to_string(),
            "/Ops/_apis/git/repositories/tools/pullrequests?searchCriteria.status=active&$top=100&api-version=7.1-preview".to_string(),
        ]
    );
}

#[test]
fn listing_skips_numbers_already_seen() {
    let p = provider_with_projects();
    let org = vec![ado_pr(1), ado_pr(2)];
    let extra = vec![ado_pr(2), ado_pr(3), ado_pr(3), ado_pr(4)];
    let numbers: Vec<u64> = p.combine_listing(&org, &extra, true).iter().map(|x| x.id.number).collect();
    assert_eq!(numbers, vec![1, 2, 3, 4]);
    let authored: Vec<u64> = p.combine_listing(&org, &extra, false).iter().map(|x| x.id.number).collect();
    assert_eq!(authored, vec![1, 2]);
    let listed = p.combine_listing(&org, &vec![], true);
    assert_eq!(listed[0].id.provider, "contoso");
    assert_eq!(listed[0].web_url, "https://dev.azure.com/contoso/Shop/Shop/_git/web/pullrequest/1");
}

#[test]
fn detail_from_answers() {
    let p = provider_with_projects();
    let id = PrId {
        provider: "contoso".to_string(),
        project: "Shop".to_string(),
        repository: "web".to_string(),
        number: 2,
    };
    let evals = vec![AdoPolicyEvaluation {
        configuration: AdoPolicyConfiguration {
            is_blocking: false,
            policy_type: AdoPolicyType { display_name: "Build".to_string() },
        },
        status: "approved".to_string(),
    }];
    let d = p.detail_from(&id, &vec![ado_pr(1), ado_pr(2)], Some(&evals)).unwrap();
    assert_eq!(d.pr.id.number, 2);
    assert!(d.diff_stats.is_none());
    assert!(d.build_status.is_none());
    assert_eq!(d.policies.len(), 1);
    assert_eq!(d.policies[0].status, PolicyEvaluation::Approved);
    let none = p.detail_from(&id, &vec![ado_pr(1)], None);
    match none {
        Err(ProviderError::Other(m)) => assert_eq!(m, "PR 2 not found"),
        other => panic!("unexpected {other:?}"),
    }
    let no_policies = p.detail_from(&id, &vec![ado_pr(2)], None).unwrap();
    assert!(no_policies.policies.is_empty());
}

#[test]
fn current_user_prefers_account_name() {
    let p = provider_with_projects();
    let with_account = AdoConnectionData {
        authenticated_user: AdoAuthenticatedUser {
            id: "guid".to_string(),
            properties: Some(AdoUserProperties {
                account: Some(AdoPropertyValue { value: Some("ann@contoso.com".to_string()) }),
            }),
        },
    };
    let u = p.user_from_connection(&with_account);
    assert_eq!(u.provider, "contoso");
    assert_eq!(u.id, "guid");
    assert_eq!(u.display_name, "ann@contoso.com");
    let bare = AdoConnectionData { authenticated_user: AdoAuthenticatedUser { id: "guid".to_string(), properties: None } };
    assert_eq!(p.user_from_connection(&bare).display_name, "guid");
}

#[test]
fn startup_texts() {
    assert_eq!(trim_whitespace("  abc \n"), "abc");
    assert_eq!(trim_whitespace("\t \n"), "");
    assert_eq!(token_from_input(" tok\n"), Ok("tok".to_string()));
    assert_eq!(token_from_input("   \n"), Err("token cannot be empty".to_string()));
    assert_eq!(no_token_reason("contoso"), "No token found for provider 'contoso'");
    assert_eq!(auth_failed_reason("contoso", "HTTP 401"), "Authentication failed for 'contoso': HTTP 401");
    assert_eq!(authenticated_message("Ann", "contoso"), "Authenticated as 'Ann' on 'contoso'");
    assert_eq!(invalid_projects_warning("contoso", &vec![]), None);
    assert_eq!(
        invalid_projects_warning("contoso", &vec!["A".to_string(), "B".to_string()]),
        Some("Warning: project(s) not found in 'contoso': A, B (skipping)".to_string())
    );
}

#[test]
fn applying_policies_changes_only_the_build_status() {
    let mut cache = BuildCache::new();
    let mut pr = model_pr("Shop", 4, Some("c9"));
    cache.apply_policies(&mut pr, &vec![policy("Build", PolicyEvaluation::Running)]);
    assert_eq!(pr.build_status, Some(BuildStatus::InProgress));
    assert_eq!(pr.id.number, 4);
    assert_eq!(pr.title, "PR 4");
    assert_eq!(pr.source_commit_id.as_deref(), Some("c9"));
}

#[test]
fn startup_state_machine() {
    let names = vec!["contoso".to_string(), "fabrikam".to_string()];
    let with_projects = vec![true, false];
    let s0 = InitState { index: 0, user: String::new() };
    let r = init_step(&names, &with_projects, &s0, InitEvent::Start);
    assert!(matches!(r.command, InitCommand::ReadToken(0)));
    let r = init_step(&names, &with_projects, &r.state, InitEvent::TokenFound);
    assert!(matches!(r.command, InitCommand::Authenticate(0)));
    let r = init_step(&names, &with_projects, &r.state, InitEvent::Authenticated("Ann".to_string()));
    assert!(matches!(r.command, InitCommand::Validate(0)));
    let r = init_step(&names, &with_projects, &r.state, InitEvent::ProjectsChecked(Some(vec!["Ops".to_string()])));
    assert_eq!(
        r.print,
        vec![
            "Warning: project(s) not found in 'contoso': Ops (skipping)".to_string(),
            "Authenticated as 'Ann' on 'contoso'".to_string()
        ]
    );
    assert!(matches!(r.command, InitCommand::ReadToken(1)));
    let r2 = init_step(&names, &with_projects, &r.state, InitEvent::TokenMissing);
    match r2.command {
        InitCommand::NeedsSetup(m) => assert_eq!(m, "No token found for provider 'fabrikam'"),
        other => panic!("unexpected {other:?}"),
    }
    let r = init_step(&names, &with_projects, &r.state, InitEvent::TokenFound);
    let r3 = init_step(&names, &with_projects, &r.state, InitEvent::AuthFailed("HTTP 401".to_string()));
    match r3.command {
        InitCommand::NeedsSetup(m) => assert_eq!(m, "Authentication failed for 'fabrikam': HTTP 401"),
        other => panic!("unexpected {other:?}"),
    }
    let r = init_step(&names, &with_projects, &r.state, InitEvent::Authenticated("Bob".to_string()));
    assert_eq!(r.print, vec!["Authenticated as 'Bob' on 'fabrikam'".to_string()]);
    assert!(matches!(r.command, InitCommand::Done));
    let none = init_step(&vec![], &vec![], &s0, InitEvent::Start);
    assert!(matches!(none.command, InitCommand::Done));
}

#[test]
fn a_build_that_turns_failed_is_reported_once() {
    let mut cache = BuildCache::new();
    let mut first = model_pr("Shop", 5, Some("c1"));
    assert!(cache.apply_policies_reporting(&mut first, &vec![policy("Build", PolicyEvaluation::Approved)]).is_none());
    assert_eq!(cache.last_status(&first), Some(BuildStatus::Succeeded));
    let mut second = model_pr("Shop", 5, Some("c2"));
    let change = cache.apply_policies_reporting(&mut second, &vec![policy("Build", PolicyEvaluation::Rejected)]);
    match change {
        Some(c) => {
            assert_eq!(c.notification_title(), "Build Failed");
            assert_eq!(c.notification_body(), "The build of \"PR 5\" failed");
        },
        None => panic!("expected a build failure"),
    }
    let mut third = model_pr("Shop", 5, Some("c3"));
    assert!(cache.apply_policies_reporting(&mut third, &vec![policy("Build", PolicyEvaluation::Rejected)]).is_none());
    // A pull request seen failing for the first time has no earlier status.
    let mut fresh = model_pr("Shop", 6, Some("c1"));
    assert!(cache.apply_policies_reporting(&mut fresh, &vec![policy("Build", PolicyEvaluation::Rejected)]).is_none());
}
