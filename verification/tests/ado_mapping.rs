use ridgeline::ado::{
    map_merge_status, map_policy_evaluation, map_pull_request, map_reviewer, map_status, map_vote,
    pr_web_url, strip_refs_prefix, AdoCommitRef, AdoIdentity, AdoLabel, AdoPolicyConfiguration,
    AdoPolicyEvaluation, AdoPolicyType, AdoProject, AdoPullRequest, AdoRepository, AdoReviewer,
};
use ridgeline::model::{MergeStatus, PolicyEvaluation, PrStatus, Vote};

fn identity(id: &str, name: &str) -> AdoIdentity {
    AdoIdentity { id: id.to_string(), display_name: name.to_string(), unique_name: None }
}

fn sample_pr() -> AdoPullRequest {
    AdoPullRequest {
        pull_request_id: 42,
        title: "Add login".to_string(),
        description: Some("Adds the login page".to_string()),
        status: "active".to_string(),
        is_draft: Some(true),
        creation_date: "2024-01-15T10:30:00Z".to_string(),
        source_ref_name: "refs/heads/feature/login".to_string(),
        target_ref_name: "refs/heads/main".to_string(),
        created_by: identity("u1", "Jane Doe"),
        reviewers: Some(vec![
            AdoReviewer {
                id: "u2".to_string(),
                display_name: "John Smith".to_string(),
                unique_name: Some("john@example.com".to_string()),
                vote: 10,
                is_required: Some(true),
            },
            AdoReviewer {
                id: "u3".to_string(),
                display_name: "Ann Lee".to_string(),
                unique_name: None,
                vote: -5,
                is_required: None,
            },
        ]),
        repository: AdoRepository {
            id: "r1".to_string(),
            name: "web".to_string(),
            project: AdoProject { id: "p1".to_string(), name: "Shop".to_string() },
        },
        labels: Some(vec![AdoLabel { name: "ui".to_string() }]),
        merge_status: Some("conflicts".to_string()),
        url: None,
        last_merge_source_commit: Some(AdoCommitRef { commit_id: "abc123".to_string() }),
    }
}

#[test]
fn votes_map_from_service_values() {
    assert_eq!(map_vote(10), Vote::Approved);
    assert_eq!(map_vote(5), Vote::ApprovedWithSuggestions);
    assert_eq!(map_vote(0), Vote::NoVote);
    assert_eq!(map_vote(-5), Vote::WaitingForAuthor);
    assert_eq!(map_vote(-10), Vote::Rejected);
    assert_eq!(map_vote(7), Vote::NoVote);
    assert_eq!(map_vote(-1), Vote::NoVote);
}

#[test]
fn statuses_map_with_active_as_fallback() {
    assert_eq!(map_status("active"), PrStatus::Active);
    assert_eq!(map_status("completed"), PrStatus::Completed);
    assert_eq!(map_status("abandoned"), PrStatus::Abandoned);
    assert_eq!(map_status("notSet"), PrStatus::Active);
    assert_eq!(map_status(""), PrStatus::Active);
}

#[test]
fn merge_statuses_map_with_not_set_as_fallback() {
    assert_eq!(map_merge_status("succeeded"), MergeStatus::Succeeded);
    assert_eq!(map_merge_status("conflicts"), MergeStatus::Conflicts);
    assert_eq!(map_merge_status("rejectedByPolicy"), MergeStatus::RejectedByPolicy);
    assert_eq!(map_merge_status("queued"), MergeStatus::Queued);
    assert_eq!(map_merge_status("failure"), MergeStatus::NotSet);
}

#[test]
fn policy_evaluations_keep_name_and_blocking() {
    let eval = AdoPolicyEvaluation {
        configuration: AdoPolicyConfiguration {
            is_blocking: true,
            policy_type: AdoPolicyType { display_name: "Build".to_string() },
        },
        status: "running".to_string(),
    };
    let p = map_policy_evaluation(&eval);
    assert_eq!(p.name, "Build");
    assert!(p.is_blocking);
    assert_eq!(p.status, PolicyEvaluation::Running);
    let other = AdoPolicyEvaluation { status: "broken".to_string(), ..eval };
    assert_eq!(map_policy_evaluation(&other).status, PolicyEvaluation::NotApplicable);
}

#[test]
fn branch_prefix_is_stripped_once() {
    assert_eq!(strip_refs_prefix("refs/heads/main"), "main");
    assert_eq!(strip_refs_prefix("refs/heads/feature/x"), "feature/x");
    assert_eq!(strip_refs_prefix("refs/tags/v1"), "refs/tags/v1");
    assert_eq!(strip_refs_prefix("main"), "main");
}

#[test]
fn reviewer_required_defaults_to_false() {
    let r = map_reviewer(&AdoReviewer {
        id: "u9".to_string(),
        display_name: "Kim".to_string(),
        unique_name: None,
        vote: 5,
        is_required: None,
    });
    assert_eq!(r.user.id, "u9");
    assert_eq!(r.user.display_name, "Kim");
    assert_eq!(r.vote, Vote::ApprovedWithSuggestions);
    assert!(!r.is_required);
}

#[test]
fn web_url_repeats_project() {
    assert_eq!(
        pr_web_url("https://dev.azure.com/org", "Shop", "web", 42),
        "https://dev.azure.com/org/Shop/Shop/_git/web/pullrequest/42"
    );
}

#[test]
fn pull_request_maps_every_field() {
    let ado = sample_pr();
    let pr = map_pull_request(&ado, "contoso", "https://dev.azure.com/contoso");
    assert_eq!(pr.id.provider, "contoso");
    assert_eq!(pr.id.project, "Shop");
    assert_eq!(pr.id.repository, "web");
    assert_eq!(pr.id.number, 42);
    assert_eq!(pr.title, "Add login");
    assert_eq!(pr.description.as_deref(), Some("Adds the login page"));
    assert_eq!(pr.status, PrStatus::Active);
    assert!(pr.is_draft);
    assert_eq!(pr.created_at.secs, 1705314600);
    assert_eq!(pr.created_at.nanos, 0);
    assert_eq!(pr.author.display_name, "Jane Doe");
    assert_eq!(pr.source_branch, "feature/login");
    assert_eq!(pr.target_branch, "main");
    assert_eq!(pr.reviewers.len(), 2);
    assert_eq!(pr.reviewers[0].vote, Vote::Approved);
    assert!(pr.reviewers[0].is_required);
    assert_eq!(pr.reviewers[1].vote, Vote::WaitingForAuthor);
    assert!(!pr.reviewers[1].is_required);
    assert_eq!(pr.repository.name, "web");
    assert_eq!(pr.repository.project, "Shop");
    assert_eq!(pr.labels, vec!["ui".to_string()]);
    assert_eq!(pr.merge_status, Some(MergeStatus::Conflicts));
    assert!(pr.build_status.is_none());
    assert_eq!(pr.source_commit_id.as_deref(), Some("abc123"));
    assert_eq!(pr.web_url, "https://dev.azure.com/contoso/Shop/Shop/_git/web/pullrequest/42");
}

#[test]
fn creation_date_with_offset_is_read_as_an_instant() {
    let mut ado = sample_pr();
    ado.creation_date = "2024-01-15T12:30:00.5+02:00".to_string();
    let pr = map_pull_request(&ado, "contoso", "https://x");
    assert_eq!(pr.created_at.secs, 1705314600);
    assert_eq!(pr.created_at.nanos, 500_000_000);
}

#[test]
fn missing_optional_fields_map_to_defaults() {
    let mut ado = sample_pr();
    ado.is_draft = None;
    ado.reviewers = None;
    ado.labels = None;
    ado.merge_status = None;
    ado.last_merge_source_commit = None;
    let pr = map_pull_request(&ado, "p", "https://x");
    assert!(!pr.is_draft);
    assert!(pr.reviewers.is_empty());
    assert!(pr.labels.is_empty());
    assert!(pr.merge_status.is_none());
    assert!(pr.source_commit_id.is_none());
}
