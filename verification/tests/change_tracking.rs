use ridgeline::config::NotificationConfig;
use ridgeline::model::{PrId, PrStatus, PullRequest, Repository, Reviewer, User, Vote};
use ridgeline::time::Timestamp;
use ridgeline::tracker::{
    deserialize_vote, notify_after_poll, pr_key, serialize_vote, should_notify, Change,
    ChangeTracker, PrMeta, SavedTrackerState,
};

fn user(name: &str) -> User {
    User { id: format!("id-{name}"), display_name: name.to_string(), unique_name: None }
}

fn reviewer(name: &str, vote: Vote) -> Reviewer {
    Reviewer { user: user(name), vote, is_required: false }
}

fn pr(number: u64, title: &str, reviewers: Vec<Reviewer>) -> PullRequest {
    PullRequest {
        id: PrId {
            provider: "contoso".to_string(),
            project: "Shop".to_string(),
            repository: "web".to_string(),
            number,
        },
        title: title.to_string(),
        description: None,
        status: PrStatus::Active,
        is_draft: false,
        created_at: Timestamp { secs: 1_700_000_000, nanos: 0 },
        author: user("Jane Doe"),
        source_branch: "feature".to_string(),
        target_branch: "main".to_string(),
        reviewers,
        repository: Repository { name: "web".to_string(), project: "Shop".to_string() },
        labels: vec![],
        merge_status: None,
        build_status: None,
        source_commit_id: None,
        web_url: format!("https://x/pr/{number}"),
    }
}

fn all_on() -> NotificationConfig {
    NotificationConfig {
        new_pr: true,
        vote_changed: true,
        waiting_for_author: true,
        build_failed: true,
        completed: true,
    }
}

#[test]
fn key_joins_id_parts_with_colons() {
    let id = PrId {
        provider: "contoso".to_string(),
        project: "Shop".to_string(),
        repository: "web".to_string(),
        number: 42,
    };
    assert_eq!(pr_key(&id), "contoso:Shop:web:42");
}

#[test]
fn votes_save_and_read_back() {
    let all = [
        Vote::Approved,
        Vote::ApprovedWithSuggestions,
        Vote::NoVote,
        Vote::WaitingForAuthor,
        Vote::Rejected,
    ];
    for v in all {
        assert_eq!(deserialize_vote(&serialize_vote(&v)), v);
    }
    assert_eq!(serialize_vote(&Vote::ApprovedWithSuggestions), "approved_with_suggestions");
    assert_eq!(serialize_vote(&Vote::NoVote), "no_vote");
    assert_eq!(deserialize_vote("something else"), Vote::NoVote);
}

#[test]
fn first_poll_reports_every_pull_request_as_new() {
    let mut t = ChangeTracker::new();
    let changes = t.detect_changes(&vec![pr(1, "One", vec![]), pr(2, "Two", vec![])]);
    assert_eq!(changes.len(), 2);
    match &changes[0] {
        Change::NewPr { title, author, repo, web_url } => {
            assert_eq!(title, "One");
            assert_eq!(author, "Jane Doe");
            assert_eq!(repo, "Shop/web");
            assert_eq!(web_url, "https://x/pr/1");
        },
        other => panic!("unexpected change {other:?}"),
    }
    assert_eq!(t.known_prs(), &vec!["contoso:Shop:web:1".to_string(), "contoso:Shop:web:2".to_string()]);
}

#[test]
fn repeated_poll_reports_nothing() {
    let mut t = ChangeTracker::new();
    let poll = vec![pr(1, "One", vec![reviewer("Ann", Vote::Approved)])];
    t.detect_changes(&poll);
    let again = vec![pr(1, "One", vec![reviewer("Ann", Vote::Approved)])];
    assert!(t.detect_changes(&again).is_empty());
}

#[test]
fn vanished_pull_request_is_reported_completed() {
    let mut t = ChangeTracker::new();
    t.detect_changes(&vec![pr(1, "One", vec![]), pr(2, "Two", vec![])]);
    let changes = t.detect_changes(&vec![pr(2, "Two", vec![])]);
    assert_eq!(changes.len(), 1);
    match &changes[0] {
        Change::Completed { title, repo, web_url } => {
            assert_eq!(title, "One");
            assert_eq!(repo, "Shop/web");
            assert_eq!(web_url, "https://x/pr/1");
        },
        other => panic!("unexpected change {other:?}"),
    }
    assert_eq!(t.known_prs(), &vec!["contoso:Shop:web:2".to_string()]);
}

#[test]
fn changed_vote_and_first_real_vote_are_reported() {
    let mut t = ChangeTracker::new();
    t.detect_changes(&vec![pr(1, "One", vec![reviewer("Ann", Vote::NoVote)])]);
    let changes = t.detect_changes(&vec![pr(
        1,
        "One",
        vec![
            reviewer("Ann", Vote::Rejected),
            reviewer("Bob", Vote::NoVote),
            reviewer("Cid", Vote::WaitingForAuthor),
        ],
    )]);
    assert_eq!(changes.len(), 2);
    match &changes[0] {
        Change::VoteChanged { pr_title, reviewer, new_vote, web_url } => {
            assert_eq!(pr_title, "One");
            assert_eq!(reviewer, "Ann");
            assert_eq!(*new_vote, Vote::Rejected);
            assert_eq!(web_url, "https://x/pr/1");
        },
        other => panic!("unexpected change {other:?}"),
    }
    match &changes[1] {
        Change::VoteChanged { reviewer, new_vote, .. } => {
            assert_eq!(reviewer, "Cid");
            assert_eq!(*new_vote, Vote::WaitingForAuthor);
        },
        other => panic!("unexpected change {other:?}"),
    }
}

#[test]
fn duplicate_pull_requests_in_a_poll_are_known_once() {
    let mut t = ChangeTracker::new();
    // Each copy is compared with the previous poll, so both count as new.
    let changes = t.detect_changes(&vec![pr(1, "One", vec![]), pr(1, "One", vec![])]);
    assert_eq!(changes.len(), 2);
    assert_eq!(t.known_prs().len(), 1);
}

#[test]
fn notification_texts() {
    let new_pr = Change::NewPr {
        title: "Add login".to_string(),
        author: "Jane".to_string(),
        repo: "Shop/web".to_string(),
        web_url: "u1".to_string(),
    };
    assert_eq!(new_pr.notification_title(), "New Pull Request");
    assert_eq!(new_pr.notification_body(), "Jane opened \"Add login\" in Shop/web");
    assert_eq!(new_pr.web_url(), "u1");
    let vote = Change::VoteChanged {
        pr_title: "Add login".to_string(),
        reviewer: "Ann".to_string(),
        new_vote: Vote::Approved,
        web_url: "u2".to_string(),
    };
    assert_eq!(vote.notification_title(), "Vote Changed");
    assert_eq!(vote.notification_body(), "Ann voted ✓ on \"Add login\"");
    assert_eq!(vote.web_url(), "u2");
    let done = Change::Completed {
        title: "Add login".to_string(),
        repo: "Shop/web".to_string(),
        web_url: "u3".to_string(),
    };
    assert_eq!(done.notification_title(), "PR Completed");
    assert_eq!(done.notification_body(), "\"Add login\" in Shop/web was completed");
}

#[test]
fn notification_settings_choose_by_kind() {
    let mut config = all_on();
    config.vote_changed = false;
    let approved = Change::VoteChanged {
        pr_title: "t".to_string(),
        reviewer: "r".to_string(),
        new_vote: Vote::Approved,
        web_url: "u".to_string(),
    };
    let waiting = Change::VoteChanged {
        pr_title: "t".to_string(),
        reviewer: "r".to_string(),
        new_vote: Vote::WaitingForAuthor,
        web_url: "u".to_string(),
    };
    assert!(!should_notify(&approved, &config));
    assert!(should_notify(&waiting, &config));
    config.waiting_for_author = false;
    assert!(!should_notify(&waiting, &config));
    let done = Change::Completed { title: "t".to_string(), repo: "r".to_string(), web_url: "u".to_string() };
    assert!(should_notify(&done, &config));
    config.completed = false;
    assert!(!should_notify(&done, &config));
}

#[test]
fn no_notifications_on_first_poll_or_when_disabled() {
    let c = Change::Completed { title: "t".to_string(), repo: "r".to_string(), web_url: "u".to_string() };
    let config = all_on();
    assert!(!notify_after_poll(&c, true, true, &config));
    assert!(!notify_after_poll(&c, false, false, &config));
    assert!(notify_after_poll(&c, false, true, &config));
}

#[test]
fn saved_state_restores_the_same_tracker() {
    let mut t = ChangeTracker::new();
    t.detect_changes(&vec![
        pr(1, "One", vec![reviewer("Ann", Vote::Approved)]),
        pr(2, "Two", vec![reviewer("Bob", Vote::WaitingForAuthor)]),
    ]);
    let saved = t.saved_state();
    assert_eq!(saved.known_prs.len(), 2);
    assert_eq!(saved.vote_states.len(), 2);
    assert_eq!(saved.vote_states[0].1, vec![("Ann".to_string(), "approved".to_string())]);
    let mut restored = ChangeTracker::restore(saved);
    assert_eq!(restored.known_prs(), t.known_prs());
    // The restored tracker sees the same poll as nothing new.
    let changes = restored.detect_changes(&vec![
        pr(1, "One", vec![reviewer("Ann", Vote::Approved)]),
        pr(2, "Two", vec![reviewer("Bob", Vote::Rejected)]),
    ]);
    assert_eq!(changes.len(), 1);
    match &changes[0] {
        Change::VoteChanged { reviewer, new_vote, .. } => {
            assert_eq!(reviewer, "Bob");
            assert_eq!(*new_vote, Vote::Rejected);
        },
        other => panic!("unexpected change {other:?}"),
    }
}

#[test]
fn restore_keeps_keys_once_and_reads_vote_names() {
    let state = SavedTrackerState {
        known_prs: vec!["a:b:c:1".to_string(), "a:b:c:1".to_string()],
        pr_meta: vec![(
            "a:b:c:1".to_string(),
            PrMeta { title: "T".to_string(), repo: "b/c".to_string(), web_url: "u".to_string() },
        )],
        vote_states: vec![(
            "a:b:c:1".to_string(),
            vec![("Ann".to_string(), "rejected".to_string()), ("Bob".to_string(), "bogus".to_string())],
        )],
    };
    let mut t = ChangeTracker::restore(state);
    assert_eq!(t.known_prs(), &vec!["a:b:c:1".to_string()]);
    // Gone on the next poll: reported with the saved details.
    let changes = t.detect_changes(&vec![]);
    assert_eq!(changes.len(), 1);
    match &changes[0] {
        Change::Completed { title, repo, web_url } => {
            assert_eq!(title, "T");
            assert_eq!(repo, "b/c");
            assert_eq!(web_url, "u");
        },
        other => panic!("unexpected change {other:?}"),
    }
}

#[test]
fn second_poll_reports_completed_first_then_new_and_votes() {
    let mut t = ChangeTracker::new();
    t.detect_changes(&vec![
        pr(1, "One", vec![reviewer("Ann", Vote::NoVote)]),
        pr(2, "Two", vec![]),
    ]);
    let changes = t.detect_changes(&vec![
        pr(3, "Three", vec![reviewer("Bob", Vote::Approved)]),
        pr(1, "One", vec![reviewer("Ann", Vote::Approved), reviewer("Cid", Vote::NoVote)]),
    ]);
    assert_eq!(changes.len(), 3);
    assert!(matches!(&changes[0], Change::Completed { title, .. } if title == "Two"));
    assert!(matches!(&changes[1], Change::NewPr { title, .. } if title == "Three"));
    assert!(matches!(&changes[2], Change::VoteChanged { reviewer, new_vote: Vote::Approved, .. } if reviewer == "Ann"));
}

#[test]
fn keys_differ_for_different_ids() {
    let a = PrId { provider: "org".to_string(), project: "P".to_string(), repository: "R".to_string(), number: 7 };
    let b = PrId { provider: "org".to_string(), project: "P".to_string(), repository: "R".to_string(), number: 70 };
    let c = PrId { provider: "org".to_string(), project: "PR".to_string(), repository: "".to_string(), number: 7 };
    assert_eq!(pr_key(&a), "org:P:R:7");
    assert_ne!(pr_key(&a), pr_key(&b));
    assert_ne!(pr_key(&a), pr_key(&c));
}

#[test]
fn build_failure_notifications_follow_their_setting() {
    let c = Change::BuildFailed { pr_title: "t".to_string(), web_url: "u".to_string() };
    let mut config = all_on();
    assert!(should_notify(&c, &config));
    assert_eq!(c.web_url(), "u");
    config.build_failed = false;
    assert!(!should_notify(&c, &config));
}
