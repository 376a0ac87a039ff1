//! Azure DevOps REST responses and their mapping onto the provider-neutral model.
use vstd::prelude::*;

use crate::model::{
    MergeStatus, PolicyEvaluation, PolicyStatus, PrId, PrStatus, PullRequest, Repository, Reviewer,
    User, Vote, clone_opt_string,
};
use crate::text::{decimal, push_decimal, push_str, same_text, strip_prefix_or_keep, strip_prefix_text};
use crate::time::{Timestamp, parse_rfc3339, rfc3339_instant, utc_now};

verus! {

/// Azure DevOps wraps list responses in a `value` array.
#[derive(Debug)]
pub struct ListResponse<T> {
    pub value: Vec<T>,
    pub count: Option<u32>,
}

#[derive(Debug)]
pub struct AdoPullRequest {
    pub pull_request_id: u64,
    pub title: String,
    pub description: Option<String>,
    pub status: String,
    pub is_draft: Option<bool>,
    pub creation_date: String,
    pub source_ref_name: String,
    pub target_ref_name: String,
    pub created_by: AdoIdentity,
    pub reviewers: Option<Vec<AdoReviewer>>,
    pub repository: AdoRepository,
    pub labels: Option<Vec<AdoLabel>>,
    pub merge_status: Option<String>,
    pub url: Option<String>,
    pub last_merge_source_commit: Option<AdoCommitRef>,
}

#[derive(Debug)]
pub struct AdoCommitRef {
    pub commit_id: String,
}

#[derive(Debug)]
pub struct AdoIdentity {
    pub id: String,
    pub display_name: String,
    pub unique_name: Option<String>,
}

#[derive(Debug)]
pub struct AdoReviewer {
    pub id: String,
    pub display_name: String,
    pub unique_name: Option<String>,
    pub vote: i32,
    pub is_required: Option<bool>,
}

#[derive(Debug)]
pub struct AdoRepository {
    pub id: String,
    pub name: String,
    pub project: AdoProject,
}

#[derive(Debug)]
pub struct AdoProject {
    pub id: String,
    pub name: String,
}

#[derive(Debug)]
pub struct AdoLabel {
    pub name: String,
}

#[derive(Debug)]
pub struct AdoConnectionData {
    pub authenticated_user: AdoAuthenticatedUser,
}

#[derive(Debug)]
pub struct AdoAuthenticatedUser {
    pub id: String,
    pub properties: Option<AdoUserProperties>,
}

#[derive(Debug)]
pub struct AdoUserProperties {
    pub account: Option<AdoPropertyValue>,
}

#[derive(Debug)]
pub struct AdoPropertyValue {
    pub value: Option<String>,
}

/// A policy evaluation of a pull request; the free-form context that the
/// service attaches is not read and not kept.
#[derive(Debug)]
pub struct AdoPolicyEvaluation {
    pub configuration: AdoPolicyConfiguration,
    pub status: String,
}

#[derive(Debug)]
pub struct AdoPolicyConfiguration {
    pub is_blocking: bool,
    pub policy_type: AdoPolicyType,
}

#[derive(Debug)]
pub struct AdoPolicyType {
    pub display_name: String,
}

#[derive(Debug)]
pub struct AdoThread {
    pub id: u64,
    pub status: Option<String>,
    pub comments: Option<Vec<AdoComment>>,
}

#[derive(Debug)]
pub struct AdoComment {
    pub id: u64,
    pub content: Option<String>,
    pub author: AdoIdentity,
    pub comment_type: Option<String>,
}

// ---------------------------------------------------------------------------
// Mapping
// ---------------------------------------------------------------------------

/// Azure DevOps vote values: 10 approved, 5 approved with suggestions, 0 no
/// vote, -5 waiting for author, -10 rejected; anything else counts as no vote.
pub open spec fn vote_of(v: i32) -> Vote {
    if v == 10 {
        Vote::Approved
    } else if v == 5 {
        Vote::ApprovedWithSuggestions
    } else if v == -5 {
        Vote::WaitingForAuthor
    } else if v == -10 {
        Vote::Rejected
    } else {
        Vote::NoVote
    }
}

pub fn map_vote(vote: i32) -> (r: Vote)
    ensures
        r == vote_of(vote),
{
    match vote {
        10 => Vote::Approved,
        5 => Vote::ApprovedWithSuggestions,
        0 => Vote::NoVote,
        -5 => Vote::WaitingForAuthor,
        -10 => Vote::Rejected,
        _ => Vote::NoVote,
    }
}

/// The status names of the service; anything unknown counts as active.
pub open spec fn status_of(s: Seq<char>) -> PrStatus {
    if s == "completed"@ {
        PrStatus::Completed
    } else if s == "abandoned"@ {
        PrStatus::Abandoned
    } else {
        PrStatus::Active
    }
}

pub fn map_status(status: &str) -> (r: PrStatus)
    ensures
        r == status_of(status@),
{
    if same_text(status, "active") {
        proof {
            reveal_strlit("active");
            reveal_strlit("completed");
            reveal_strlit("abandoned");
            assert("active"@[1] != "completed"@[1]);
            assert("active"@[0] != "abandoned"@[1]);
            assert("active"@ != "abandoned"@) by {
                assert("active"@[1] != "abandoned"@[1]);
            }
        }
        PrStatus::Active
    } else if same_text(status, "completed") {
        PrStatus::Completed
    } else if same_text(status, "abandoned") {
        PrStatus::Abandoned
    } else {
        PrStatus::Active
    }
}

/// The merge status names of the service; anything unknown is "not set".
pub open spec fn merge_status_of(s: Seq<char>) -> MergeStatus {
    if s == "succeeded"@ {
        MergeStatus::Succeeded
    } else if s == "conflicts"@ {
        MergeStatus::Conflicts
    } else if s == "rejectedByPolicy"@ {
        MergeStatus::RejectedByPolicy
    } else if s == "queued"@ {
        MergeStatus::Queued
    } else {
        MergeStatus::NotSet
    }
}

pub fn map_merge_status(status: &str) -> (r: MergeStatus)
    ensures
        r == merge_status_of(status@),
{
    if same_text(status, "succeeded") {
        MergeStatus::Succeeded
    } else if same_text(status, "conflicts") {
        MergeStatus::Conflicts
    } else if same_text(status, "rejectedByPolicy") {
        MergeStatus::RejectedByPolicy
    } else if same_text(status, "queued") {
        MergeStatus::Queued
    } else {
        MergeStatus::NotSet
    }
}

/// The policy evaluation names of the service; anything unknown is "not applicable".
pub open spec fn evaluation_of(s: Seq<char>) -> PolicyEvaluation {
    if s == "approved"@ {
        PolicyEvaluation::Approved
    } else if s == "rejected"@ {
        PolicyEvaluation::Rejected
    } else if s == "running"@ {
        PolicyEvaluation::Running
    } else if s == "queued"@ {
        PolicyEvaluation::Queued
    } else {
        PolicyEvaluation::NotApplicable
    }
}

pub fn map_policy_evaluation(eval: &AdoPolicyEvaluation) -> (r: PolicyStatus)
    ensures
        r.name@ == eval.configuration.policy_type.display_name@,
        r.is_blocking == eval.configuration.is_blocking,
        r.status == evaluation_of(eval.status@),
{
    let s = eval.status.as_str();
    let status = if same_text(s, "approved") {
        PolicyEvaluation::Approved
    } else if same_text(s, "rejected") {
        PolicyEvaluation::Rejected
    } else if same_text(s, "running") {
        PolicyEvaluation::Running
    } else if same_text(s, "queued") {
        PolicyEvaluation::Queued
    } else {
        PolicyEvaluation::NotApplicable
    };
    PolicyStatus {
        name: eval.configuration.policy_type.display_name.clone(),
        is_blocking: eval.configuration.is_blocking,
        status,
    }
}

/// A branch name without its "refs/heads/" prefix.
pub open spec fn branch_text(refname: Seq<char>) -> Seq<char> {
    strip_prefix_text(refname, "refs/heads/"@)
}

pub fn strip_refs_prefix(refname: &str) -> (r: String)
    ensures
        r@ == branch_text(refname@),
{
    strip_prefix_or_keep(refname, "refs/heads/")
}

/// The voter as the model holds it.
pub open spec fn reviewer_matches(ado: AdoReviewer, r: Reviewer) -> bool {
    &&& r.user.id@ == ado.id@
    &&& r.user.display_name@ == ado.display_name@
    &&& r.user.unique_name == ado.unique_name
    &&& r.vote == vote_of(ado.vote)
    &&& r.is_required == (ado.is_required == Some(true))
}

pub fn map_reviewer(r: &AdoReviewer) -> (out: Reviewer)
    ensures
        reviewer_matches(*r, out),
{
    Reviewer {
        user: User {
            id: r.id.clone(),
            display_name: r.display_name.clone(),
            unique_name: clone_opt_string(&r.unique_name),
        },
        vote: map_vote(r.vote),
        is_required: match r.is_required {
            Some(b) => b,
            None => false,
        },
    }
}

/// The web page of a pull request:
/// "base/project/project/_git/repository/pullrequest/number".
pub open spec fn pr_web_url_text(
    base_url: Seq<char>,
    project: Seq<char>,
    repo: Seq<char>,
    number: u64,
) -> Seq<char> {
    base_url + "/"@ + project + "/"@ + project + "/_git/"@ + repo + "/pullrequest/"@ + decimal(
        number as nat,
    )
}

pub fn pr_web_url(base_url: &str, project: &str, repo: &str, number: u64) -> (r: String)
    ensures
        r@ == pr_web_url_text(base_url@, project@, repo@, number),
{
    let mut r = String::from_str(base_url);
    push_str(&mut r, "/");
    push_str(&mut r, project);
    push_str(&mut r, "/");
    push_str(&mut r, project);
    push_str(&mut r, "/_git/");
    push_str(&mut r, repo);
    push_str(&mut r, "/pullrequest/");
    push_decimal(&mut r, number);
    r
}

/// The voters of the response, or none.
pub open spec fn ado_reviewers(ado: AdoPullRequest) -> Seq<AdoReviewer> {
    match ado.reviewers {
        Some(v) => v@,
        None => seq![],
    }
}

/// The label names of the response, or none.
pub open spec fn ado_label_names(ado: AdoPullRequest) -> Seq<Seq<char>> {
    match ado.labels {
        Some(v) => v@.map_values(|l: AdoLabel| l.name@),
        None => seq![],
    }
}

/// `pr` is the response `ado` of provider `provider`, created at `created_at`.
pub open spec fn pr_matches(
    ado: AdoPullRequest,
    provider: Seq<char>,
    base_url: Seq<char>,
    created_at: Timestamp,
    pr: PullRequest,
) -> bool {
    let project = ado.repository.project.name@;
    let repo = ado.repository.name@;
    &&& pr.id.provider@ == provider
    &&& pr.id.project@ == project
    &&& pr.id.repository@ == repo
    &&& pr.id.number == ado.pull_request_id
    &&& pr.title@ == ado.title@
    &&& pr.description == ado.description
    &&& pr.status == status_of(ado.status@)
    &&& pr.is_draft == (ado.is_draft == Some(true))
    &&& pr.created_at == created_at
    &&& pr.author.id@ == ado.created_by.id@
    &&& pr.author.display_name@ == ado.created_by.display_name@
    &&& pr.author.unique_name == ado.created_by.unique_name
    &&& pr.source_branch@ == branch_text(ado.source_ref_name@)
    &&& pr.target_branch@ == branch_text(ado.target_ref_name@)
    &&& pr.reviewers@.len() == ado_reviewers(ado).len()
    &&& forall|i: int|
        0 <= i < pr.reviewers@.len() ==> reviewer_matches(
            #[trigger] ado_reviewers(ado)[i],
            pr.reviewers@[i],
        )
    &&& pr.repository.name@ == repo
    &&& pr.repository.project@ == project
    &&& pr.labels@.map_values(|s: String| s@) == ado_label_names(ado)
    &&& pr.merge_status == (match ado.merge_status {
        Some(s) => Some(merge_status_of(s@)),
        None => None,
    })
    &&& pr.build_status is None
    &&& pr.source_commit_id == (match ado.last_merge_source_commit {
        Some(c) => Some(c.commit_id),
        None => None,
    })
    &&& pr.web_url@ == pr_web_url_text(base_url, project, repo, ado.pull_request_id)
}

fn map_reviewers(ado: &AdoPullRequest) -> (r: Vec<Reviewer>)
    ensures
        r@.len() == ado_reviewers(*ado).len(),
        forall|i: int| 0 <= i < r@.len() ==> reviewer_matches(#[trigger] ado_reviewers(*ado)[i], r@[i]),
{
    let mut out: Vec<Reviewer> = Vec::new();
    match &ado.reviewers {
        Some(rs) => {
            let mut i: usize = 0;
            while i < rs.len()
                invariant
                    ado.reviewers == Some(*rs),
                    i <= rs@.len(),
                    out@.len() == i,
                    forall|j: int| 0 <= j < i ==> reviewer_matches(#[trigger] rs@[j], out@[j]),
                decreases rs@.len() - i,
            {
                out.push(map_reviewer(&rs[i]));
                i = i + 1;
            }
        },
        None => {},
    }
    out
}

fn map_labels(ado: &AdoPullRequest) -> (r: Vec<String>)
    ensures
        r@.map_values(|s: String| s@) == ado_label_names(*ado),
{
    let mut out: Vec<String> = Vec::new();
    match &ado.labels {
        Some(ls) => {
            let mut i: usize = 0;
            while i < ls.len()
                invariant
                    ado.labels == Some(*ls),
                    i <= ls@.len(),
                    out@.map_values(|s: String| s@) == ls@.subrange(0, i as int).map_values(
                        |l: AdoLabel| l.name@,
                    ),
                decreases ls@.len() - i,
            {
                let ghost before = out@;
                out.push(ls[i].name.clone());
                assert(out@.map_values(|s: String| s@) =~= before.map_values(|s: String| s@).push(
                    ls@[i as int].name@,
                ));
                i = i + 1;
                assert(ls@.subrange(0, i as int).map_values(|l: AdoLabel| l.name@) =~= ls@.subrange(
                    0,
                    i - 1,
                ).map_values(|l: AdoLabel| l.name@).push(ls@[i - 1].name@));
            }
            assert(ls@.subrange(0, ls@.len() as int) =~= ls@);
        },
        None => {
            assert(out@.map_values(|s: String| s@) =~= Seq::<Seq<char>>::empty());
        },
    }
    out
}

/// Maps a response onto the model, with a known creation instant.
pub fn map_pull_request_at(
    ado_pr: &AdoPullRequest,
    provider_name: &str,
    base_url: &str,
    created_at: Timestamp,
) -> (r: PullRequest)
    ensures
        pr_matches(*ado_pr, provider_name@, base_url@, created_at, r),
{
    let project = &ado_pr.repository.project.name;
    let repo = &ado_pr.repository.name;
    PullRequest {
        id: PrId {
            provider: String::from_str(provider_name),
            project: project.clone(),
            repository: repo.clone(),
            number: ado_pr.pull_request_id,
        },
        title: ado_pr.title.clone(),
        description: clone_opt_string(&ado_pr.description),
        status: map_status(ado_pr.status.as_str()),
        is_draft: match ado_pr.is_draft {
            Some(b) => b,
            None => false,
        },
        created_at,
        author: User {
            id: ado_pr.created_by.id.clone(),
            display_name: ado_pr.created_by.display_name.clone(),
            unique_name: clone_opt_string(&ado_pr.created_by.unique_name),
        },
        source_branch: strip_refs_prefix(ado_pr.source_ref_name.as_str()),
        target_branch: strip_refs_prefix(ado_pr.target_ref_name.as_str()),
        reviewers: map_reviewers(ado_pr),
        repository: Repository { name: repo.clone(), project: project.clone() },
        labels: map_labels(ado_pr),
        merge_status: match &ado_pr.merge_status {
            Some(s) => Some(map_merge_status(s.as_str())),
            None => None,
        },
        build_status: None,
        source_commit_id: match &ado_pr.last_merge_source_commit {
            Some(c) => Some(c.commit_id.clone()),
            None => None,
        },
        web_url: pr_web_url(base_url, project.as_str(), repo.as_str(), ado_pr.pull_request_id),
    }
}

/// Maps a response onto the model. The creation instant is the parsed
/// creation date; where the date does not parse, it is the current instant.
pub fn map_pull_request(ado_pr: &AdoPullRequest, provider_name: &str, base_url: &str) -> (r:
    PullRequest)
    ensures
        pr_mapped(*ado_pr, provider_name@, base_url@, r),
{
    let created_at = match parse_rfc3339(ado_pr.creation_date.as_str()) {
        Some(t) => t,
        None => utc_now(),
    };
    map_pull_request_at(ado_pr, provider_name, base_url, created_at)
}

/// `pr` is the response `ado` mapped for provider `provider`: its creation
/// instant is the parsed creation date where that parses.
pub open spec fn pr_mapped(ado: AdoPullRequest, provider: Seq<char>, base_url: Seq<char>, pr: PullRequest) -> bool {
    &&& pr_matches(ado, provider, base_url, pr.created_at, pr)
    &&& match rfc3339_instant(ado.creation_date@) {
        Some((secs, nanos)) => pr.created_at == Timestamp { secs, nanos },
        None => true,
    }
}

} // verus!
