//! The provider-neutral model of pull requests, voters and votes.
use vstd::prelude::*;

use crate::text::{
    decimal, initials_of, push_char, push_decimal, push_str, uppercase, to_uppercase, word_initials,
};
use crate::time::Timestamp;

verus! {

/// A copy of an optional string.
pub fn clone_opt_string(o: &Option<String>) -> (r: Option<String>)
    ensures
        r == *o,
{
    match o {
        Some(s) => Some(s.clone()),
        None => None,
    }
}

/// A copy of a list of strings.
pub fn clone_strings(v: &Vec<String>) -> (r: Vec<String>)
    ensures
        r@ == v@,
{
    let mut r: Vec<String> = Vec::new();
    let mut i: usize = 0;
    while i < v.len()
        invariant
            i <= v@.len(),
            r@ == v@.subrange(0, i as int),
        decreases v@.len() - i,
    {
        r.push(v[i].clone());
        i = i + 1;
        assert(r@ =~= v@.subrange(0, i as int));
    }
    assert(v@.subrange(0, v@.len() as int) =~= v@);
    r
}

/// Identifies one pull request across providers.
#[derive(Debug)]
pub struct PrId {
    pub provider: String,
    pub project: String,
    pub repository: String,
    pub number: u64,
}

impl Clone for PrId {
    fn clone(&self) -> (r: Self)
        ensures
            r == *self,
    {
        PrId {
            provider: self.provider.clone(),
            project: self.project.clone(),
            repository: self.repository.clone(),
            number: self.number,
        }
    }
}

impl PrId {
    /// "provider/project/repository/#number"
    pub open spec fn display_text(&self) -> Seq<char> {
        self.provider@ + "/"@ + self.project@ + "/"@ + self.repository@ + "/#"@ + decimal(
            self.number as nat,
        )
    }

    /// The display form of the id (`Display for PrId`).
    pub fn to_display_string(&self) -> (r: String)
        ensures
            r@ == self.display_text(),
    {
        let mut r = self.provider.clone();
        push_str(&mut r, "/");
        push_str(&mut r, self.project.as_str());
        push_str(&mut r, "/");
        push_str(&mut r, self.repository.as_str());
        push_str(&mut r, "/#");
        push_decimal(&mut r, self.number);
        r
    }
}

/// The authenticated user of one provider.
#[derive(Debug)]
pub struct UserId {
    pub provider: String,
    pub id: String,
    pub display_name: String,
}

impl Clone for UserId {
    fn clone(&self) -> (r: Self)
        ensures
            r == *self,
    {
        UserId {
            provider: self.provider.clone(),
            id: self.id.clone(),
            display_name: self.display_name.clone(),
        }
    }
}

#[derive(Debug, Clone, Copy, PartialEq, Eq, Structural)]
pub enum PrStatus {
    Active,
    Completed,
    Abandoned,
}

impl PrStatus {
    pub open spec fn label_text(self) -> Seq<char> {
        match self {
            PrStatus::Active => "Active"@,
            PrStatus::Completed => "Completed"@,
            PrStatus::Abandoned => "Abandoned"@,
        }
    }

    /// The display form of the status (`Display for PrStatus`).
    pub fn label(&self) -> (r: &'static str)
        ensures
            r@ == self.label_text(),
    {
        match self {
            PrStatus::Active => "Active",
            PrStatus::Completed => "Completed",
            PrStatus::Abandoned => "Abandoned",
        }
    }
}

#[derive(Debug)]
pub struct User {
    pub id: String,
    pub display_name: String,
    pub unique_name: Option<String>,
}

impl Clone for User {
    fn clone(&self) -> (r: Self)
        ensures
            r == *self,
    {
        User {
            id: self.id.clone(),
            display_name: self.display_name.clone(),
            unique_name: clone_opt_string(&self.unique_name),
        }
    }
}

#[derive(Debug, Clone, Copy, PartialEq, Eq, Structural)]
pub enum Vote {
    Approved,
    ApprovedWithSuggestions,
    NoVote,
    WaitingForAuthor,
    Rejected,
}

impl Vote {
    pub open spec fn symbol_text(self) -> Seq<char> {
        match self {
            Vote::Approved => "✓"@,
            Vote::ApprovedWithSuggestions => "✓~"@,
            Vote::NoVote => "·"@,
            Vote::WaitingForAuthor => "⏳"@,
            Vote::Rejected => "✗"@,
        }
    }

    /// The symbol shown for the vote.
    pub fn symbol(&self) -> (r: &'static str)
        ensures
            r@ == self.symbol_text(),
    {
        match self {
            Vote::Approved => "✓",
            Vote::ApprovedWithSuggestions => "✓~",
            Vote::NoVote => "·",
            Vote::WaitingForAuthor => "⏳",
            Vote::Rejected => "✗",
        }
    }

    /// The vote symbol followed by the upper-cased initials of the first two
    /// words of the user's display name.
    pub open spec fn initials_text(self, display_name: Seq<char>) -> Seq<char> {
        let initials = initials_of(display_name);
        let n = if initials.len() < 2 {
            initials.len() as int
        } else {
            2
        };
        self.symbol_text() + uppercase(initials.take(n))
    }

    /// The vote symbol and the voter's initials, e.g. "✓JD".
    pub fn initials_display(&self, user: &User) -> (r: String)
        ensures
            r@ == self.initials_text(user.display_name@),
    {
        let initials = word_initials(user.display_name.as_str(), 2);
        let upper = to_uppercase(initials.as_str());
        let mut r = String::new();
        push_str(&mut r, self.symbol());
        push_str(&mut r, upper.as_str());
        r
    }
}

#[derive(Debug)]
pub struct Reviewer {
    pub user: User,
    pub vote: Vote,
    pub is_required: bool,
}

impl Clone for Reviewer {
    fn clone(&self) -> (r: Self)
        ensures
            r == *self,
    {
        Reviewer { user: self.user.clone(), vote: self.vote, is_required: self.is_required }
    }
}

#[derive(Debug)]
pub struct Repository {
    pub name: String,
    pub project: String,
}

impl Clone for Repository {
    fn clone(&self) -> (r: Self)
        ensures
            r == *self,
    {
        Repository { name: self.name.clone(), project: self.project.clone() }
    }
}

#[derive(Debug, Clone, Copy, PartialEq, Eq, Structural)]
pub enum MergeStatus {
    Succeeded,
    Conflicts,
    RejectedByPolicy,
    NotSet,
    Queued,
}

#[derive(Debug, Clone, Copy, PartialEq, Eq, Structural)]
pub struct DiffStats {
    pub files_changed: u32,
    pub additions: u32,
    pub deletions: u32,
}

impl DiffStats {
    pub open spec fn summary_text(self) -> Seq<char> {
        "+"@ + decimal(self.additions as nat) + "/-"@ + decimal(self.deletions as nat)
    }

    /// "+additions/-deletions" (`Display for DiffStats`).
    pub fn summary(&self) -> (r: String)
        ensures
            r@ == self.summary_text(),
    {
        let mut r = String::new();
        push_str(&mut r, "+");
        push_decimal(&mut r, self.additions as u64);
        push_str(&mut r, "/-");
        push_decimal(&mut r, self.deletions as u64);
        r
    }
}

#[derive(Debug, Clone, Copy, PartialEq, Eq, Structural)]
pub enum BuildStatus {
    Succeeded,
    Failed,
    InProgress,
    NotStarted,
}

#[derive(Debug, Clone, Copy, PartialEq, Eq, Structural)]
pub enum PolicyEvaluation {
    Approved,
    Rejected,
    Running,
    Queued,
    NotApplicable,
}

#[derive(Debug)]
pub struct PolicyStatus {
    pub name: String,
    pub is_blocking: bool,
    pub status: PolicyEvaluation,
}

impl Clone for PolicyStatus {
    fn clone(&self) -> (r: Self)
        ensures
            r == *self,
    {
        PolicyStatus { name: self.name.clone(), is_blocking: self.is_blocking, status: self.status }
    }
}

#[derive(Debug, Clone, Copy, PartialEq, Eq, Structural)]
pub enum ProviderType {
    AzureDevOps,
    GitHub,
    GitLab,
    Bitbucket,
}

impl ProviderType {
    pub open spec fn label_text(self) -> Seq<char> {
        match self {
            ProviderType::AzureDevOps => "Azure DevOps"@,
            ProviderType::GitHub => "GitHub"@,
            ProviderType::GitLab => "GitLab"@,
            ProviderType::Bitbucket => "Bitbucket"@,
        }
    }

    /// The display name of the provider kind (`Display for ProviderType`).
    pub fn label(&self) -> (r: &'static str)
        ensures
            r@ == self.label_text(),
    {
        match self {
            ProviderType::AzureDevOps => "Azure DevOps",
            ProviderType::GitHub => "GitHub",
            ProviderType::GitLab => "GitLab",
            ProviderType::Bitbucket => "Bitbucket",
        }
    }
}

/// One pull request as every part of the program sees it.
#[derive(Debug)]
pub struct PullRequest {
    pub id: PrId,
    pub title: String,
    pub description: Option<String>,
    pub status: PrStatus,
    pub is_draft: bool,
    pub created_at: Timestamp,
    pub author: User,
    pub source_branch: String,
    pub target_branch: String,
    pub reviewers: Vec<Reviewer>,
    pub repository: Repository,
    pub labels: Vec<String>,
    pub merge_status: Option<MergeStatus>,
    pub build_status: Option<BuildStatus>,
    pub source_commit_id: Option<String>,
    pub web_url: String,
}

/// A copy of a list of voters.
pub fn clone_reviewers(v: &Vec<Reviewer>) -> (r: Vec<Reviewer>)
    ensures
        r@ == v@,
{
    let mut r: Vec<Reviewer> = Vec::new();
    let mut i: usize = 0;
    while i < v.len()
        invariant
            i <= v@.len(),
            r@ == v@.subrange(0, i as int),
        decreases v@.len() - i,
    {
        r.push(v[i].clone());
        i = i + 1;
        assert(r@ =~= v@.subrange(0, i as int));
    }
    assert(v@.subrange(0, v@.len() as int) =~= v@);
    r
}

impl PullRequest {
    /// Field-by-field equality, lists compared by their contents.
    pub open spec fn same_as(self, other: PullRequest) -> bool {
        &&& self.id == other.id
        &&& self.title == other.title
        &&& self.description == other.description
        &&& self.status == other.status
        &&& self.is_draft == other.is_draft
        &&& self.created_at == other.created_at
        &&& self.author == other.author
        &&& self.source_branch == other.source_branch
        &&& self.target_branch == other.target_branch
        &&& self.reviewers@ == other.reviewers@
        &&& self.repository == other.repository
        &&& self.labels@ == other.labels@
        &&& self.merge_status == other.merge_status
        &&& self.build_status == other.build_status
        &&& self.source_commit_id == other.source_commit_id
        &&& self.web_url == other.web_url
    }
}

impl Clone for PullRequest {
    fn clone(&self) -> (r: Self)
        ensures
            r.same_as(*self),
    {
        PullRequest {
            id: self.id.clone(),
            title: self.title.clone(),
            description: clone_opt_string(&self.description),
            status: self.status,
            is_draft: self.is_draft,
            created_at: self.created_at,
            author: self.author.clone(),
            source_branch: self.source_branch.clone(),
            target_branch: self.target_branch.clone(),
            reviewers: clone_reviewers(&self.reviewers),
            repository: self.repository.clone(),
            labels: clone_strings(&self.labels),
            merge_status: self.merge_status,
            build_status: self.build_status,
            source_commit_id: clone_opt_string(&self.source_commit_id),
            web_url: self.web_url.clone(),
        }
    }
}

/// A pull request with what only its detail view fetches.
#[derive(Debug)]
pub struct PrDetail {
    pub pr: PullRequest,
    pub diff_stats: Option<DiffStats>,
    pub build_status: Option<BuildStatus>,
    pub policies: Vec<PolicyStatus>,
}

} // verus!
