//! One poll of every provider: combining the answers, and the build status
//! derived from policy evaluations (with its cache).
use vstd::prelude::*;

use crate::fetch::ProviderError;
use crate::keymap::KeyedMap;
use crate::model::{BuildStatus, PolicyEvaluation, PolicyStatus, PullRequest};
use crate::tracker::{Change, ChangeView};
use crate::text::{contains_str, contains_text, lowercase, push_str, to_lowercase};

verus! {

/// What kind of failure a provider had during a poll.
#[derive(Debug, Clone, Copy, PartialEq, Eq, Structural)]
pub enum PollErrorKind {
    Network,
    Auth,
    Server,
    Parse,
    Unknown,
}

/// The kind of failure a provider error stands for.
pub open spec fn error_kind_of(e: ProviderError) -> PollErrorKind {
    match e {
        ProviderError::Http { .. } => PollErrorKind::Network,
        ProviderError::Auth { .. } => PollErrorKind::Auth,
        ProviderError::Api { .. } => PollErrorKind::Server,
        ProviderError::Deserialize(_) => PollErrorKind::Parse,
        ProviderError::Other(_) => PollErrorKind::Unknown,
    }
}

pub fn error_kind(e: &ProviderError) -> (r: PollErrorKind)
    ensures
        r == error_kind_of(*e),
{
    match e {
        ProviderError::Http { .. } => PollErrorKind::Network,
        ProviderError::Auth { .. } => PollErrorKind::Auth,
        ProviderError::Api { .. } => PollErrorKind::Server,
        ProviderError::Deserialize(_) => PollErrorKind::Parse,
        ProviderError::Other(_) => PollErrorKind::Unknown,
    }
}

/// A provider that failed during a poll.
#[derive(Debug)]
pub struct PollError {
    pub provider: String,
    pub kind: PollErrorKind,
    pub message: String,
}

impl PollError {
    /// "provider 'name' failed: message", as the terminal dashboard lists it.
    pub open spec fn describe_text(&self) -> Seq<char> {
        "provider '"@ + self.provider@ + "' failed: "@ + self.message@
    }

    pub fn describe(&self) -> (r: String)
        ensures
            r@ == self.describe_text(),
    {
        let mut r = String::from_str("provider '");
        push_str(&mut r, self.provider.as_str());
        push_str(&mut r, "' failed: ");
        push_str(&mut r, self.message.as_str());
        r
    }
}

/// What one poll found; a failing provider leaves the others' results intact.
#[derive(Debug)]
pub struct PollResult {
    pub reviewing: Vec<PullRequest>,
    pub authored: Vec<PullRequest>,
    pub errors: Vec<PollError>,
}

/// The answer of one provider to one listing.
pub type ProviderAnswer = (String, Result<Vec<PullRequest>, ProviderError>);

/// The pull requests of the successful answers, in order.
pub open spec fn ok_prs(answers: Seq<ProviderAnswer>) -> Seq<PullRequest>
    decreases answers.len(),
{
    if answers.len() == 0 {
        seq![]
    } else {
        ok_prs(answers.drop_last()) + match answers.last().1 {
            Ok(v) => v@,
            Err(_) => seq![],
        }
    }
}

/// The failures of the answers, in order, as (provider, kind, message).
pub open spec fn failures(answers: Seq<ProviderAnswer>) -> Seq<(Seq<char>, PollErrorKind, Seq<char>)>
    decreases answers.len(),
{
    if answers.len() == 0 {
        seq![]
    } else {
        failures(answers.drop_last()) + match answers.last().1 {
            Ok(_) => seq![],
            Err(e) => seq![(answers.last().0@, error_kind_of(e), e.message_text())],
        }
    }
}

pub open spec fn errors_view(v: Seq<PollError>) -> Seq<(Seq<char>, PollErrorKind, Seq<char>)> {
    v.map_values(|e: PollError| (e.provider@, e.kind, e.message@))
}

fn absorb(
    answers: Vec<ProviderAnswer>,
    prs: &mut Vec<PullRequest>,
    errors: &mut Vec<PollError>,
)
    ensures
        final(prs)@ == old(prs)@ + ok_prs(answers@),
        errors_view(final(errors)@) == errors_view(old(errors)@) + failures(answers@),
{
    let ghost all = answers@;
    let mut answers = answers;
    let mut i: usize = 0;
    let ghost prs0 = prs@;
    let ghost errs0 = errors_view(errors@);
    let _n = answers.len();
    while answers.len() > 0
        invariant
            all.len() <= usize::MAX,
            i + answers@.len() == all.len(),
            answers@ == all.subrange(i as int, all.len() as int),
            prs@ == prs0 + ok_prs(all.subrange(0, i as int)),
            errors_view(errors@) == errs0 + failures(all.subrange(0, i as int)),
        decreases answers@.len(),
    {
        let (name, result) = answers.remove(0);
        proof {
            let pre = all.subrange(0, i + 1);
            assert(pre.drop_last() =~= all.subrange(0, i as int));
            assert(pre.last() == all[i as int]);
            assert(all[i as int] == (name, result));
        }
        match result {
            Ok(mut list) => {
                let ghost l = list@;
                prs.append(&mut list);
                assert(prs@ =~= prs0 + ok_prs(all.subrange(0, i + 1)));
                assert(errors_view(errors@) =~= errs0 + failures(all.subrange(0, i + 1)));
            },
            Err(e) => {
                let ghost before = errors@;
                let message = e.message();
                let kind = error_kind(&e);
                errors.push(PollError { provider: name, kind, message });
                assert(errors_view(errors@) =~= errors_view(before).push(
                    (all[i as int].0@, error_kind_of(e), e.message_text()),
                ));
                assert(errors_view(errors@) =~= errs0 + failures(all.subrange(0, i + 1)));
                assert(prs@ =~= prs0 + ok_prs(all.subrange(0, i + 1)));
            },
        }
        i = i + 1;
        assert(answers@ =~= all.subrange(i as int, all.len() as int));
    }
    assert(all.subrange(0, all.len() as int) =~= all);
}

/// Combines the answers of a poll: all pull requests to vote on, then all
/// authored ones, each in the providers' order; the failures of the first
/// listings, then those of the second.
pub fn combine_poll(
    reviewing: Vec<ProviderAnswer>,
    authored: Vec<ProviderAnswer>,
) -> (r: PollResult)
    ensures
        r.reviewing@ == ok_prs(reviewing@),
        r.authored@ == ok_prs(authored@),
        errors_view(r.errors@) == failures(reviewing@) + failures(authored@),
{
    let mut all_reviewing: Vec<PullRequest> = Vec::new();
    let mut all_authored: Vec<PullRequest> = Vec::new();
    let mut errors: Vec<PollError> = Vec::new();
    let ghost rv = reviewing@;
    let ghost au = authored@;
    absorb(reviewing, &mut all_reviewing, &mut errors);
    absorb(authored, &mut all_authored, &mut errors);
    assert(all_reviewing@ =~= ok_prs(rv));
    assert(all_authored@ =~= ok_prs(au));
    assert(errors_view(errors@) =~= failures(rv) + failures(au));
    PollResult { reviewing: all_reviewing, authored: all_authored, errors }
}

// ---------------------------------------------------------------------------
// Build status
// ---------------------------------------------------------------------------

/// A policy counts as a build policy when its lower-cased name mentions
/// "build", "pipeline" or "ci".
pub open spec fn is_build_policy(p: PolicyStatus) -> bool {
    let n = lowercase(p.name@);
    contains_text(n, "build"@) || contains_text(n, "pipeline"@) || contains_text(n, "ci"@)
}

/// The build status that the policies show: not started without build
/// policies; failed when one is rejected; in progress when one is running or
/// queued; else succeeded.
pub open spec fn build_status_of(policies: Seq<PolicyStatus>) -> BuildStatus {
    let builds = policies.filter(|p: PolicyStatus| is_build_policy(p));
    if builds.len() == 0 {
        BuildStatus::NotStarted
    } else if exists|i: int| 0 <= i < builds.len() && builds[i].status == PolicyEvaluation::Rejected {
        BuildStatus::Failed
    } else if exists|i: int|
        0 <= i < builds.len() && (builds[i].status == PolicyEvaluation::Running || builds[i].status
            == PolicyEvaluation::Queued) {
        BuildStatus::InProgress
    } else {
        BuildStatus::Succeeded
    }
}

fn is_build_policy_exec(p: &PolicyStatus) -> (r: bool)
    ensures
        r == is_build_policy(*p),
{
    let n = to_lowercase(p.name.as_str());
    contains_str(n.as_str(), "build") || contains_str(n.as_str(), "pipeline") || contains_str(
        n.as_str(),
        "ci",
    )
}

/// The build status of a pull request from its policy evaluations.
pub fn derive_build_status(policies: &Vec<PolicyStatus>) -> (r: BuildStatus)
    ensures
        r == build_status_of(policies@),
{
    let ghost pred = |p: PolicyStatus| is_build_policy(p);
    let mut count: usize = 0;
    let mut rejected = false;
    let mut pending = false;
    let mut i: usize = 0;
    while i < policies.len()
        invariant
            i <= policies@.len(),
            pred == (|p: PolicyStatus| is_build_policy(p)),
            count <= i,
            count == policies@.subrange(0, i as int).filter(pred).len(),
            rejected == exists|k: int|
                0 <= k < policies@.subrange(0, i as int).filter(pred).len()
                    && policies@.subrange(0, i as int).filter(pred)[k].status == PolicyEvaluation::Rejected,
            pending == exists|k: int|
                0 <= k < policies@.subrange(0, i as int).filter(pred).len() && (policies@.subrange(
                    0,
                    i as int,
                ).filter(pred)[k].status == PolicyEvaluation::Running || policies@.subrange(
                    0,
                    i as int,
                ).filter(pred)[k].status == PolicyEvaluation::Queued),
        decreases policies@.len() - i,
    {
        let ghost old_f = policies@.subrange(0, i as int).filter(pred);
        let p = &policies[i];
        proof {
            let pre = policies@.subrange(0, i + 1);
            assert(pre.drop_last() =~= policies@.subrange(0, i as int));
            assert(pre.last() == *p);
            reveal_with_fuel(Seq::<_>::filter, 1);
        }
        if is_build_policy_exec(p) {
            let ghost new_f = policies@.subrange(0, i + 1).filter(pred);
            assert(new_f == old_f.push(*p));
            count = count + 1;
            if p.status == PolicyEvaluation::Rejected {
                rejected = true;
                assert(new_f[old_f.len() as int] == *p);
            }
            if p.status == PolicyEvaluation::Running || p.status == PolicyEvaluation::Queued {
                pending = true;
                assert(new_f[old_f.len() as int] == *p);
            }
            assert forall|k: int| 0 <= k < old_f.len() implies new_f[k] == old_f[k] by {}
            assert(rejected == exists|k: int|
                0 <= k < new_f.len() && new_f[k].status == PolicyEvaluation::Rejected) by {
                if exists|k: int| 0 <= k < new_f.len() && new_f[k].status == PolicyEvaluation::Rejected {
                    let k = choose|k: int| 0 <= k < new_f.len() && new_f[k].status == PolicyEvaluation::Rejected;
                    if k < old_f.len() {
                        assert(old_f[k] == new_f[k]);
                    }
                }
            }
            assert(pending == exists|k: int|
                0 <= k < new_f.len() && (new_f[k].status == PolicyEvaluation::Running || new_f[k].status == PolicyEvaluation::Queued)) by {
                if exists|k: int| 0 <= k < new_f.len() && (new_f[k].status == PolicyEvaluation::Running || new_f[k].status == PolicyEvaluation::Queued) {
                    let k = choose|k: int| 0 <= k < new_f.len() && (new_f[k].status == PolicyEvaluation::Running || new_f[k].status == PolicyEvaluation::Queued);
                    if k < old_f.len() {
                        assert(old_f[k] == new_f[k]);
                    }
                }
            }
        }
        i = i + 1;
    }
    assert(policies@.subrange(0, policies@.len() as int) =~= policies@);
    if count == 0 {
        BuildStatus::NotStarted
    } else if rejected {
        BuildStatus::Failed
    } else if pending {
        BuildStatus::InProgress
    } else {
        BuildStatus::Succeeded
    }
}

/// The build status last derived for a pull request, with the commit it was
/// derived at.
#[derive(Debug)]
pub struct CachedBuildStatus {
    pub source_commit_id: String,
    pub status: BuildStatus,
}

/// Build statuses by pull request, so that a pull request whose source
/// commit has not moved needs no new request.
pub struct BuildCache {
    entries: KeyedMap<CachedBuildStatus>,
}

/// The commit of a pull request, or the empty text.
pub open spec fn commit_text(pr: PullRequest) -> Seq<char> {
    match pr.source_commit_id {
        Some(c) => c@,
        None => seq![],
    }
}

impl BuildCache {
    pub closed spec fn wf(&self) -> bool {
        self.entries.wf()
    }

    /// The cached status and commit of each pull request, by the display
    /// form of its id.
    pub closed spec fn contents(&self) -> Map<Seq<char>, (Seq<char>, BuildStatus)> {
        Map::new(
            |k: Seq<char>| self.entries@.dom().contains(k),
            |k: Seq<char>| (self.entries@[k].source_commit_id@, self.entries@[k].status),
        )
    }

    pub fn new() -> (r: Self)
        ensures
            r.wf(),
            r.contents() == Map::<Seq<char>, (Seq<char>, BuildStatus)>::empty(),
    {
        let r = BuildCache { entries: KeyedMap::new() };
        assert(r.contents() =~= Map::<Seq<char>, (Seq<char>, BuildStatus)>::empty());
        r
    }

    /// The cached status of a pull request, when it was derived at the pull
    /// request's current commit.
    pub fn cached_status(&self, pr: &PullRequest) -> (r: Option<BuildStatus>)
        requires
            self.wf(),
        ensures
            r == cached_answer(self.contents(), *pr),
    {
        let key = pr.id.to_display_string();
        let commit = match &pr.source_commit_id {
            Some(c) => c.clone(),
            None => String::new(),
        };
        match self.entries.get(&key) {
            Some(cached) => {
                if cached.source_commit_id == commit {
                    Some(cached.status)
                } else {
                    None
                }
            },
            None => None,
        }
    }

    /// Remembers the status derived for a pull request; a pull request
    /// without a known commit is not remembered.
    pub fn record(&mut self, pr: &PullRequest, status: BuildStatus)
        requires
            old(self).wf(),
        ensures
            final(self).wf(),
            final(self).contents() == recorded(old(self).contents(), *pr, status),
    {
        let commit = match &pr.source_commit_id {
            Some(c) => c.clone(),
            None => String::new(),
        };
        if commit.as_str().unicode_len() == 0 {
            return;
        }
        let key = pr.id.to_display_string();
        self.entries.insert(key, CachedBuildStatus { source_commit_id: commit, status });
        assert(self.contents() =~= old(self).contents().insert(
            pr.id.display_text(),
            (commit_text(*pr), status),
        ));
    }

    /// The status last recorded for a pull request, whatever commit it was
    /// derived at.
    pub fn last_status(&self, pr: &PullRequest) -> (r: Option<BuildStatus>)
        requires
            self.wf(),
        ensures
            r == last_recorded(self.contents(), *pr),
    {
        let key = pr.id.to_display_string();
        match self.entries.get(&key) {
            Some(cached) => Some(cached.status),
            None => None,
        }
    }

    /// Sets a pull request's build status from its policies, remembers it,
    /// and reports a build that turned failed since the status last recorded.
    pub fn apply_policies_reporting(&mut self, pr: &mut PullRequest, policies: &Vec<PolicyStatus>) -> (r: Option<Change>)
        requires
            old(self).wf(),
        ensures
            final(self).wf(),
            *final(pr) == (PullRequest { build_status: Some(build_status_of(policies@)), ..*old(pr) }),
            final(self).contents() == recorded(old(self).contents(), *old(pr), build_status_of(policies@)),
            r is Some <==> turned_failed(last_recorded(old(self).contents(), *old(pr)), Some(build_status_of(policies@))),
            r matches Some(c) ==> c@ == (ChangeView::BuildFailed { pr_title: old(pr).title@, web_url: old(pr).web_url@ }),
    {
        let previous = self.last_status(pr);
        self.apply_policies(pr, policies);
        build_failure(previous, pr)
    }

    /// Sets a pull request's build status from its policies and remembers it.
    pub fn apply_policies(&mut self, pr: &mut PullRequest, policies: &Vec<PolicyStatus>)
        requires
            old(self).wf(),
        ensures
            final(self).wf(),
            final(pr).build_status == Some(build_status_of(policies@)),
            final(pr).id == old(pr).id,
            final(pr).source_commit_id == old(pr).source_commit_id,
            final(self).contents() == recorded(old(self).contents(), *old(pr), build_status_of(policies@)),
            *final(pr) == (PullRequest { build_status: Some(build_status_of(policies@)), ..*old(pr) }),
    {
        let status = derive_build_status(policies);
        self.record(pr, status);
        pr.build_status = Some(status);
    }
}

/// The status last recorded for a pull request, whatever its commit.
pub open spec fn last_recorded(contents: Map<Seq<char>, (Seq<char>, BuildStatus)>, pr: PullRequest) -> Option<BuildStatus> {
    if contents.dom().contains(pr.id.display_text()) {
        Some(contents[pr.id.display_text()].1)
    } else {
        None
    }
}

/// A build turned failed: it is failed now, and a status other than failed was
/// recorded for the pull request before.
pub open spec fn turned_failed(previous: Option<BuildStatus>, now: Option<BuildStatus>) -> bool {
    &&& now == Some(BuildStatus::Failed)
    &&& previous is Some
    &&& previous != Some(BuildStatus::Failed)
}

/// The change to report for a pull request whose build status was `previous`
/// when last recorded: a build failure where it turned failed, else none.
pub fn build_failure(previous: Option<BuildStatus>, pr: &PullRequest) -> (r: Option<Change>)
    ensures
        r is Some <==> turned_failed(previous, pr.build_status),
        r matches Some(c) ==> c@ == (ChangeView::BuildFailed { pr_title: pr.title@, web_url: pr.web_url@ }),
{
    let failed_now = match pr.build_status {
        Some(BuildStatus::Failed) => true,
        _ => false,
    };
    let failed_before = match previous {
        Some(BuildStatus::Failed) => true,
        Some(_) => false,
        None => true,
    };
    if failed_now && !failed_before {
        Some(Change::BuildFailed { pr_title: pr.title.clone(), web_url: pr.web_url.clone() })
    } else {
        None
    }
}

/// A build failure is reported once: after a failed status was recorded for a
/// pull request with a known commit, a failed build of the same pull request
/// is not reported again; a build recorded as succeeding, in progress or not
/// started that then fails is reported.
pub proof fn lemma_build_failure_reported_once(
    contents: Map<Seq<char>, (Seq<char>, BuildStatus)>,
    pr: PullRequest,
    status: BuildStatus,
    later: PullRequest,
)
    requires
        later.id == pr.id,
        commit_text(pr).len() > 0,
    ensures
        status == BuildStatus::Failed ==> !turned_failed(last_recorded(recorded(contents, pr, status), later), Some(BuildStatus::Failed)),
        status != BuildStatus::Failed ==> turned_failed(last_recorded(recorded(contents, pr, status), later), Some(BuildStatus::Failed)),
{
}

/// What the cache answers for a pull request: the cached status where it was
/// derived at the pull request's current commit.
pub open spec fn cached_answer(contents: Map<Seq<char>, (Seq<char>, BuildStatus)>, pr: PullRequest) -> Option<BuildStatus> {
    if contents.dom().contains(pr.id.display_text()) && contents[pr.id.display_text()].0 == commit_text(pr) {
        Some(contents[pr.id.display_text()].1)
    } else {
        None
    }
}

/// What the cache holds after a status is recorded for a pull request.
pub open spec fn recorded(contents: Map<Seq<char>, (Seq<char>, BuildStatus)>, pr: PullRequest, status: BuildStatus) -> Map<Seq<char>, (Seq<char>, BuildStatus)> {
    if commit_text(pr).len() == 0 {
        contents
    } else {
        contents.insert(pr.id.display_text(), (commit_text(pr), status))
    }
}

/// A status recorded for a pull request with a known commit is what the cache
/// then answers for it, until its commit moves; a pull request without a
/// commit is never answered from the cache.
pub proof fn lemma_cache_read_after_record(
    contents: Map<Seq<char>, (Seq<char>, BuildStatus)>,
    pr: PullRequest,
    status: BuildStatus,
    later: PullRequest,
)
    requires
        later.id == pr.id,
    ensures
        commit_text(pr).len() > 0 && commit_text(later) == commit_text(pr) ==> cached_answer(recorded(contents, pr, status), later) == Some(status),
        commit_text(pr).len() > 0 && commit_text(later) != commit_text(pr) ==> cached_answer(recorded(contents, pr, status), later) is None,
{
}


/// How policies decide the build status. A rejected build policy makes the
/// build failed, whatever the other build policies say; without a rejected
/// one, a running or queued build policy makes it in progress; build policies
/// that all passed (approved or not applicable) make it succeeded; and with no
/// build policy at all it has not started. Policies that are not build
/// policies never matter.
pub proof fn lemma_build_status_decision(policies: Seq<PolicyStatus>)
    ensures
        (exists|i: int| 0 <= i < policies.len() && is_build_policy(policies[i]) && policies[i].status
            == PolicyEvaluation::Rejected) ==> build_status_of(policies) == BuildStatus::Failed,
        build_status_of(policies) == BuildStatus::Failed ==> exists|i: int| 0 <= i < policies.len()
            && is_build_policy(policies[i]) && policies[i].status == PolicyEvaluation::Rejected,
        build_status_of(policies) == BuildStatus::InProgress <==> (!(exists|i: int| 0 <= i < policies.len()
            && is_build_policy(policies[i]) && policies[i].status == PolicyEvaluation::Rejected) && exists|i: int|
            0 <= i < policies.len() && is_build_policy(policies[i]) && (policies[i].status == PolicyEvaluation::Running
                || policies[i].status == PolicyEvaluation::Queued)),
        build_status_of(policies) == BuildStatus::NotStarted <==> (forall|i: int| 0 <= i < policies.len()
            ==> !is_build_policy(policies[i])),
        build_status_of(policies) == BuildStatus::Succeeded <==> ((exists|i: int| 0 <= i < policies.len()
            && is_build_policy(policies[i])) && forall|i: int| 0 <= i < policies.len() && is_build_policy(policies[i])
            ==> (policies[i].status == PolicyEvaluation::Approved || policies[i].status
            == PolicyEvaluation::NotApplicable)),
{
    let pred = |p: PolicyStatus| is_build_policy(p);
    let builds = policies.filter(pred);
    lemma_filter_members(policies, pred);
    // Each build policy of the list is an entry of the filtered list.
    assert forall|i: int| 0 <= i < policies.len() && is_build_policy(policies[i]) implies exists|j: int|
        0 <= j < builds.len() && builds[j] == policies[i] by {
        assert(pred(policies[i]));
        assert(policies.contains(policies[i]));
        assert(builds.contains(policies[i]));
    }
    // Each entry of the filtered list is a build policy of the list.
    assert forall|j: int| 0 <= j < builds.len() implies exists|i: int| 0 <= i < policies.len()
        && #[trigger] policies[i] == #[trigger] builds[j] && is_build_policy(policies[i]) by {
        assert(builds.contains(builds[j]));
        assert(policies.contains(builds[j]));
    }
    let rejected_in_list = exists|i: int| 0 <= i < policies.len() && is_build_policy(policies[i])
        && policies[i].status == PolicyEvaluation::Rejected;
    let rejected_in_builds = exists|j: int| 0 <= j < builds.len() && builds[j].status
        == PolicyEvaluation::Rejected;
    if rejected_in_list {
        let i = choose|i: int| 0 <= i < policies.len() && is_build_policy(policies[i])
            && policies[i].status == PolicyEvaluation::Rejected;
        let j = choose|j: int| 0 <= j < builds.len() && builds[j] == policies[i];
        assert(builds[j].status == PolicyEvaluation::Rejected);
    }
    if rejected_in_builds {
        let j = choose|j: int| 0 <= j < builds.len() && builds[j].status == PolicyEvaluation::Rejected;
        let i = choose|i: int| 0 <= i < policies.len() && policies[i] == builds[j] && is_build_policy(policies[i]);
        assert(policies[i].status == PolicyEvaluation::Rejected);
    }
    assert(rejected_in_list == rejected_in_builds);
    let pending_in_list = exists|i: int| 0 <= i < policies.len() && is_build_policy(policies[i]) && (
    policies[i].status == PolicyEvaluation::Running || policies[i].status == PolicyEvaluation::Queued);
    let pending_in_builds = exists|j: int| 0 <= j < builds.len() && (builds[j].status
        == PolicyEvaluation::Running || builds[j].status == PolicyEvaluation::Queued);
    if pending_in_list {
        let i = choose|i: int| 0 <= i < policies.len() && is_build_policy(policies[i]) && (
        policies[i].status == PolicyEvaluation::Running || policies[i].status == PolicyEvaluation::Queued);
        let j = choose|j: int| 0 <= j < builds.len() && builds[j] == policies[i];
        assert(builds[j].status == policies[i].status);
    }
    if pending_in_builds {
        let j = choose|j: int| 0 <= j < builds.len() && (builds[j].status == PolicyEvaluation::Running
            || builds[j].status == PolicyEvaluation::Queued);
        let i = choose|i: int| 0 <= i < policies.len() && policies[i] == builds[j] && is_build_policy(policies[i]);
        assert(policies[i].status == builds[j].status);
    }
    assert(pending_in_list == pending_in_builds);
    let any_in_list = exists|i: int| 0 <= i < policies.len() && is_build_policy(policies[i]);
    if any_in_list {
        let i = choose|i: int| 0 <= i < policies.len() && is_build_policy(policies[i]);
        let j = choose|j: int| 0 <= j < builds.len() && builds[j] == policies[i];
        assert(builds.len() > 0);
    }
    if builds.len() > 0 {
        let i = choose|i: int| 0 <= i < policies.len() && policies[i] == builds[0] && is_build_policy(policies[i]);
        assert(any_in_list);
    }
    assert(any_in_list == (builds.len() > 0));
}

proof fn lemma_filter_members(s: Seq<PolicyStatus>, pred: spec_fn(PolicyStatus) -> bool)
    ensures
        forall|x: PolicyStatus| #[trigger] s.filter(pred).contains(x) <==> (s.contains(x) && pred(x)),
{
    assert forall|x: PolicyStatus| #[trigger] s.filter(pred).contains(x) implies s.contains(x) && pred(x) by {
        s.lemma_filter_contains_rev(pred, x);
        let j = choose|j: int| 0 <= j < s.filter(pred).len() && s.filter(pred)[j] == x;
        s.lemma_filter_pred(pred, j);
    }
    assert forall|x: PolicyStatus| s.contains(x) && pred(x) implies #[trigger] s.filter(pred).contains(x) by {
        let i = choose|i: int| 0 <= i < s.len() && s[i] == x;
        s.lemma_filter_contains(pred, i);
    }
}

} // verus!
