//! Change detection between polls: new pull requests, vote changes and
//! pull requests that left the lists (completed or merged).
use vstd::prelude::*;

use crate::config::NotificationConfig;
use crate::keymap::{KeyedMap, distinct_keys, has_key, lemma_map_of_last, map_of};
use crate::model::{PrId, PullRequest, Reviewer, Vote};
use crate::text::{decimal, lemma_decimal_injective, push_char, push_decimal, push_str};

verus! {

// ---------------------------------------------------------------------------
// Keys and small conversions
// ---------------------------------------------------------------------------

/// The key under which a pull request is tracked:
/// "provider:project:repository:number".
pub open spec fn pr_key_text(id: PrId) -> Seq<char> {
    id.provider@ + ":"@ + id.project@ + ":"@ + id.repository@ + ":"@ + decimal(id.number as nat)
}

/// The tracking key of a pull request id.
pub fn pr_key(id: &PrId) -> (r: String)
    ensures
        r@ == pr_key_text(*id),
{
    let mut r = id.provider.clone();
    push_char(&mut r, ':');
    push_str(&mut r, id.project.as_str());
    push_char(&mut r, ':');
    push_str(&mut r, id.repository.as_str());
    push_char(&mut r, ':');
    push_decimal(&mut r, id.number);
    proof {
        reveal_strlit(":");
        assert(":"@ =~= seq![':']);
    }
    r
}

/// The name under which a vote is saved.
pub open spec fn vote_name(vote: Vote) -> Seq<char> {
    match vote {
        Vote::Approved => "approved"@,
        Vote::ApprovedWithSuggestions => "approved_with_suggestions"@,
        Vote::NoVote => "no_vote"@,
        Vote::WaitingForAuthor => "waiting_for_author"@,
        Vote::Rejected => "rejected"@,
    }
}

/// The saved name of a vote.
pub fn serialize_vote(vote: &Vote) -> (r: String)
    ensures
        r@ == vote_name(*vote),
{
    let s = match vote {
        Vote::Approved => "approved",
        Vote::ApprovedWithSuggestions => "approved_with_suggestions",
        Vote::NoVote => "no_vote",
        Vote::WaitingForAuthor => "waiting_for_author",
        Vote::Rejected => "rejected",
    };
    String::from_str(s)
}

/// `x` has no ':'.
pub open spec fn colon_free(x: Seq<char>) -> bool {
    forall|i: int| 0 <= i < x.len() ==> x[i] != ':'
}

proof fn lemma_split_at_colon(x: Seq<char>, u: Seq<char>, y: Seq<char>, v: Seq<char>)
    requires
        colon_free(x),
        colon_free(y),
        x + ":"@ + u == y + ":"@ + v,
    ensures
        x == y,
        u == v,
{
    reveal_strlit(":");
    let l = x + ":"@ + u;
    let r = y + ":"@ + v;
    if x.len() < y.len() {
        assert(l[x.len() as int] == ':');
        assert(r[x.len() as int] == y[x.len() as int]);
    } else if y.len() < x.len() {
        assert(r[y.len() as int] == ':');
        assert(l[y.len() as int] == x[y.len() as int]);
    }
    assert(x =~= l.subrange(0, x.len() as int));
    assert(y =~= r.subrange(0, y.len() as int));
    assert(u =~= l.subrange(x.len() as int + 1, l.len() as int));
    assert(v =~= r.subrange(y.len() as int + 1, r.len() as int));
}

/// Tracking keys tell pull requests apart: for ids whose provider, project
/// and repository hold no ':', two ids have the same key exactly when they
/// have the same provider, project, repository and number.
pub proof fn lemma_pr_key_injective(a: PrId, b: PrId)
    requires
        colon_free(a.provider@),
        colon_free(a.project@),
        colon_free(a.repository@),
        colon_free(b.provider@),
        colon_free(b.project@),
        colon_free(b.repository@),
    ensures
        pr_key_text(a) == pr_key_text(b) <==> (a.provider@ == b.provider@ && a.project@ == b.project@
            && a.repository@ == b.repository@ && a.number == b.number),
{
    if pr_key_text(a) == pr_key_text(b) {
        let c = ":"@;
        let ta = a.project@ + c + a.repository@ + c + decimal(a.number as nat);
        let tb = b.project@ + c + b.repository@ + c + decimal(b.number as nat);
        assert(pr_key_text(a) =~= a.provider@ + c + ta);
        assert(pr_key_text(b) =~= b.provider@ + c + tb);
        lemma_split_at_colon(a.provider@, ta, b.provider@, tb);
        let ra = a.repository@ + c + decimal(a.number as nat);
        let rb = b.repository@ + c + decimal(b.number as nat);
        assert(ta =~= a.project@ + c + ra);
        assert(tb =~= b.project@ + c + rb);
        lemma_split_at_colon(a.project@, ra, b.project@, rb);
        lemma_split_at_colon(a.repository@, decimal(a.number as nat), b.repository@, decimal(b.number as nat));
        lemma_decimal_injective(a.number as nat, b.number as nat);
    }
}

/// The vote that a saved name stands for; an unknown name is no vote.
pub open spec fn vote_from_name(s: Seq<char>) -> Vote {
    if s == "approved"@ {
        Vote::Approved
    } else if s == "approved_with_suggestions"@ {
        Vote::ApprovedWithSuggestions
    } else if s == "waiting_for_author"@ {
        Vote::WaitingForAuthor
    } else if s == "rejected"@ {
        Vote::Rejected
    } else {
        Vote::NoVote
    }
}

/// Reads a saved vote name back.
pub fn deserialize_vote(s: &str) -> (r: Vote)
    ensures
        r == vote_from_name(s@),
{
    let t = String::from_str(s);
    if t == String::from_str("approved") {
        Vote::Approved
    } else if t == String::from_str("approved_with_suggestions") {
        Vote::ApprovedWithSuggestions
    } else if t == String::from_str("waiting_for_author") {
        Vote::WaitingForAuthor
    } else if t == String::from_str("rejected") {
        Vote::Rejected
    } else {
        Vote::NoVote
    }
}

/// Reading back a saved vote gives the vote.
pub proof fn lemma_vote_round_trip(vote: Vote)
    ensures
        vote_from_name(vote_name(vote)) == vote,
{
    reveal_strlit("approved");
    reveal_strlit("approved_with_suggestions");
    reveal_strlit("no_vote");
    reveal_strlit("waiting_for_author");
    reveal_strlit("rejected");
    match vote {
        Vote::Approved => {},
        Vote::ApprovedWithSuggestions => {
            assert("approved_with_suggestions"@ != "approved"@) by {
                assert("approved_with_suggestions"@.len() != "approved"@.len());
            }
        },
        Vote::NoVote => {
            assert("no_vote"@[0] != "approved"@[0]);
            assert("no_vote"@[0] != "approved_with_suggestions"@[0]);
            assert("no_vote"@[0] != "waiting_for_author"@[0]);
            assert("no_vote"@[0] != "rejected"@[0]);
        },
        Vote::WaitingForAuthor => {
            assert("waiting_for_author"@[0] != "approved"@[0]);
            assert("waiting_for_author"@[0] != "approved_with_suggestions"@[0]);
        },
        Vote::Rejected => {
            assert("rejected"@[0] != "approved"@[0]);
            assert("rejected"@[0] != "approved_with_suggestions"@[0]);
            assert("rejected"@[0] != "waiting_for_author"@[0]);
        },
    }
}

// ---------------------------------------------------------------------------
// Changes
// ---------------------------------------------------------------------------

/// Something worth telling the user about after a poll.
#[derive(Debug)]
pub enum Change {
    NewPr { title: String, author: String, repo: String, web_url: String },
    VoteChanged { pr_title: String, reviewer: String, new_vote: Vote, web_url: String },
    Completed { title: String, repo: String, web_url: String },
    /// The build of a pull request turned failed.
    BuildFailed { pr_title: String, web_url: String },
}

/// A change, with its strings as character sequences.
pub enum ChangeView {
    NewPr { title: Seq<char>, author: Seq<char>, repo: Seq<char>, web_url: Seq<char> },
    VoteChanged { pr_title: Seq<char>, reviewer: Seq<char>, new_vote: Vote, web_url: Seq<char> },
    Completed { title: Seq<char>, repo: Seq<char>, web_url: Seq<char> },
    BuildFailed { pr_title: Seq<char>, web_url: Seq<char> },
}

impl View for Change {
    type V = ChangeView;

    open spec fn view(&self) -> ChangeView {
        match self {
            Change::NewPr { title, author, repo, web_url } => ChangeView::NewPr {
                title: title@,
                author: author@,
                repo: repo@,
                web_url: web_url@,
            },
            Change::VoteChanged { pr_title, reviewer, new_vote, web_url } =>
                ChangeView::VoteChanged {
                pr_title: pr_title@,
                reviewer: reviewer@,
                new_vote: *new_vote,
                web_url: web_url@,
            },
            Change::Completed { title, repo, web_url } => ChangeView::Completed {
                title: title@,
                repo: repo@,
                web_url: web_url@,
            },
            Change::BuildFailed { pr_title, web_url } => ChangeView::BuildFailed {
                pr_title: pr_title@,
                web_url: web_url@,
            },
        }
    }
}

/// The views of a list of changes.
pub open spec fn changes_view(s: Seq<Change>) -> Seq<ChangeView> {
    s.map_values(|c: Change| c@)
}

impl ChangeView {
    pub open spec fn web_url(self) -> Seq<char> {
        match self {
            ChangeView::NewPr { web_url, .. } => web_url,
            ChangeView::VoteChanged { web_url, .. } => web_url,
            ChangeView::Completed { web_url, .. } => web_url,
            ChangeView::BuildFailed { web_url, .. } => web_url,
        }
    }

    pub open spec fn title_text(self) -> Seq<char> {
        match self {
            ChangeView::NewPr { .. } => "New Pull Request"@,
            ChangeView::VoteChanged { .. } => "Vote Changed"@,
            ChangeView::Completed { .. } => "PR Completed"@,
            ChangeView::BuildFailed { .. } => "Build Failed"@,
        }
    }

    pub open spec fn body_text(self) -> Seq<char> {
        match self {
            ChangeView::NewPr { title, author, repo, .. } => author + " opened \""@ + title
                + "\" in "@ + repo,
            ChangeView::VoteChanged { pr_title, reviewer, new_vote, .. } => reviewer
                + " voted "@ + new_vote.symbol_text() + " on \""@ + pr_title + "\""@,
            ChangeView::Completed { title, repo, .. } => "\""@ + title + "\" in "@ + repo
                + " was completed"@,
            ChangeView::BuildFailed { pr_title, .. } => "The build of \""@ + pr_title + "\" failed"@,
        }
    }
}

impl Change {
    /// The web page of the pull request the change is about.
    pub fn web_url(&self) -> (r: &str)
        ensures
            r@ == self@.web_url(),
    {
        match self {
            Change::NewPr { web_url, .. } => web_url.as_str(),
            Change::VoteChanged { web_url, .. } => web_url.as_str(),
            Change::Completed { web_url, .. } => web_url.as_str(),
            Change::BuildFailed { web_url, .. } => web_url.as_str(),
        }
    }

    /// The headline of the notification for the change.
    pub fn notification_title(&self) -> (r: String)
        ensures
            r@ == self@.title_text(),
    {
        match self {
            Change::NewPr { .. } => String::from_str("New Pull Request"),
            Change::VoteChanged { .. } => String::from_str("Vote Changed"),
            Change::Completed { .. } => String::from_str("PR Completed"),
            Change::BuildFailed { .. } => String::from_str("Build Failed"),
        }
    }

    /// The text of the notification for the change.
    pub fn notification_body(&self) -> (r: String)
        ensures
            r@ == self@.body_text(),
    {
        match self {
            Change::NewPr { title, author, repo, .. } => {
                let mut r = author.clone();
                push_str(&mut r, " opened \"");
                push_str(&mut r, title.as_str());
                push_str(&mut r, "\" in ");
                push_str(&mut r, repo.as_str());
                r
            },
            Change::VoteChanged { pr_title, reviewer, new_vote, .. } => {
                let mut r = reviewer.clone();
                push_str(&mut r, " voted ");
                push_str(&mut r, new_vote.symbol());
                push_str(&mut r, " on \"");
                push_str(&mut r, pr_title.as_str());
                push_str(&mut r, "\"");
                r
            },
            Change::Completed { title, repo, .. } => {
                let mut r = String::from_str("\"");
                push_str(&mut r, title.as_str());
                push_str(&mut r, "\" in ");
                push_str(&mut r, repo.as_str());
                push_str(&mut r, " was completed");
                r
            },
            Change::BuildFailed { pr_title, .. } => {
                let mut r = String::from_str("The build of \"");
                push_str(&mut r, pr_title.as_str());
                push_str(&mut r, "\" failed");
                r
            },
        }
    }
}

/// Whether the notification settings ask for a notification of this change.
pub open spec fn should_notify_spec(change: ChangeView, config: NotificationConfig) -> bool {
    match change {
        ChangeView::NewPr { .. } => config.new_pr,
        ChangeView::VoteChanged { new_vote, .. } => if new_vote == Vote::WaitingForAuthor {
            config.waiting_for_author
        } else {
            config.vote_changed
        },
        ChangeView::Completed { .. } => config.completed,
        ChangeView::BuildFailed { .. } => config.build_failed,
    }
}

/// Whether the notification settings ask for a notification of this change.
pub fn should_notify(change: &Change, config: &NotificationConfig) -> (r: bool)
    ensures
        r == should_notify_spec(change@, *config),
{
    match change {
        Change::NewPr { .. } => config.new_pr,
        Change::VoteChanged { new_vote, .. } => {
            if *new_vote == Vote::WaitingForAuthor {
                config.waiting_for_author
            } else {
                config.vote_changed
            }
        },
        Change::Completed { .. } => config.completed,
        Change::BuildFailed { .. } => config.build_failed,
    }
}

/// Whether a change seen during a poll is sent as a desktop notification:
/// never after the first poll of a session, never with notifications off,
/// else as the settings for its kind say.
pub fn notify_after_poll(
    change: &Change,
    first_poll: bool,
    notifications_enabled: bool,
    config: &NotificationConfig,
) -> (r: bool)
    ensures
        r == (!first_poll && notifications_enabled && should_notify_spec(change@, *config)),
{
    !first_poll && notifications_enabled && should_notify(change, config)
}

// ---------------------------------------------------------------------------
// The tracker's model
// ---------------------------------------------------------------------------

/// What the tracker remembers of a pull request so that it can report it
/// once it is gone.
#[derive(Debug)]
pub struct PrMeta {
    pub title: String,
    pub repo: String,
    pub web_url: String,
}

impl Clone for PrMeta {
    fn clone(&self) -> (r: Self)
        ensures
            r == *self,
    {
        PrMeta { title: self.title.clone(), repo: self.repo.clone(), web_url: self.web_url.clone() }
    }
}

pub struct MetaView {
    pub title: Seq<char>,
    pub repo: Seq<char>,
    pub web_url: Seq<char>,
}

impl View for PrMeta {
    type V = MetaView;

    open spec fn view(&self) -> MetaView {
        MetaView { title: self.title@, repo: self.repo@, web_url: self.web_url@ }
    }
}

/// A voter's name and vote, as the tracker compares them between polls.
pub type VoteList = Seq<(Seq<char>, Vote)>;

pub open spec fn vote_list_view(v: Seq<(String, Vote)>) -> VoteList {
    v.map_values(|p: (String, Vote)| (p.0@, p.1))
}

/// Everything the tracker holds, as mathematical values.
pub struct TrackerView {
    pub known: Seq<Seq<char>>,
    pub meta: Map<Seq<char>, MetaView>,
    pub votes: Map<Seq<char>, VoteList>,
}

/// "project/repository" of a pull request.
pub open spec fn repo_text(pr: PullRequest) -> Seq<char> {
    pr.repository.project@ + "/"@ + pr.repository.name@
}

pub open spec fn meta_of(pr: PullRequest) -> MetaView {
    MetaView { title: pr.title@, repo: repo_text(pr), web_url: pr.web_url@ }
}

/// The voters' names and votes of a pull request, in order.
pub open spec fn current_votes(pr: PullRequest) -> VoteList {
    pr.reviewers@.map_values(|r: Reviewer| (r.user.display_name@, r.vote))
}

pub open spec fn new_pr_change(pr: PullRequest) -> ChangeView {
    ChangeView::NewPr {
        title: pr.title@,
        author: pr.author.display_name@,
        repo: repo_text(pr),
        web_url: pr.web_url@,
    }
}

pub open spec fn completed_change(meta: MetaView) -> ChangeView {
    ChangeView::Completed { title: meta.title, repo: meta.repo, web_url: meta.web_url }
}

/// The vote that the first entry named `name` holds, if any.
pub open spec fn first_vote_for(prev: VoteList, name: Seq<char>) -> Option<Vote>
    decreases prev.len(),
{
    if prev.len() == 0 {
        None
    } else if prev[0].0 == name {
        Some(prev[0].1)
    } else {
        first_vote_for(prev.drop_first(), name)
    }
}

/// The change reported for one voter: a vote that differs from the one
/// remembered for that name, or a first real vote of a voter not seen before.
pub open spec fn vote_change(
    prev: VoteList,
    entry: (Seq<char>, Vote),
    pr_title: Seq<char>,
    web_url: Seq<char>,
) -> Seq<ChangeView> {
    let change = ChangeView::VoteChanged {
        pr_title,
        reviewer: entry.0,
        new_vote: entry.1,
        web_url,
    };
    match first_vote_for(prev, entry.0) {
        Some(v) => if v != entry.1 {
            seq![change]
        } else {
            seq![]
        },
        None => if entry.1 != Vote::NoVote {
            seq![change]
        } else {
            seq![]
        },
    }
}

/// The vote changes of a pull request whose votes were remembered, in
/// voter order.
pub open spec fn vote_changes(
    prev: VoteList,
    cur: VoteList,
    pr_title: Seq<char>,
    web_url: Seq<char>,
) -> Seq<ChangeView>
    decreases cur.len(),
{
    if cur.len() == 0 {
        seq![]
    } else {
        vote_changes(prev, cur.drop_last(), pr_title, web_url) + vote_change(
            prev,
            cur.last(),
            pr_title,
            web_url,
        )
    }
}

/// The keys of a list, each once, in the order of first appearance.
pub open spec fn dedup(s: Seq<Seq<char>>) -> Seq<Seq<char>>
    decreases s.len(),
{
    if s.len() == 0 {
        seq![]
    } else {
        let d = dedup(s.drop_last());
        if d.contains(s.last()) {
            d
        } else {
            d.push(s.last())
        }
    }
}

/// The tracking keys of the pull requests of one poll, each once.
pub open spec fn poll_keys(prs: Seq<PullRequest>) -> Seq<Seq<char>> {
    dedup(prs.map_values(|pr: PullRequest| pr_key_text(pr.id)))
}

/// The tracker's memory and the changes found so far, part way through a poll.
pub struct Pass {
    pub meta: Map<Seq<char>, MetaView>,
    pub votes: Map<Seq<char>, VoteList>,
    pub changes: Seq<ChangeView>,
}

/// First part of a poll: each remembered key that the poll no longer shows is
/// forgotten, reported as completed where its details are remembered.
pub open spec fn gone_pass(known: Seq<Seq<char>>, current: Set<Seq<char>>, start: Pass) -> Pass
    decreases known.len(),
{
    if known.len() == 0 {
        start
    } else {
        let p = gone_pass(known.drop_last(), current, start);
        let k = known.last();
        if current.contains(k) {
            p
        } else {
            Pass {
                meta: p.meta.remove(k),
                votes: p.votes.remove(k),
                changes: if p.meta.dom().contains(k) {
                    p.changes.push(completed_change(p.meta[k]))
                } else {
                    p.changes
                },
            }
        }
    }
}

/// What one pull request of a poll adds: a new-PR change when its key was not
/// known before the poll, vote changes when its votes were remembered, and the
/// remembered details and votes are replaced by the current ones.
pub open spec fn pr_step(known: Set<Seq<char>>, p: Pass, pr: PullRequest) -> Pass {
    let k = pr_key_text(pr.id);
    let cur = current_votes(pr);
    let c1 = if known.contains(k) {
        p.changes
    } else {
        p.changes.push(new_pr_change(pr))
    };
    let c2 = if p.votes.dom().contains(k) {
        c1 + vote_changes(p.votes[k], cur, pr.title@, pr.web_url@)
    } else {
        c1
    };
    Pass { meta: p.meta.insert(k, meta_of(pr)), votes: p.votes.insert(k, cur), changes: c2 }
}

/// Second part of a poll: every pull request, in order.
pub open spec fn pr_pass(known: Set<Seq<char>>, prs: Seq<PullRequest>, start: Pass) -> Pass
    decreases prs.len(),
{
    if prs.len() == 0 {
        start
    } else {
        pr_step(known, pr_pass(known, prs.drop_last(), start), prs.last())
    }
}

/// The whole of one poll: the first part, then the second.
pub open spec fn detect_pass(t: TrackerView, prs: Seq<PullRequest>) -> Pass {
    let current = poll_keys(prs);
    let p1 = gone_pass(t.known, current.to_set(), Pass { meta: t.meta, votes: t.votes, changes: seq![] });
    pr_pass(t.known.to_set(), prs, p1)
}

/// The changes that a poll reports.
pub open spec fn detect_changes_spec(t: TrackerView, prs: Seq<PullRequest>) -> Seq<ChangeView> {
    detect_pass(t, prs).changes
}

/// What the tracker holds after a poll: the poll's keys, and the details and
/// votes of the pass.
pub open spec fn detect_state(t: TrackerView, prs: Seq<PullRequest>) -> TrackerView {
    let p = detect_pass(t, prs);
    TrackerView { known: poll_keys(prs), meta: p.meta, votes: p.votes }
}

// ---------------------------------------------------------------------------
// The tracker
// ---------------------------------------------------------------------------

/// Remembers what the last poll showed, to tell what changed.
pub struct ChangeTracker {
    known_prs: Vec<String>,
    pr_meta: KeyedMap<PrMeta>,
    vote_states: KeyedMap<Vec<(String, Vote)>>,
}

pub open spec fn strings_view(v: Seq<String>) -> Seq<Seq<char>> {
    v.map_values(|s: String| s@)
}

pub open spec fn meta_map_view(m: Map<Seq<char>, PrMeta>) -> Map<Seq<char>, MetaView> {
    Map::new(|k: Seq<char>| m.dom().contains(k), |k: Seq<char>| m[k]@)
}

pub open spec fn vote_map_view(m: Map<Seq<char>, Vec<(String, Vote)>>) -> Map<
    Seq<char>,
    VoteList,
> {
    Map::new(|k: Seq<char>| m.dom().contains(k), |k: Seq<char>| vote_list_view(m[k]@))
}

impl View for ChangeTracker {
    type V = TrackerView;

    closed spec fn view(&self) -> TrackerView {
        TrackerView {
            known: strings_view(self.known_prs@),
            meta: meta_map_view(self.pr_meta@),
            votes: vote_map_view(self.vote_states@),
        }
    }
}

/// Whether `k` is among the strings of `v`.
pub fn contains_string(v: &Vec<String>, k: &String) -> (r: bool)
    ensures
        r == strings_view(v@).contains(k@),
{
    let mut i: usize = 0;
    while i < v.len()
        invariant
            i <= v@.len(),
            forall|j: int| 0 <= j < i ==> v@[j]@ != k@,
        decreases v@.len() - i,
    {
        if v[i] == *k {
            assert(strings_view(v@)[i as int] == k@);
            return true;
        }
        i = i + 1;
    }
    proof {
        if strings_view(v@).contains(k@) {
            let j = choose|j: int| 0 <= j < strings_view(v@).len() && strings_view(v@)[j] == k@;
            assert(v@[j]@ == k@);
        }
    }
    false
}

/// The first vote remembered for `name`.
fn find_vote(prev: &Vec<(String, Vote)>, name: &String) -> (r: Option<Vote>)
    ensures
        r == first_vote_for(vote_list_view(prev@), name@),
{
    let ghost pv = vote_list_view(prev@);
    assert(pv.subrange(0, pv.len() as int) =~= pv);
    let mut i: usize = 0;
    while i < prev.len()
        invariant
            pv == vote_list_view(prev@),
            i <= prev@.len(),
            first_vote_for(pv, name@) == first_vote_for(pv.subrange(i as int, pv.len() as int), name@),
        decreases prev@.len() - i,
    {
        proof {
            let rest = pv.subrange(i as int, pv.len() as int);
            assert(rest[0] == pv[i as int]);
            assert(rest.drop_first() == pv.subrange(i + 1, pv.len() as int));
        }
        if prev[i].0 == *name {
            return Some(prev[i].1);
        }
        i = i + 1;
    }
    proof {
        assert(pv.subrange(i as int, pv.len() as int).len() == 0);
    }
    None
}

impl ChangeTracker {
    /// The tracker's own consistency: remembered keys appear once, and the
    /// maps hold distinct keys.
    pub closed spec fn wf(&self) -> bool {
        &&& strings_view(self.known_prs@).no_duplicates()
        &&& self.pr_meta.wf()
        &&& self.vote_states.wf()
    }

    /// A tracker that remembers nothing.
    pub fn new() -> (r: Self)
        ensures
            r.wf(),
            r@.known.len() == 0,
            r@.meta == Map::<Seq<char>, MetaView>::empty(),
            r@.votes == Map::<Seq<char>, VoteList>::empty(),
    {
        let r = ChangeTracker {
            known_prs: Vec::new(),
            pr_meta: KeyedMap::new(),
            vote_states: KeyedMap::new(),
        };
        assert(r@.known =~= seq![]);
        assert(r@.meta =~= Map::<Seq<char>, MetaView>::empty());
        assert(r@.votes =~= Map::<Seq<char>, VoteList>::empty());
        r
    }

    /// The keys of the pull requests the last poll showed.
    pub fn known_prs(&self) -> (r: &Vec<String>)
        ensures
            strings_view(r@) == self@.known,
    {
        &self.known_prs
    }

    /// The remembered details, for saving.
    pub fn pr_meta(&self) -> (r: &KeyedMap<PrMeta>)
        ensures
            meta_map_view(r@) == self@.meta,
    {
        &self.pr_meta
    }

    /// The remembered votes, for saving.
    pub fn vote_states(&self) -> (r: &KeyedMap<Vec<(String, Vote)>>)
        ensures
            vote_map_view(r@) == self@.votes,
    {
        &self.vote_states
    }

    /// Compares a poll with what the tracker remembers, reports the changes and
    /// remembers the poll.
    pub fn detect_changes(&mut self, prs: &Vec<PullRequest>) -> (r: Vec<Change>)
        requires
            old(self).wf(),
        ensures
            final(self).wf(),
            final(self)@ == detect_state(old(self)@, prs@),
            changes_view(r@) == detect_changes_spec(old(self)@, prs@),
    {
        let ghost t0 = self@;
        // The keys of this poll, each once.
        let mut current_keys: Vec<String> = Vec::new();
        let mut i: usize = 0;
        while i < prs.len()
            invariant
                i <= prs@.len(),
                strings_view(current_keys@) == dedup(
                    prs@.subrange(0, i as int).map_values(|pr: PullRequest| pr_key_text(pr.id)),
                ),
            decreases prs@.len() - i,
        {
            let key = pr_key(&prs[i].id);
            let ghost before = strings_view(current_keys@);
            proof {
                let ks = prs@.subrange(0, i + 1).map_values(|pr: PullRequest| pr_key_text(pr.id));
                assert(ks.drop_last() =~= prs@.subrange(0, i as int).map_values(
                    |pr: PullRequest| pr_key_text(pr.id),
                ));
                assert(ks.last() == key@);
            }
            if !contains_string(&current_keys, &key) {
                current_keys.push(key);
                assert(strings_view(current_keys@) =~= before.push(key@));
            }
            i = i + 1;
        }
        proof {
            assert(prs@.subrange(0, prs@.len() as int) =~= prs@);
        }
        let ghost current = strings_view(current_keys@);
        assert(current == poll_keys(prs@));

        // First part: forget what the poll no longer shows.
        let mut changes: Vec<Change> = Vec::new();
        let ghost start = Pass { meta: t0.meta, votes: t0.votes, changes: seq![] };
        let mut i: usize = 0;
        while i < self.known_prs.len()
            invariant
                self.known_prs@ == old(self).known_prs@,
                t0 == old(self)@,
                strings_view(self.known_prs@) == t0.known,
                current == strings_view(current_keys@),
                i <= self.known_prs@.len(),
                self.pr_meta.wf(),
                self.vote_states.wf(),
                ({
                    let p = gone_pass(t0.known.subrange(0, i as int), current.to_set(), start);
                    &&& meta_map_view(self.pr_meta@) == p.meta
                    &&& vote_map_view(self.vote_states@) == p.votes
                    &&& changes_view(changes@) == p.changes
                }),
            decreases self.known_prs@.len() - i,
        {
            let key = self.known_prs[i].clone();
            let ghost p = gone_pass(t0.known.subrange(0, i as int), current.to_set(), start);
            proof {
                let ks = t0.known.subrange(0, i + 1);
                assert(ks.drop_last() =~= t0.known.subrange(0, i as int));
                assert(ks.last() == key@);
            }
            if !contains_string(&current_keys, &key) {
                let ghost old_changes = changes@;
                match self.pr_meta.get(&key) {
                    Some(meta) => {
                        changes.push(
                            Change::Completed {
                                title: meta.title.clone(),
                                repo: meta.repo.clone(),
                                web_url: meta.web_url.clone(),
                            },
                        );
                        assert(changes_view(changes@) =~= changes_view(old_changes).push(
                            completed_change(p.meta[key@]),
                        ));
                    },
                    None => {},
                }
                self.vote_states.remove(&key);
                self.pr_meta.remove(&key);
                assert(meta_map_view(self.pr_meta@) =~= p.meta.remove(key@));
                assert(vote_map_view(self.vote_states@) =~= p.votes.remove(key@));
            }
            i = i + 1;
        }
        proof {
            assert(t0.known.subrange(0, t0.known.len() as int) =~= t0.known);
        }
        let ghost p1 = gone_pass(t0.known, current.to_set(), start);

        // Second part: every pull request of the poll.
        let mut j: usize = 0;
        while j < prs.len()
            invariant
                self.known_prs@ == old(self).known_prs@,
                strings_view(self.known_prs@) == t0.known,
                j <= prs@.len(),
                self.pr_meta.wf(),
                self.vote_states.wf(),
                ({
                    let p = pr_pass(t0.known.to_set(), prs@.subrange(0, j as int), p1);
                    &&& meta_map_view(self.pr_meta@) == p.meta
                    &&& vote_map_view(self.vote_states@) == p.votes
                    &&& changes_view(changes@) == p.changes
                }),
            decreases prs@.len() - j,
        {
            let pr = &prs[j];
            let ghost p = pr_pass(t0.known.to_set(), prs@.subrange(0, j as int), p1);
            proof {
                let ps = prs@.subrange(0, j + 1);
                assert(ps.drop_last() =~= prs@.subrange(0, j as int));
                assert(ps.last() == *pr);
            }
            let key = pr_key(&pr.id);
            let mut repo = pr.repository.project.clone();
            push_char(&mut repo, '/');
            push_str(&mut repo, pr.repository.name.as_str());
            proof {
                reveal_strlit("/");
                assert("/"@ =~= seq!['/']);
            }
            assert(repo@ =~= repo_text(*pr));
            let ghost c0 = changes@;
            if !contains_string(&self.known_prs, &key) {
                changes.push(
                    Change::NewPr {
                        title: pr.title.clone(),
                        author: pr.author.display_name.clone(),
                        repo: repo.clone(),
                        web_url: pr.web_url.clone(),
                    },
                );
                assert(changes_view(changes@) =~= changes_view(c0).push(new_pr_change(*pr)));
            }
            let ghost c1 = changes_view(changes@);
            self.pr_meta.insert(
                key.clone(),
                PrMeta { title: pr.title.clone(), repo, web_url: pr.web_url.clone() },
            );
            assert(meta_map_view(self.pr_meta@) =~= p.meta.insert(key@, meta_of(*pr)));

            // The voters' current votes.
            let mut current_votes_v: Vec<(String, Vote)> = Vec::new();
            let ghost cv = current_votes(*pr);
            assert(cv.len() == pr.reviewers@.len());
            let mut r: usize = 0;
            while r < pr.reviewers.len()
                invariant
                    r <= pr.reviewers@.len(),
                    cv == current_votes(*pr),
                    cv.len() == pr.reviewers@.len(),
                    vote_list_view(current_votes_v@) == cv.subrange(0, r as int),
                decreases pr.reviewers@.len() - r,
            {
                let rv = &pr.reviewers[r];
                assert(cv[r as int] == (rv.user.display_name@, rv.vote));
                let ghost before = current_votes_v@;
                current_votes_v.push((rv.user.display_name.clone(), rv.vote));
                assert(vote_list_view(current_votes_v@) =~= vote_list_view(before).push(
                    (rv.user.display_name@, rv.vote),
                ));
                r = r + 1;
                assert(cv.subrange(0, r as int) =~= cv.subrange(0, r - 1).push(cv[r - 1]));
            }
            assert(current_votes(*pr).subrange(0, current_votes(*pr).len() as int) =~= current_votes(
                *pr,
            ));

            match self.vote_states.get(&key) {
                Some(prev) => {
                    let ghost pv = vote_list_view(prev@);
                    let ghost cur = vote_list_view(current_votes_v@);
                    assert(pv == p.votes[key@]);
                    let mut n: usize = 0;
                    while n < current_votes_v.len()
                        invariant
                            n <= current_votes_v@.len(),
                            cur == vote_list_view(current_votes_v@),
                            pv == vote_list_view(prev@),
                            changes_view(changes@) == c1 + vote_changes(
                                pv,
                                cur.subrange(0, n as int),
                                pr.title@,
                                pr.web_url@,
                            ),
                        decreases current_votes_v@.len() - n,
                    {
                        let name = &current_votes_v[n].0;
                        let vote = current_votes_v[n].1;
                        proof {
                            let cs = cur.subrange(0, n + 1);
                            assert(cs.drop_last() =~= cur.subrange(0, n as int));
                            assert(cs.last() == (name@, vote));
                        }
                        let ghost before = changes_view(changes@);
                        let found = find_vote(prev, name);
                        let report = match found {
                            Some(pvote) => pvote != vote,
                            None => vote != Vote::NoVote,
                        };
                        if report {
                            changes.push(
                                Change::VoteChanged {
                                    pr_title: pr.title.clone(),
                                    reviewer: name.clone(),
                                    new_vote: vote,
                                    web_url: pr.web_url.clone(),
                                },
                            );
                        }
                        proof {
                            let one = vote_change(pv, (name@, vote), pr.title@, pr.web_url@);
                            assert(changes_view(changes@) =~= before + one);
                        }
                        n = n + 1;
                    }
                    assert(cur.subrange(0, cur.len() as int) =~= cur);
                },
                None => {},
            }
            self.vote_states.insert(key, current_votes_v);
            assert(vote_map_view(self.vote_states@) =~= p.votes.insert(
                pr_key_text(pr.id),
                current_votes(*pr),
            ));
            j = j + 1;
        }
        proof {
            assert(prs@.subrange(0, prs@.len() as int) =~= prs@);
        }
        proof {
            lemma_dedup_distinct(prs@.map_values(|pr: PullRequest| pr_key_text(pr.id)));
        }
        self.known_prs = current_keys;
        changes
    }
}

// ---------------------------------------------------------------------------
// Saving and restoring
// ---------------------------------------------------------------------------

/// What the tracker keeps between runs: the known keys, the remembered
/// details by key, and each key's voters with the saved names of their votes.
#[derive(Debug)]
pub struct SavedTrackerState {
    pub known_prs: Vec<String>,
    pub pr_meta: Vec<(String, PrMeta)>,
    pub vote_states: Vec<(String, Vec<(String, String)>)>,
}

/// A saved state as mathematical values.
pub struct SavedView {
    pub known: Seq<Seq<char>>,
    pub meta: Seq<(Seq<char>, MetaView)>,
    pub votes: Seq<(Seq<char>, Seq<(Seq<char>, Seq<char>)>)>,
}

pub open spec fn saved_pairs_view(v: Seq<(String, String)>) -> Seq<(Seq<char>, Seq<char>)> {
    v.map_values(|p: (String, String)| (p.0@, p.1@))
}

impl View for SavedTrackerState {
    type V = SavedView;

    open spec fn view(&self) -> SavedView {
        SavedView {
            known: strings_view(self.known_prs@),
            meta: self.pr_meta@.map_values(|e: (String, PrMeta)| (e.0@, e.1@)),
            votes: self.vote_states@.map_values(
                |e: (String, Vec<(String, String)>)| (e.0@, saved_pairs_view(e.1@)),
            ),
        }
    }
}

/// Entries folded into a map, a later entry replacing an earlier one with
/// the same key.
pub open spec fn folded<T>(s: Seq<(Seq<char>, T)>) -> Map<Seq<char>, T>
    decreases s.len(),
{
    if s.len() == 0 {
        Map::empty()
    } else {
        folded(s.drop_last()).insert(s.last().0, s.last().1)
    }
}

/// Saved votes read back: each saved name becomes its vote.
pub open spec fn restored_votes(pairs: Seq<(Seq<char>, Seq<char>)>) -> VoteList {
    pairs.map_values(|p: (Seq<char>, Seq<char>)| (p.0, vote_from_name(p.1)))
}

/// Votes as they are saved.
pub open spec fn saved_votes(v: VoteList) -> Seq<(Seq<char>, Seq<char>)> {
    v.map_values(|p: (Seq<char>, Vote)| (p.0, vote_name(p.1)))
}

/// The tracker that a saved state stands for: the known keys each once, and
/// the details and votes by key, a later entry winning over an earlier one.
pub open spec fn restored(s: SavedView) -> TrackerView {
    TrackerView {
        known: dedup(s.known),
        meta: folded(s.meta),
        votes: folded(
            s.votes.map_values(
                |e: (Seq<char>, Seq<(Seq<char>, Seq<char>)>)| (e.0, restored_votes(e.1)),
            ),
        ),
    }
}

impl ChangeTracker {
    /// A tracker holding a saved state.
    pub fn restore(state: SavedTrackerState) -> (r: Self)
        ensures
            r.wf(),
            r@ == restored(state@),
    {
        let ghost sv = state@;
        let mut known: Vec<String> = Vec::new();
        let mut i: usize = 0;
        while i < state.known_prs.len()
            invariant
                i <= state.known_prs@.len(),
                sv == state@,
                strings_view(known@) == dedup(sv.known.subrange(0, i as int)),
            decreases state.known_prs@.len() - i,
        {
            let key = state.known_prs[i].clone();
            let ghost before = strings_view(known@);
            assert(sv.known.subrange(0, i + 1).drop_last() =~= sv.known.subrange(0, i as int));
            if !contains_string(&known, &key) {
                known.push(key);
                assert(strings_view(known@) =~= before.push(sv.known[i as int]));
            }
            i = i + 1;
        }
        assert(sv.known.subrange(0, sv.known.len() as int) =~= sv.known);
        proof {
            lemma_dedup_distinct(sv.known);
        }
        let mut pr_meta: KeyedMap<PrMeta> = KeyedMap::new();
        let mut i: usize = 0;
        while i < state.pr_meta.len()
            invariant
                i <= state.pr_meta@.len(),
                sv == state@,
                pr_meta.wf(),
                meta_map_view(pr_meta@) == folded(sv.meta.subrange(0, i as int)),
            decreases state.pr_meta@.len() - i,
        {
            let key = state.pr_meta[i].0.clone();
            let meta = state.pr_meta[i].1.clone();
            let ghost before = pr_meta@;
            assert(sv.meta.subrange(0, i + 1).drop_last() =~= sv.meta.subrange(0, i as int));
            pr_meta.insert(key, meta);
            assert(meta_map_view(pr_meta@) =~= meta_map_view(before).insert(sv.meta[i as int].0, sv.meta[i as int].1));
            i = i + 1;
        }
        assert(sv.meta.subrange(0, sv.meta.len() as int) =~= sv.meta);
        let ghost rv = sv.votes.map_values(
            |e: (Seq<char>, Seq<(Seq<char>, Seq<char>)>)| (e.0, restored_votes(e.1)),
        );
        let mut vote_states: KeyedMap<Vec<(String, Vote)>> = KeyedMap::new();
        let mut i: usize = 0;
        while i < state.vote_states.len()
            invariant
                i <= state.vote_states@.len(),
                sv == state@,
                rv.len() == sv.votes.len(),
                forall|k: int| 0 <= k < rv.len() ==> #[trigger] rv[k] == (sv.votes[k].0, restored_votes(sv.votes[k].1)),
                vote_states.wf(),
                vote_map_view(vote_states@) == folded(rv.subrange(0, i as int)),
            decreases state.vote_states@.len() - i,
        {
            let key = state.vote_states[i].0.clone();
            let pairs = &state.vote_states[i].1;
            let ghost pv = saved_pairs_view(pairs@);
            let mut list: Vec<(String, Vote)> = Vec::new();
            let mut j: usize = 0;
            while j < pairs.len()
                invariant
                    j <= pairs@.len(),
                    pv == saved_pairs_view(pairs@),
                    vote_list_view(list@) == restored_votes(pv.subrange(0, j as int)),
                decreases pairs@.len() - j,
            {
                let name = pairs[j].0.clone();
                let vote = deserialize_vote(pairs[j].1.as_str());
                let ghost before = vote_list_view(list@);
                assert(pv[j as int] == (pairs@[j as int].0@, pairs@[j as int].1@));
                list.push((name, vote));
                assert(vote_list_view(list@) =~= before.push((pv[j as int].0, vote_from_name(pv[j as int].1))));
                assert(pv.subrange(0, j + 1).drop_last() =~= pv.subrange(0, j as int));
                assert(vote_list_view(list@) =~= restored_votes(pv.subrange(0, j + 1)));
                j = j + 1;
            }
            assert(pv.subrange(0, pv.len() as int) =~= pv);
            let ghost before = vote_states@;
            assert(rv.subrange(0, i + 1).drop_last() =~= rv.subrange(0, i as int));
            vote_states.insert(key, list);
            assert(vote_map_view(vote_states@) =~= vote_map_view(before).insert(rv[i as int].0, rv[i as int].1));
            i = i + 1;
        }
        assert(rv.subrange(0, rv.len() as int) =~= rv);
        let r = ChangeTracker { known_prs: known, pr_meta, vote_states };
        assert(r@.known == dedup(sv.known));
        r
    }

    /// The state to save: what `restore` reads back as this tracker.
    pub fn saved_state(&self) -> (r: SavedTrackerState)
        requires
            self.wf(),
        ensures
            r@ == self.saved_view(),
            restored(r@) == self@,
    {
        let known = crate::model::clone_strings(&self.known_prs);
        let entries = self.pr_meta.entries();
        let mut meta: Vec<(String, PrMeta)> = Vec::new();
        let mut i: usize = 0;
        while i < entries.len()
            invariant
                i <= entries@.len(),
                meta@ == entries@.subrange(0, i as int),
            decreases entries@.len() - i,
        {
            meta.push((entries[i].0.clone(), entries[i].1.clone()));
            i = i + 1;
            assert(meta@ =~= entries@.subrange(0, i as int));
        }
        assert(entries@.subrange(0, entries@.len() as int) =~= entries@);
        let ventries = self.vote_states.entries();
        let mut votes: Vec<(String, Vec<(String, String)>)> = Vec::new();
        let mut i: usize = 0;
        while i < ventries.len()
            invariant
                i <= ventries@.len(),
                votes@.len() == i,
                forall|k: int| 0 <= k < i ==> #[trigger] votes@[k].0 == ventries@[k].0
                    && saved_pairs_view(votes@[k].1@) == saved_votes(vote_list_view(ventries@[k].1@)),
            decreases ventries@.len() - i,
        {
            let list = &ventries[i].1;
            let ghost lv = vote_list_view(list@);
            let mut pairs: Vec<(String, String)> = Vec::new();
            let mut j: usize = 0;
            while j < list.len()
                invariant
                    j <= list@.len(),
                    lv == vote_list_view(list@),
                    saved_pairs_view(pairs@) == saved_votes(lv.subrange(0, j as int)),
                decreases list@.len() - j,
            {
                let ghost before = saved_pairs_view(pairs@);
                let name = list[j].0.clone();
                let saved = serialize_vote(&list[j].1);
                assert(lv[j as int] == (list@[j as int].0@, list@[j as int].1));
                pairs.push((name, saved));
                assert(saved_pairs_view(pairs@) =~= before.push((lv[j as int].0, vote_name(lv[j as int].1))));
                assert(lv.subrange(0, j + 1).drop_last() =~= lv.subrange(0, j as int));
                assert(saved_pairs_view(pairs@) =~= saved_votes(lv.subrange(0, j + 1)));
                j = j + 1;
            }
            assert(lv.subrange(0, lv.len() as int) =~= lv);
            votes.push((ventries[i].0.clone(), pairs));
            i = i + 1;
        }
        let r = SavedTrackerState { known_prs: known, pr_meta: meta, vote_states: votes };
        assert(r@.votes =~= self.saved_view().votes);
        assert(r@.meta =~= self.saved_view().meta);
        proof {
            self.lemma_restore_saved();
        }
        r
    }

    /// The saved form of this tracker: its keys, and its entries in the order
    /// it keeps them.
    pub closed spec fn saved_view(&self) -> SavedView {
        SavedView {
            known: strings_view(self.known_prs@),
            meta: self.pr_meta.entry_seq().map_values(|e: (String, PrMeta)| (e.0@, e.1@)),
            votes: self.vote_states.entry_seq().map_values(
                |e: (String, Vec<(String, Vote)>)| (e.0@, saved_votes(vote_list_view(e.1@))),
            ),
        }
    }

    /// Restoring what a tracker saves gives back that tracker.
    pub proof fn lemma_restore_saved(&self)
        requires
            self.wf(),
        ensures
            restored(self.saved_view()) == self@,
    {
        let sv = self.saved_view();
        lemma_dedup_of_distinct(sv.known);
        self.pr_meta.lemma_entries();
        self.vote_states.lemma_entries();
        lemma_folded_entries(self.pr_meta.entry_seq(), |m: PrMeta| m@);
        assert(sv.meta =~= self.pr_meta.entry_seq().map_values(
            |e: (String, PrMeta)| (e.0@, (|m: PrMeta| m@)(e.1)),
        ));
        assert(folded(sv.meta) =~= meta_map_view(self.pr_meta@));
        let vf = |l: Vec<(String, Vote)>| vote_list_view(l@);
        lemma_folded_entries(self.vote_states.entry_seq(), vf);
        let rv = sv.votes.map_values(
            |e: (Seq<char>, Seq<(Seq<char>, Seq<char>)>)| (e.0, restored_votes(e.1)),
        );
        assert forall|k: int| 0 <= k < rv.len() implies #[trigger] rv[k] == (
            self.vote_states.entry_seq()[k].0@,
            vf(self.vote_states.entry_seq()[k].1),
        ) by {
            let l = vote_list_view(self.vote_states.entry_seq()[k].1@);
            lemma_votes_round_trip(l);
        }
        assert(rv =~= self.vote_states.entry_seq().map_values(
            |e: (String, Vec<(String, Vote)>)| (e.0@, vf(e.1)),
        ));
        assert(folded(rv) =~= vote_map_view(self.vote_states@));
    }
}

/// Reading back saved votes gives the votes.
pub proof fn lemma_votes_round_trip(v: VoteList)
    ensures
        restored_votes(saved_votes(v)) == v,
{
    assert forall|i: int| 0 <= i < v.len() implies #[trigger] restored_votes(saved_votes(v))[i] == v[i] by {
        lemma_vote_round_trip(v[i].1);
    }
    assert(restored_votes(saved_votes(v)) =~= v);
}

/// A list without repeats is its own `dedup`.
pub proof fn lemma_dedup_of_distinct(s: Seq<Seq<char>>)
    requires
        s.no_duplicates(),
    ensures
        dedup(s) == s,
    decreases s.len(),
{
    if s.len() > 0 {
        let t = s.drop_last();
        assert(t.no_duplicates());
        lemma_dedup_of_distinct(t);
        lemma_dedup_distinct(t);
        assert(!t.contains(s.last())) by {
            if t.contains(s.last()) {
                let i = choose|i: int| 0 <= i < t.len() && t[i] == s.last();
                assert(s[i] == s[s.len() - 1]);
            }
        }
        assert(t.push(s.last()) =~= s);
    }
}

/// Folding the entries of a list with distinct keys, each value mapped by `f`,
/// gives the list's map with its values mapped by `f`.
pub proof fn lemma_folded_entries<T, U>(s: Seq<(String, T)>, f: spec_fn(T) -> U)
    requires
        distinct_keys(s),
    ensures
        folded(s.map_values(|e: (String, T)| (e.0@, f(e.1)))) == Map::new(
            |k: Seq<char>| map_of(s).dom().contains(k),
            |k: Seq<char>| f(map_of(s)[k]),
        ),
    decreases s.len(),
{
    let fs = s.map_values(|e: (String, T)| (e.0@, f(e.1)));
    let target = Map::new(
        |k: Seq<char>| map_of(s).dom().contains(k),
        |k: Seq<char>| f(map_of(s)[k]),
    );
    if s.len() == 0 {
        assert forall|k: Seq<char>| !map_of(s).dom().contains(k) by {}
        assert(folded(fs) =~= target);
    } else {
        let t = s.drop_last();
        assert(distinct_keys(t));
        lemma_folded_entries(t, f);
        lemma_map_of_last(s);
        assert(fs.drop_last() =~= t.map_values(|e: (String, T)| (e.0@, f(e.1))));
        assert(folded(fs) =~= target);
    }
}

/// The keys that `dedup` keeps appear once each, and are exactly the keys of
/// the list.
pub proof fn lemma_dedup_distinct(s: Seq<Seq<char>>)
    ensures
        dedup(s).no_duplicates(),
        forall|k: Seq<char>| dedup(s).contains(k) <==> s.contains(k),
    decreases s.len(),
{
    if s.len() > 0 {
        let t = s.drop_last();
        let last = s.last();
        lemma_dedup_distinct(t);
        let d = dedup(t);
        assert forall|k: Seq<char>| s.contains(k) <==> (t.contains(k) || k == last) by {
            if s.contains(k) {
                let i = choose|i: int| 0 <= i < s.len() && s[i] == k;
                if i < s.len() - 1 {
                    assert(t[i] == k);
                }
            }
            if t.contains(k) {
                let i = choose|i: int| 0 <= i < t.len() && t[i] == k;
                assert(s[i] == k);
            }
            if k == last {
                assert(s[s.len() - 1] == k);
            }
        }
        if !d.contains(last) {
            let e = d.push(last);
            assert(e[d.len() as int] == last);
            assert forall|k: Seq<char>| e.contains(k) <==> (d.contains(k) || k == last) by {
                if e.contains(k) {
                    let i = choose|i: int| 0 <= i < e.len() && e[i] == k;
                    if i < d.len() {
                        assert(d[i] == k);
                    }
                }
                if d.contains(k) {
                    let i = choose|i: int| 0 <= i < d.len() && d[i] == k;
                    assert(e[i] == k);
                }
            }
            assert forall|i: int, j: int| 0 <= i < e.len() && 0 <= j < e.len() && i != j implies e[i]
                != e[j] by {
                if i < d.len() && j < d.len() {
                } else if i == d.len() {
                    assert(e[j] == d[j]);
                } else {
                    assert(e[i] == d[i]);
                }
            }
        }
    }
}

// ---------------------------------------------------------------------------
// Laws
// ---------------------------------------------------------------------------

/// No two pull requests of the poll share a tracking key.
pub open spec fn distinct_pr_keys(prs: Seq<PullRequest>) -> bool {
    forall|i: int, j: int|
        0 <= i < prs.len() && 0 <= j < prs.len() && i != j ==> pr_key_text(prs[i].id) != pr_key_text(
            prs[j].id,
        )
}

/// No two voters of the pull request share a display name.
pub open spec fn distinct_reviewer_names(pr: PullRequest) -> bool {
    forall|i: int, j: int|
        0 <= i < pr.reviewers@.len() && 0 <= j < pr.reviewers@.len() && i != j
            ==> pr.reviewers@[i].user.display_name@ != pr.reviewers@[j].user.display_name@
}

proof fn lemma_first_vote_for_distinct(prev: VoteList, i: int)
    requires
        0 <= i < prev.len(),
        forall|a: int, b: int| 0 <= a < prev.len() && 0 <= b < prev.len() && a != b ==> prev[a].0 != prev[b].0,
    ensures
        first_vote_for(prev, prev[i].0) == Some(prev[i].1),
    decreases prev.len(),
{
    if i > 0 {
        let rest = prev.drop_first();
        assert(prev[0].0 != prev[i].0);
        assert(rest[i - 1] == prev[i]);
        lemma_first_vote_for_distinct(rest, i - 1);
    }
}

proof fn lemma_same_votes_no_change(cur: VoteList, n: int, title: Seq<char>, url: Seq<char>)
    requires
        0 <= n <= cur.len(),
        forall|a: int, b: int| 0 <= a < cur.len() && 0 <= b < cur.len() && a != b ==> cur[a].0 != cur[b].0,
    ensures
        vote_changes(cur, cur.subrange(0, n), title, url) == Seq::<ChangeView>::empty(),
    decreases n,
{
    if n > 0 {
        let c = cur.subrange(0, n);
        assert(c.drop_last() =~= cur.subrange(0, n - 1));
        lemma_same_votes_no_change(cur, n - 1, title, url);
        lemma_first_vote_for_distinct(cur, n - 1);
        assert(c.last() == cur[n - 1]);
    }
}

proof fn lemma_gone_pass_keeps_all(known: Seq<Seq<char>>, current: Set<Seq<char>>, start: Pass)
    requires
        forall|i: int| 0 <= i < known.len() ==> current.contains(#[trigger] known[i]),
    ensures
        gone_pass(known, current, start) == start,
    decreases known.len(),
{
    if known.len() > 0 {
        let t = known.drop_last();
        assert forall|i: int| 0 <= i < t.len() implies current.contains(#[trigger] t[i]) by {
            assert(t[i] == known[i]);
        }
        lemma_gone_pass_keeps_all(t, current, start);
        assert(current.contains(known[known.len() - 1]));
    }
}

/// After a pass over the first `n` pull requests (with distinct keys), each of
/// them has its current votes remembered.
proof fn lemma_pr_pass_remembers_votes(
    known: Set<Seq<char>>,
    prs: Seq<PullRequest>,
    n: int,
    start: Pass,
)
    requires
        0 <= n <= prs.len(),
        distinct_pr_keys(prs),
    ensures
        forall|j: int|
            0 <= j < n ==> pr_pass(known, prs.subrange(0, n), start).votes.dom().contains(
                pr_key_text(#[trigger] prs[j].id),
            ) && pr_pass(known, prs.subrange(0, n), start).votes[pr_key_text(prs[j].id)]
                == current_votes(prs[j]),
    decreases n,
{
    if n > 0 {
        let ps = prs.subrange(0, n);
        assert(ps.drop_last() =~= prs.subrange(0, n - 1));
        assert(ps.last() == prs[n - 1]);
        lemma_pr_pass_remembers_votes(known, prs, n - 1, start);
        assert forall|j: int| 0 <= j < n implies pr_pass(known, ps, start).votes.dom().contains(
            pr_key_text(#[trigger] prs[j].id),
        ) && pr_pass(known, ps, start).votes[pr_key_text(prs[j].id)] == current_votes(prs[j]) by {
            if j < n - 1 {
                assert(pr_key_text(prs[j].id) != pr_key_text(prs[n - 1].id));
            }
        }
    }
}

/// During the second poll of the same pull requests, the first `n` steps report
/// nothing and leave the votes of the later pull requests as they were.
proof fn lemma_second_pass_quiet(
    known: Set<Seq<char>>,
    prs: Seq<PullRequest>,
    n: int,
    start: Pass,
)
    requires
        0 <= n <= prs.len(),
        distinct_pr_keys(prs),
        forall|i: int| 0 <= i < prs.len() ==> distinct_reviewer_names(#[trigger] prs[i]),
        forall|i: int| 0 <= i < prs.len() ==> known.contains(pr_key_text(#[trigger] prs[i].id)),
        start.changes == Seq::<ChangeView>::empty(),
        forall|j: int|
            0 <= j < prs.len() ==> start.votes.dom().contains(pr_key_text(#[trigger] prs[j].id))
                && start.votes[pr_key_text(prs[j].id)] == current_votes(prs[j]),
    ensures
        pr_pass(known, prs.subrange(0, n), start).changes == Seq::<ChangeView>::empty(),
        forall|j: int|
            n <= j < prs.len() ==> pr_pass(known, prs.subrange(0, n), start).votes.dom().contains(
                pr_key_text(#[trigger] prs[j].id),
            ) && pr_pass(known, prs.subrange(0, n), start).votes[pr_key_text(prs[j].id)]
                == current_votes(prs[j]),
    decreases n,
{
    if n > 0 {
        let ps = prs.subrange(0, n);
        assert(ps.drop_last() =~= prs.subrange(0, n - 1));
        let pr = prs[n - 1];
        assert(ps.last() == pr);
        lemma_second_pass_quiet(known, prs, n - 1, start);
        let p = pr_pass(known, prs.subrange(0, n - 1), start);
        let cur = current_votes(pr);
        assert(known.contains(pr_key_text(pr.id)));
        assert(distinct_reviewer_names(pr));
        assert forall|a: int, b: int|
            0 <= a < cur.len() && 0 <= b < cur.len() && a != b implies cur[a].0 != cur[b].0 by {
            assert(cur[a].0 == pr.reviewers@[a].user.display_name@);
            assert(cur[b].0 == pr.reviewers@[b].user.display_name@);
        }
        lemma_same_votes_no_change(cur, cur.len() as int, pr.title@, pr.web_url@);
        assert(cur.subrange(0, cur.len() as int) =~= cur);
        assert forall|j: int| n <= j < prs.len() implies pr_pass(known, ps, start).votes.dom().contains(
            pr_key_text(#[trigger] prs[j].id),
        ) && pr_pass(known, ps, start).votes[pr_key_text(prs[j].id)] == current_votes(prs[j]) by {
            assert(pr_key_text(prs[j].id) != pr_key_text(prs[n - 1].id));
        }
    }
}

/// Polling the same pull requests twice in a row reports nothing the second
/// time: no pull request is new, none is gone, and no vote has changed. This
/// is what keeps a restart or a re-initialisation from repeating notifications.
/// It needs each pull request once in the poll, and each voter name once
/// per pull request.
pub proof fn lemma_repeated_poll_is_quiet(t: TrackerView, prs: Seq<PullRequest>)
    requires
        distinct_pr_keys(prs),
        forall|i: int| 0 <= i < prs.len() ==> distinct_reviewer_names(#[trigger] prs[i]),
    ensures
        detect_changes_spec(detect_state(t, prs), prs) == Seq::<ChangeView>::empty(),
{
    let keys = prs.map_values(|pr: PullRequest| pr_key_text(pr.id));
    lemma_dedup_distinct(keys);
    let t1 = detect_state(t, prs);
    let first = detect_pass(t, prs);
    let current = poll_keys(prs);
    let p1 = gone_pass(t.known, current.to_set(), Pass { meta: t.meta, votes: t.votes, changes: seq![] });
    assert(prs.subrange(0, prs.len() as int) =~= prs);
    lemma_pr_pass_remembers_votes(t.known.to_set(), prs, prs.len() as int, p1);
    // Second poll: nothing is gone.
    assert forall|i: int| 0 <= i < t1.known.len() implies current.to_set().contains(
        #[trigger] t1.known[i],
    ) by {
        assert(current.contains(t1.known[i]));
    }
    let start2 = Pass { meta: t1.meta, votes: t1.votes, changes: seq![] };
    lemma_gone_pass_keeps_all(t1.known, current.to_set(), start2);
    assert forall|i: int| 0 <= i < prs.len() implies t1.known.to_set().contains(
        pr_key_text(#[trigger] prs[i].id),
    ) by {
        assert(keys[i] == pr_key_text(prs[i].id));
        assert(keys.contains(keys[i]));
    }
    lemma_second_pass_quiet(t1.known.to_set(), prs, prs.len() as int, start2);
}

/// A tracker saved after a poll and restored, as on a restart, reports
/// nothing for the same poll: no notification is repeated. It needs the
/// same conditions on the poll as `lemma_repeated_poll_is_quiet`.
pub proof fn lemma_restart_is_quiet(t: &ChangeTracker, before: TrackerView, prs: Seq<PullRequest>)
    requires
        t.wf(),
        t@ == detect_state(before, prs),
        distinct_pr_keys(prs),
        forall|i: int| 0 <= i < prs.len() ==> distinct_reviewer_names(#[trigger] prs[i]),
    ensures
        detect_changes_spec(restored(t.saved_view()), prs) == Seq::<ChangeView>::empty(),
{
    t.lemma_restore_saved();
    lemma_repeated_poll_is_quiet(before, prs);
}

/// After a poll the tracker knows exactly the poll's pull requests, each once.
pub proof fn lemma_known_after_poll(t: TrackerView, prs: Seq<PullRequest>)
    ensures
        detect_state(t, prs).known.no_duplicates(),
        forall|k: Seq<char>|
            detect_state(t, prs).known.contains(k) <==> exists|i: int|
                0 <= i < prs.len() && #[trigger] pr_key_text(prs[i].id) == k,
{
    let keys = prs.map_values(|pr: PullRequest| pr_key_text(pr.id));
    lemma_dedup_distinct(keys);
    assert forall|k: Seq<char>|
        detect_state(t, prs).known.contains(k) <==> exists|i: int|
            0 <= i < prs.len() && #[trigger] pr_key_text(prs[i].id) == k by {
        if keys.contains(k) {
            let i = choose|i: int| 0 <= i < keys.len() && keys[i] == k;
            assert(pr_key_text(prs[i].id) == k);
        }
        if exists|i: int| 0 <= i < prs.len() && #[trigger] pr_key_text(prs[i].id) == k {
            let i = choose|i: int| 0 <= i < prs.len() && #[trigger] pr_key_text(prs[i].id) == k;
            assert(keys[i] == k);
        }
    }
}

proof fn lemma_step_keeps(known: Set<Seq<char>>, p: Pass, pr: PullRequest, c: ChangeView)
    requires
        p.changes.contains(c),
    ensures
        pr_step(known, p, pr).changes.contains(c),
{
    let k = pr_key_text(pr.id);
    let i = choose|i: int| 0 <= i < p.changes.len() && p.changes[i] == c;
    let c1 = if known.contains(k) {
        p.changes
    } else {
        p.changes.push(new_pr_change(pr))
    };
    assert(c1[i] == c);
    if p.votes.dom().contains(k) {
        let c2 = c1 + vote_changes(p.votes[k], current_votes(pr), pr.title@, pr.web_url@);
        assert(c2[i] == c);
    }
}

proof fn lemma_pr_pass_keeps(known: Set<Seq<char>>, prs: Seq<PullRequest>, start: Pass, c: ChangeView)
    requires
        start.changes.contains(c),
    ensures
        pr_pass(known, prs, start).changes.contains(c),
    decreases prs.len(),
{
    if prs.len() > 0 {
        lemma_pr_pass_keeps(known, prs.drop_last(), start, c);
        lemma_step_keeps(known, pr_pass(known, prs.drop_last(), start), prs.last(), c);
    }
}

proof fn lemma_new_prs_reported(known: Set<Seq<char>>, prs: Seq<PullRequest>, start: Pass, n: int)
    requires
        0 <= n <= prs.len(),
    ensures
        forall|j: int|
            0 <= j < n && !known.contains(pr_key_text(prs[j].id)) ==> pr_pass(
                known,
                prs.subrange(0, n),
                start,
            ).changes.contains(new_pr_change(#[trigger] prs[j])),
    decreases n,
{
    if n > 0 {
        let ps = prs.subrange(0, n);
        assert(ps.drop_last() =~= prs.subrange(0, n - 1));
        assert(ps.last() == prs[n - 1]);
        lemma_new_prs_reported(known, prs, start, n - 1);
        let p = pr_pass(known, prs.subrange(0, n - 1), start);
        assert forall|j: int|
            0 <= j < n && !known.contains(pr_key_text(prs[j].id)) implies pr_pass(
            known,
            ps,
            start,
        ).changes.contains(new_pr_change(#[trigger] prs[j])) by {
            if j < n - 1 {
                lemma_step_keeps(known, p, prs[n - 1], new_pr_change(prs[j]));
            } else {
                let c1 = p.changes.push(new_pr_change(prs[j]));
                assert(c1[p.changes.len() as int] == new_pr_change(prs[j]));
                lemma_step_keeps(
                    known,
                    Pass { meta: p.meta, votes: p.votes, changes: c1 },
                    prs[j],
                    new_pr_change(prs[j]),
                );
                let k = pr_key_text(prs[j].id);
                if p.votes.dom().contains(k) {
                    let c2 = c1 + vote_changes(p.votes[k], current_votes(prs[j]), prs[j].title@, prs[j].web_url@);
                    assert(c2[p.changes.len() as int] == new_pr_change(prs[j]));
                }
            }
        }
    }
}

/// Every pull request of a poll whose key the tracker did not know is
/// reported as a new pull request.
pub proof fn lemma_new_pr_reported(t: TrackerView, prs: Seq<PullRequest>, i: int)
    requires
        0 <= i < prs.len(),
        !t.known.contains(pr_key_text(prs[i].id)),
    ensures
        detect_changes_spec(t, prs).contains(new_pr_change(prs[i])),
{
    let current = poll_keys(prs);
    let p1 = gone_pass(t.known, current.to_set(), Pass { meta: t.meta, votes: t.votes, changes: seq![] });
    lemma_new_prs_reported(t.known.to_set(), prs, p1, prs.len() as int);
    assert(prs.subrange(0, prs.len() as int) =~= prs);
}

proof fn lemma_gone_pass_untouched(known: Seq<Seq<char>>, current: Set<Seq<char>>, start: Pass, k: Seq<char>)
    requires
        !known.contains(k),
    ensures
        gone_pass(known, current, start).meta.dom().contains(k) == start.meta.dom().contains(k),
        start.meta.dom().contains(k) ==> gone_pass(known, current, start).meta[k] == start.meta[k],
    decreases known.len(),
{
    if known.len() > 0 {
        let t = known.drop_last();
        if t.contains(k) {
            let i = choose|i: int| 0 <= i < t.len() && t[i] == k;
            assert(known[i] == k);
        }
        assert(known[known.len() - 1] != k);
        lemma_gone_pass_untouched(t, current, start, k);
    }
}

proof fn lemma_gone_pass_keeps(known: Seq<Seq<char>>, current: Set<Seq<char>>, start: Pass, c: ChangeView)
    requires
        start.changes.contains(c),
    ensures
        gone_pass(known, current, start).changes.contains(c),
    decreases known.len(),
{
    if known.len() > 0 {
        lemma_gone_pass_keeps(known.drop_last(), current, start, c);
        let p = gone_pass(known.drop_last(), current, start);
        let i = choose|i: int| 0 <= i < p.changes.len() && p.changes[i] == c;
        let k = known.last();
        if !current.contains(k) && p.meta.dom().contains(k) {
            assert(p.changes.push(completed_change(p.meta[k]))[i] == c);
        }
    }
}

proof fn lemma_gone_reported(known: Seq<Seq<char>>, current: Set<Seq<char>>, start: Pass, i: int)
    requires
        known.no_duplicates(),
        0 <= i < known.len(),
        !current.contains(known[i]),
        start.meta.dom().contains(known[i]),
    ensures
        gone_pass(known, current, start).changes.contains(completed_change(start.meta[known[i]])),
    decreases known.len(),
{
    let t = known.drop_last();
    let k = known[i];
    if i < known.len() - 1 {
        assert(t[i] == k);
        assert(t.no_duplicates());
        lemma_gone_reported(t, current, start, i);
        let p = gone_pass(t, current, start);
        let last = known.last();
        if !current.contains(last) && p.meta.dom().contains(last) {
            let j = choose|j: int| 0 <= j < p.changes.len() && p.changes[j] == completed_change(start.meta[k]);
            assert(p.changes.push(completed_change(p.meta[last]))[j] == completed_change(start.meta[k]));
        }
    } else {
        assert(!t.contains(k)) by {
            if t.contains(k) {
                let j = choose|j: int| 0 <= j < t.len() && t[j] == k;
                assert(known[j] == k);
            }
        }
        lemma_gone_pass_untouched(t, current, start, k);
        let p = gone_pass(t, current, start);
        assert(p.changes.push(completed_change(p.meta[k]))[p.changes.len() as int] == completed_change(
            start.meta[k],
        ));
    }
}

/// A pull request that the tracker knew and whose details it remembers, and
/// that the poll no longer shows, is reported as completed with those details.
pub proof fn lemma_gone_pr_reported(t: TrackerView, prs: Seq<PullRequest>, k: Seq<char>)
    requires
        t.known.no_duplicates(),
        t.known.contains(k),
        t.meta.dom().contains(k),
        forall|i: int| 0 <= i < prs.len() ==> pr_key_text(#[trigger] prs[i].id) != k,
    ensures
        detect_changes_spec(t, prs).contains(completed_change(t.meta[k])),
{
    let keys = prs.map_values(|pr: PullRequest| pr_key_text(pr.id));
    lemma_dedup_distinct(keys);
    let current = poll_keys(prs);
    assert(!current.to_set().contains(k)) by {
        if keys.contains(k) {
            let i = choose|i: int| 0 <= i < keys.len() && keys[i] == k;
            assert(pr_key_text(prs[i].id) == k);
        }
    }
    let i = choose|i: int| 0 <= i < t.known.len() && t.known[i] == k;
    let start = Pass { meta: t.meta, votes: t.votes, changes: seq![] };
    lemma_gone_reported(t.known, current.to_set(), start, i);
    let p1 = gone_pass(t.known, current.to_set(), start);
    lemma_pr_pass_keeps(t.known.to_set(), prs, p1, completed_change(t.meta[k]));
}


// ---------------------------------------------------------------------------
// Two polls in a row
// ---------------------------------------------------------------------------

/// The tracking keys of a poll, in its order.
pub open spec fn poll_key_seq(p: Seq<PullRequest>) -> Seq<Seq<char>> {
    p.map_values(|pr: PullRequest| pr_key_text(pr.id))
}

/// The details a poll shows, by key (a later pull request with the same key wins).
pub open spec fn poll_meta(p: Seq<PullRequest>) -> Map<Seq<char>, MetaView>
    decreases p.len(),
{
    if p.len() == 0 {
        Map::empty()
    } else {
        poll_meta(p.drop_last()).insert(pr_key_text(p.last().id), meta_of(p.last()))
    }
}

/// The votes a poll shows, by key (a later pull request with the same key wins).
pub open spec fn poll_votes(p: Seq<PullRequest>) -> Map<Seq<char>, VoteList>
    decreases p.len(),
{
    if p.len() == 0 {
        Map::empty()
    } else {
        poll_votes(p.drop_last()).insert(pr_key_text(p.last().id), current_votes(p.last()))
    }
}

/// A completed change for each pull request of `p`, in order, whose key is
/// not in `current`, with the details it had in `p`.
pub open spec fn completed_after(p: Seq<PullRequest>, current: Set<Seq<char>>) -> Seq<ChangeView>
    decreases p.len(),
{
    if p.len() == 0 {
        seq![]
    } else {
        completed_after(p.drop_last(), current) + if current.contains(pr_key_text(p.last().id)) {
            seq![]
        } else {
            seq![completed_change(meta_of(p.last()))]
        }
    }
}

/// What one pull request of the second poll `q` reports after the poll `p`:
/// a new pull request when `p` did not show its key, else the changes of its
/// votes against the votes `p` showed for it.
pub open spec fn change_after(p: Seq<PullRequest>, pr: PullRequest) -> Seq<ChangeView> {
    let k = pr_key_text(pr.id);
    if poll_key_seq(p).contains(k) {
        vote_changes(poll_votes(p)[k], current_votes(pr), pr.title@, pr.web_url@)
    } else {
        seq![new_pr_change(pr)]
    }
}

/// What the pull requests of `q` report after the poll `p`, in `q`'s order.
pub open spec fn changes_after(p: Seq<PullRequest>, q: Seq<PullRequest>) -> Seq<ChangeView>
    decreases q.len(),
{
    if q.len() == 0 {
        seq![]
    } else {
        changes_after(p, q.drop_last()) + change_after(p, q.last())
    }
}

/// The tracker remembers details and votes only of keys it knows.
pub open spec fn memory_within_known(t: TrackerView) -> bool {
    &&& forall|k: Seq<char>| #[trigger] t.meta.dom().contains(k) ==> t.known.contains(k)
    &&& forall|k: Seq<char>| #[trigger] t.votes.dom().contains(k) ==> t.known.contains(k)
}

proof fn lemma_poll_maps(p: Seq<PullRequest>)
    requires
        distinct_pr_keys(p),
    ensures
        forall|k: Seq<char>| #[trigger] poll_meta(p).dom().contains(k) <==> poll_key_seq(p).contains(k),
        forall|k: Seq<char>| #[trigger] poll_votes(p).dom().contains(k) <==> poll_key_seq(p).contains(k),
        forall|j: int| 0 <= j < p.len() ==> poll_meta(p)[pr_key_text(#[trigger] p[j].id)] == meta_of(p[j])
            && poll_votes(p)[pr_key_text(p[j].id)] == current_votes(p[j]),
    decreases p.len(),
{
    if p.len() > 0 {
        let t = p.drop_last();
        assert(distinct_pr_keys(t)) by {
            assert forall|i: int, j: int| 0 <= i < t.len() && 0 <= j < t.len() && i != j implies pr_key_text(
                t[i].id,
            ) != pr_key_text(t[j].id) by {
                assert(t[i] == p[i] && t[j] == p[j]);
            }
        }
        lemma_poll_maps(t);
        let last = pr_key_text(p.last().id);
        assert forall|k: Seq<char>| poll_key_seq(p).contains(k) <==> (poll_key_seq(t).contains(k) || k == last) by {
            if poll_key_seq(p).contains(k) {
                let i = choose|i: int| 0 <= i < poll_key_seq(p).len() && poll_key_seq(p)[i] == k;
                if i < t.len() {
                    assert(poll_key_seq(t)[i] == k);
                }
            }
            if poll_key_seq(t).contains(k) {
                let i = choose|i: int| 0 <= i < poll_key_seq(t).len() && poll_key_seq(t)[i] == k;
                assert(poll_key_seq(p)[i] == k);
            }
            if k == last {
                assert(poll_key_seq(p)[p.len() - 1] == k);
            }
        }
        assert forall|j: int| 0 <= j < p.len() implies poll_meta(p)[pr_key_text(#[trigger] p[j].id)] == meta_of(p[j])
            && poll_votes(p)[pr_key_text(p[j].id)] == current_votes(p[j]) by {
            if j < p.len() - 1 {
                assert(t[j] == p[j]);
                assert(pr_key_text(p[j].id) != last);
            }
        }
    }
}

proof fn lemma_pr_pass_maps(known: Set<Seq<char>>, q: Seq<PullRequest>, start: Pass)
    ensures
        pr_pass(known, q, start).meta == start.meta.union_prefer_right(poll_meta(q)),
        pr_pass(known, q, start).votes == start.votes.union_prefer_right(poll_votes(q)),
    decreases q.len(),
{
    if q.len() == 0 {
        assert(start.meta.union_prefer_right(poll_meta(q)) =~= start.meta);
        assert(start.votes.union_prefer_right(poll_votes(q)) =~= start.votes);
    } else {
        lemma_pr_pass_maps(known, q.drop_last(), start);
        let k = pr_key_text(q.last().id);
        assert(start.meta.union_prefer_right(poll_meta(q.drop_last())).insert(k, meta_of(q.last()))
            =~= start.meta.union_prefer_right(poll_meta(q)));
        assert(start.votes.union_prefer_right(poll_votes(q.drop_last())).insert(k, current_votes(q.last()))
            =~= start.votes.union_prefer_right(poll_votes(q)));
    }
}

proof fn lemma_gone_pass_maps(known: Seq<Seq<char>>, current: Set<Seq<char>>, start: Pass)
    ensures
        forall|k: Seq<char>| #[trigger] gone_pass(known, current, start).meta.dom().contains(k) <==> (
            start.meta.dom().contains(k) && (current.contains(k) || !known.contains(k))),
        forall|k: Seq<char>| #[trigger] gone_pass(known, current, start).meta.dom().contains(k)
            ==> gone_pass(known, current, start).meta[k] == start.meta[k],
        forall|k: Seq<char>| #[trigger] gone_pass(known, current, start).votes.dom().contains(k) <==> (
            start.votes.dom().contains(k) && (current.contains(k) || !known.contains(k))),
        forall|k: Seq<char>| #[trigger] gone_pass(known, current, start).votes.dom().contains(k)
            ==> gone_pass(known, current, start).votes[k] == start.votes[k],
    decreases known.len(),
{
    if known.len() > 0 {
        let t = known.drop_last();
        lemma_gone_pass_maps(t, current, start);
        let p0 = gone_pass(t, current, start);
        let k0 = known.last();
        let g = gone_pass(known, current, start);
        assert forall|k: Seq<char>| known.contains(k) <==> (t.contains(k) || k == k0) by {
            if known.contains(k) {
                let i = choose|i: int| 0 <= i < known.len() && known[i] == k;
                if i < t.len() {
                    assert(t[i] == k);
                }
            }
            if t.contains(k) {
                let i = choose|i: int| 0 <= i < t.len() && t[i] == k;
                assert(known[i] == k);
            }
            if k == known.last() {
                assert(known[known.len() - 1] == k);
            }
        }
        assert forall|k: Seq<char>| #[trigger] g.meta.dom().contains(k) <==> (
            start.meta.dom().contains(k) && (current.contains(k) || !known.contains(k))) by {
            assert(p0.meta.dom().contains(k) <==> (start.meta.dom().contains(k) && (current.contains(k)
                || !t.contains(k))));
        }
        assert forall|k: Seq<char>| #[trigger] g.meta.dom().contains(k) implies g.meta[k] == start.meta[k] by {
            assert(p0.meta.dom().contains(k));
        }
        assert forall|k: Seq<char>| #[trigger] g.votes.dom().contains(k) <==> (
            start.votes.dom().contains(k) && (current.contains(k) || !known.contains(k))) by {
            assert(p0.votes.dom().contains(k) <==> (start.votes.dom().contains(k) && (current.contains(k)
                || !t.contains(k))));
        }
        assert forall|k: Seq<char>| #[trigger] g.votes.dom().contains(k) implies g.votes[k] == start.votes[k] by {
            assert(p0.votes.dom().contains(k));
        }
    }
}

proof fn lemma_completed_prefix(p: Seq<PullRequest>, current: Set<Seq<char>>, start: Pass, n: int)
    requires
        distinct_pr_keys(p),
        0 <= n <= p.len(),
        forall|j: int| 0 <= j < p.len() ==> start.meta.dom().contains(pr_key_text(#[trigger] p[j].id))
            && start.meta[pr_key_text(p[j].id)] == meta_of(p[j]),
    ensures
        gone_pass(poll_key_seq(p.subrange(0, n)), current, start).changes == start.changes
            + completed_after(p.subrange(0, n), current),
    decreases n,
{
    let ps = p.subrange(0, n);
    if n == 0 {
        assert(start.changes + completed_after(ps, current) =~= start.changes);
    } else {
        let prev = p.subrange(0, n - 1);
        assert(ps.drop_last() =~= prev);
        assert(poll_key_seq(ps).drop_last() =~= poll_key_seq(prev));
        lemma_completed_prefix(p, current, start, n - 1);
        let k = pr_key_text(p[n - 1].id);
        assert(poll_key_seq(ps).last() == k);
        lemma_gone_pass_maps(poll_key_seq(prev), current, start);
        assert(!poll_key_seq(prev).contains(k)) by {
            if poll_key_seq(prev).contains(k) {
                let i = choose|i: int| 0 <= i < poll_key_seq(prev).len() && poll_key_seq(prev)[i] == k;
                assert(prev[i] == p[i]);
            }
        }
        assert(start.meta.dom().contains(pr_key_text(p[n - 1].id)));
        let g = gone_pass(poll_key_seq(prev), current, start);
        if !current.contains(k) {
            assert(g.meta.dom().contains(k));
            assert(g.meta[k] == meta_of(p[n - 1]));
        }
        assert(ps.last() == p[n - 1]);
        assert(start.changes + completed_after(ps, current) =~= start.changes + completed_after(prev, current)
            + (if current.contains(k) { seq![] } else { seq![completed_change(meta_of(p[n - 1]))] }));
    }
}

proof fn lemma_changes_prefix(
    known: Set<Seq<char>>,
    p: Seq<PullRequest>,
    q: Seq<PullRequest>,
    start: Pass,
    n: int,
)
    requires
        distinct_pr_keys(q),
        0 <= n <= q.len(),
        forall|k: Seq<char>| known.contains(k) <==> poll_key_seq(p).contains(k),
        forall|j: int| 0 <= j < q.len() ==> (#[trigger] start.votes.dom().contains(pr_key_text(q[j].id))
            <==> poll_key_seq(p).contains(pr_key_text(q[j].id))),
        forall|j: int| 0 <= j < q.len() && start.votes.dom().contains(pr_key_text(#[trigger] q[j].id))
            ==> start.votes[pr_key_text(q[j].id)] == poll_votes(p)[pr_key_text(q[j].id)],
    ensures
        pr_pass(known, q.subrange(0, n), start).changes == start.changes + changes_after(p, q.subrange(0, n)),
    decreases n,
{
    let qs = q.subrange(0, n);
    if n == 0 {
        assert(start.changes + changes_after(p, qs) =~= start.changes);
    } else {
        let prev = q.subrange(0, n - 1);
        assert(qs.drop_last() =~= prev);
        assert(qs.last() == q[n - 1]);
        lemma_changes_prefix(known, p, q, start, n - 1);
        lemma_pr_pass_maps(known, prev, start);
        let pr = q[n - 1];
        let k = pr_key_text(pr.id);
        let before = pr_pass(known, prev, start);
        // The earlier pull requests of q hold other keys.
        assert(!poll_votes(prev).dom().contains(k)) by {
            lemma_poll_maps_dom(prev);
            if poll_key_seq(prev).contains(k) {
                let i = choose|i: int| 0 <= i < poll_key_seq(prev).len() && poll_key_seq(prev)[i] == k;
                assert(prev[i] == q[i]);
            }
        }
        assert(before.votes.dom().contains(k) == start.votes.dom().contains(k));
        if before.votes.dom().contains(k) {
            assert(before.votes[k] == start.votes[k]);
        }
        assert(start.changes + changes_after(p, qs) =~= start.changes + changes_after(p, prev) + change_after(p, pr));
    }
}

proof fn lemma_poll_maps_dom(p: Seq<PullRequest>)
    ensures
        forall|k: Seq<char>| #[trigger] poll_votes(p).dom().contains(k) <==> poll_key_seq(p).contains(k),
    decreases p.len(),
{
    if p.len() > 0 {
        let t = p.drop_last();
        lemma_poll_maps_dom(t);
        let last = pr_key_text(p.last().id);
        assert forall|k: Seq<char>| #[trigger] poll_votes(p).dom().contains(k) <==> (poll_votes(t).dom().contains(k)
            || k == last) by {}
        assert forall|k: Seq<char>| poll_key_seq(p).contains(k) <==> (poll_key_seq(t).contains(k) || k == last) by {
            if poll_key_seq(p).contains(k) {
                let i = choose|i: int| 0 <= i < poll_key_seq(p).len() && poll_key_seq(p)[i] == k;
                if i < t.len() {
                    assert(poll_key_seq(t)[i] == k);
                }
            }
            if poll_key_seq(t).contains(k) {
                let i = choose|i: int| 0 <= i < poll_key_seq(t).len() && poll_key_seq(t)[i] == k;
                assert(poll_key_seq(p)[i] == k);
            }
            if k == last {
                assert(poll_key_seq(p)[p.len() - 1] == k);
            }
        }
    }
}

/// After a poll with distinct keys, the tracker knows exactly that poll's
/// keys in order, with the details and votes the poll showed (provided it
/// remembered nothing of keys it did not know before).
pub proof fn lemma_state_after_poll(t: TrackerView, p: Seq<PullRequest>)
    requires
        memory_within_known(t),
        distinct_pr_keys(p),
    ensures
        detect_state(t, p) == (TrackerView { known: poll_key_seq(p), meta: poll_meta(p), votes: poll_votes(p) }),
{
    let keys = poll_key_seq(p);
    assert(keys.no_duplicates()) by {
        assert forall|i: int, j: int| 0 <= i < keys.len() && 0 <= j < keys.len() && i != j implies keys[i]
            != keys[j] by {}
    }
    lemma_dedup_of_distinct(keys);
    let current = poll_keys(p).to_set();
    let start = Pass { meta: t.meta, votes: t.votes, changes: seq![] };
    let g = gone_pass(t.known, current, start);
    lemma_gone_pass_maps(t.known, current, start);
    lemma_pr_pass_maps(t.known.to_set(), p, g);
    lemma_poll_maps(p);
    assert forall|k: Seq<char>| g.meta.dom().contains(k) implies poll_meta(p).dom().contains(k) by {
        assert(current.contains(k));
    }
    assert forall|k: Seq<char>| g.votes.dom().contains(k) implies poll_votes(p).dom().contains(k) by {
        assert(current.contains(k));
    }
    assert(g.meta.union_prefer_right(poll_meta(p)) =~= poll_meta(p));
    assert(g.votes.union_prefer_right(poll_votes(p)) =~= poll_votes(p));
}

/// Two polls in a row, each with distinct keys: the second reports, first,
/// one completed change for each pull request of the first poll that the
/// second no longer shows, in the first poll's order and with the details it
/// had then; then, for each pull request of the second poll in its order, a
/// new pull request where the first poll did not show its key, else the
/// changes of its votes against the votes the first poll showed for it. The
/// tracker must have remembered nothing of keys it did not know before the
/// first poll (as a new tracker, and any tracker after a poll).
pub proof fn lemma_second_poll_changes(t: TrackerView, p: Seq<PullRequest>, q: Seq<PullRequest>)
    requires
        memory_within_known(t),
        distinct_pr_keys(p),
        distinct_pr_keys(q),
    ensures
        detect_changes_spec(detect_state(t, p), q) == completed_after(p, poll_key_seq(q).to_set())
            + changes_after(p, q),
{
    lemma_state_after_poll(t, p);
    let t1 = detect_state(t, p);
    let kq = poll_key_seq(q);
    assert(kq.no_duplicates()) by {
        assert forall|i: int, j: int| 0 <= i < kq.len() && 0 <= j < kq.len() && i != j implies kq[i] != kq[j] by {}
    }
    lemma_dedup_of_distinct(kq);
    let current = kq.to_set();
    assert(poll_keys(q).to_set() == current);
    let start = Pass { meta: t1.meta, votes: t1.votes, changes: seq![] };
    lemma_poll_maps(p);
    assert forall|j: int| 0 <= j < p.len() implies start.meta.dom().contains(pr_key_text(#[trigger] p[j].id))
        && start.meta[pr_key_text(p[j].id)] == meta_of(p[j]) by {
        assert(poll_key_seq(p)[j] == pr_key_text(p[j].id));
    }
    assert(p.subrange(0, p.len() as int) =~= p);
    lemma_completed_prefix(p, current, start, p.len() as int);
    let g = gone_pass(t1.known, current, start);
    assert(g.changes == completed_after(p, current));
    lemma_gone_pass_maps(t1.known, current, start);
    assert forall|j: int| 0 <= j < q.len() implies (#[trigger] g.votes.dom().contains(pr_key_text(q[j].id))
        <==> poll_key_seq(p).contains(pr_key_text(q[j].id))) by {
        assert(kq[j] == pr_key_text(q[j].id));
        assert(current.contains(kq[j]));
    }
    assert(q.subrange(0, q.len() as int) =~= q);
    lemma_changes_prefix(t1.known.to_set(), p, q, g, q.len() as int);
}


proof fn lemma_first_vote_for_absent(prev: VoteList, name: Seq<char>)
    requires
        forall|i: int| 0 <= i < prev.len() ==> prev[i].0 != name,
    ensures
        first_vote_for(prev, name) is None,
    decreases prev.len(),
{
    if prev.len() > 0 {
        let rest = prev.drop_first();
        assert forall|i: int| 0 <= i < rest.len() implies rest[i].0 != name by {
            assert(rest[i] == prev[i + 1]);
        }
        lemma_first_vote_for_absent(rest, name);
    }
}

/// The vote rule for one voter, against remembered votes whose names are
/// distinct: a change is reported when the voter was remembered with another
/// vote, or was not remembered and has now voted; nothing otherwise.
pub proof fn lemma_vote_change_rule(
    prev: VoteList,
    name: Seq<char>,
    vote: Vote,
    pr_title: Seq<char>,
    web_url: Seq<char>,
)
    requires
        forall|a: int, b: int| 0 <= a < prev.len() && 0 <= b < prev.len() && a != b ==> prev[a].0 != prev[b].0,
    ensures
        vote_change(prev, (name, vote), pr_title, web_url) == if (exists|i: int|
            0 <= i < prev.len() && prev[i].0 == name && prev[i].1 != vote) || ((forall|i: int|
            0 <= i < prev.len() ==> prev[i].0 != name) && vote != Vote::NoVote) {
            seq![ChangeView::VoteChanged { pr_title, reviewer: name, new_vote: vote, web_url }]
        } else {
            seq![]
        },
{
    if exists|i: int| 0 <= i < prev.len() && prev[i].0 == name {
        let i = choose|i: int| 0 <= i < prev.len() && prev[i].0 == name;
        lemma_first_vote_for_distinct(prev, i);
        assert forall|j: int| 0 <= j < prev.len() && prev[j].0 == name implies j == i by {}
    } else {
        lemma_first_vote_for_absent(prev, name);
    }
}


/// Whether the rule reports a change for a voter `(name, vote)` against the
/// remembered votes `prev`: remembered with another vote, or not remembered
/// and now voting.
pub open spec fn vote_rule(prev: VoteList, name: Seq<char>, vote: Vote) -> bool {
    (exists|i: int| 0 <= i < prev.len() && prev[i].0 == name && prev[i].1 != vote) || ((forall|i: int|
        0 <= i < prev.len() ==> prev[i].0 != name) && vote != Vote::NoVote)
}

/// The vote changes the rule gives, in voter order.
pub open spec fn vote_rule_changes(prev: VoteList, cur: VoteList, pr_title: Seq<char>, web_url: Seq<char>) -> Seq<
    ChangeView,
>
    decreases cur.len(),
{
    if cur.len() == 0 {
        seq![]
    } else {
        vote_rule_changes(prev, cur.drop_last(), pr_title, web_url) + if vote_rule(prev, cur.last().0, cur.last().1) {
            seq![ChangeView::VoteChanged { pr_title, reviewer: cur.last().0, new_vote: cur.last().1, web_url }]
        } else {
            seq![]
        }
    }
}

/// Against remembered votes whose names are distinct, the vote changes of a
/// pull request are exactly the rule's: one per current voter that the rule
/// picks, in voter order.
pub proof fn lemma_vote_changes_follow_rule(prev: VoteList, cur: VoteList, pr_title: Seq<char>, web_url: Seq<char>)
    requires
        forall|a: int, b: int| 0 <= a < prev.len() && 0 <= b < prev.len() && a != b ==> prev[a].0 != prev[b].0,
    ensures
        vote_changes(prev, cur, pr_title, web_url) == vote_rule_changes(prev, cur, pr_title, web_url),
    decreases cur.len(),
{
    if cur.len() > 0 {
        lemma_vote_changes_follow_rule(prev, cur.drop_last(), pr_title, web_url);
        lemma_vote_change_rule(prev, cur.last().0, cur.last().1, pr_title, web_url);
        assert(cur.last() == (cur.last().0, cur.last().1));
    }
}

/// The vote rule over two polls: a pull request of the second poll whose key
/// the first poll showed, where the first poll's pull request with that key
/// had distinct voter names, reports exactly the rule's vote changes against
/// the votes the first poll showed; one whose key the first poll did not show
/// reports no vote change, only a new pull request.
pub proof fn lemma_second_poll_vote_rule(p: Seq<PullRequest>, i: int, pr: PullRequest)
    requires
        distinct_pr_keys(p),
        0 <= i < p.len(),
        pr_key_text(p[i].id) == pr_key_text(pr.id),
        distinct_reviewer_names(p[i]),
    ensures
        change_after(p, pr) == vote_rule_changes(current_votes(p[i]), current_votes(pr), pr.title@, pr.web_url@),
{
    lemma_poll_maps(p);
    assert(poll_key_seq(p)[i] == pr_key_text(pr.id));
    let prev = current_votes(p[i]);
    assert forall|a: int, b: int| 0 <= a < prev.len() && 0 <= b < prev.len() && a != b implies prev[a].0
        != prev[b].0 by {
        assert(prev[a].0 == p[i].reviewers@[a].user.display_name@);
        assert(prev[b].0 == p[i].reviewers@[b].user.display_name@);
    }
    lemma_vote_changes_follow_rule(prev, current_votes(pr), pr.title@, pr.web_url@);
}

/// A pull request of the second poll whose key the first poll did not show is
/// reported as new, with no vote change.
pub proof fn lemma_second_poll_new(p: Seq<PullRequest>, pr: PullRequest)
    requires
        !poll_key_seq(p).contains(pr_key_text(pr.id)),
    ensures
        change_after(p, pr) == seq![new_pr_change(pr)],
{
}

} // verus!
