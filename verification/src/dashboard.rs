//! The terminal dashboard's data: pull requests with their display fields,
//! the search and provider filters, and the dashboard's state.
use vstd::prelude::*;

use crate::model::{PullRequest, Reviewer, Vote};
use crate::text::{
    contains_str, contains_text, decimal, decimal_string, join_text, lowercase, push_str,
    to_lowercase,
};
use crate::time::{Timestamp, is_stale_at, is_stale_at_spec, relative_time_at, relative_time_text, utc_now};

verus! {

/// Which tab is active.
#[derive(Debug, Clone, Copy, PartialEq, Eq, Structural)]
pub enum ActiveTab {
    Reviewing,
    Authored,
}

/// Which view is shown.
#[derive(Debug, Clone, Copy, PartialEq, Eq, Structural)]
pub enum ActiveView {
    Dashboard,
    /// The detail of the pull request at this position of the filtered list.
    Detail(usize),
    Help,
}

/// A pull request with its computed display fields.
#[derive(Debug)]
pub struct EnrichedPr {
    pub pr: PullRequest,
    pub age_display: String,
    pub is_stale: bool,
    pub vote_summary: String,
    pub source_display: String,
}

impl Clone for EnrichedPr {
    fn clone(&self) -> (r: Self)
        ensures
            r.pr.same_as(self.pr),
            r.age_display == self.age_display,
            r.is_stale == self.is_stale,
            r.vote_summary == self.vote_summary,
            r.source_display == self.source_display,
    {
        EnrichedPr {
            pr: self.pr.clone(),
            age_display: self.age_display.clone(),
            is_stale: self.is_stale,
            vote_summary: self.vote_summary.clone(),
            source_display: self.source_display.clone(),
        }
    }
}

/// The voters' votes, each as its symbol and initials, separated by spaces.
pub open spec fn vote_summary_text(reviewers: Seq<Reviewer>) -> Seq<char> {
    join_text(reviewers.map_values(|r: Reviewer| r.vote.initials_text(r.user.display_name@)), " "@)
}

/// "provider/project/repository"
pub open spec fn source_text(pr: PullRequest) -> Seq<char> {
    pr.id.provider@ + "/"@ + pr.id.project@ + "/"@ + pr.id.repository@
}

/// The display fields of a pull request seen at `now`.
pub open spec fn enriched_at(e: EnrichedPr, pr: PullRequest, stale_threshold_hours: u64, now: Timestamp) -> bool {
    &&& e.pr == pr
    &&& e.age_display@ == relative_time_text(pr.created_at, now)
    &&& e.is_stale == is_stale_at_spec(pr.created_at, now, stale_threshold_hours)
    &&& e.vote_summary@ == vote_summary_text(pr.reviewers@)
    &&& e.source_display@ == source_text(pr)
}

fn vote_summary(reviewers: &Vec<Reviewer>) -> (r: String)
    ensures
        r@ == vote_summary_text(reviewers@),
{
    let ghost parts = reviewers@.map_values(|r: Reviewer| r.vote.initials_text(r.user.display_name@));
    let mut out = String::new();
    let mut i: usize = 0;
    while i < reviewers.len()
        invariant
            i <= reviewers@.len(),
            parts == reviewers@.map_values(|r: Reviewer| r.vote.initials_text(r.user.display_name@)),
            out@ == join_text(parts.subrange(0, i as int), " "@),
        decreases reviewers@.len() - i,
    {
        let rv = &reviewers[i];
        let part = rv.vote.initials_display(&rv.user);
        proof {
            let pre = parts.subrange(0, i + 1);
            assert(pre.drop_last() =~= parts.subrange(0, i as int));
            assert(pre.last() == part@);
        }
        if i > 0 {
            push_str(&mut out, " ");
        } else {
            assert(parts.subrange(0, i + 1) =~= seq![part@]);
        }
        push_str(&mut out, part.as_str());
        i = i + 1;
    }
    assert(parts.subrange(0, parts.len() as int) =~= parts);
    out
}

impl EnrichedPr {
    /// The display fields of a pull request seen at `now`.
    pub fn from_pr_at(pr: PullRequest, stale_threshold_hours: u64, now: &Timestamp) -> (r: Self)
        ensures
            enriched_at(r, pr, stale_threshold_hours, *now),
    {
        let age_display = relative_time_at(&pr.created_at, now);
        let is_stale = is_stale_at(&pr.created_at, now, stale_threshold_hours);
        let vote_summary = vote_summary(&pr.reviewers);
        let mut source_display = pr.id.provider.clone();
        push_str(&mut source_display, "/");
        push_str(&mut source_display, pr.id.project.as_str());
        push_str(&mut source_display, "/");
        push_str(&mut source_display, pr.id.repository.as_str());
        EnrichedPr { pr, age_display, is_stale, vote_summary, source_display }
    }

    /// The display fields of a pull request seen now. The age and the
    /// staleness each read the clock.
    pub fn from_pr(pr: PullRequest, stale_threshold_hours: u64) -> (r: Self)
        ensures
            r.pr == pr,
            exists|now: Timestamp| r.age_display@ == relative_time_text(pr.created_at, now),
            exists|now: Timestamp| r.is_stale == is_stale_at_spec(pr.created_at, now, stale_threshold_hours),
            r.vote_summary@ == vote_summary_text(pr.reviewers@),
            r.source_display@ == source_text(pr),
    {
        let now1 = utc_now();
        let age_display = relative_time_at(&pr.created_at, &now1);
        let now2 = utc_now();
        let is_stale = is_stale_at(&pr.created_at, &now2, stale_threshold_hours);
        let vote_summary = vote_summary(&pr.reviewers);
        let mut source_display = pr.id.provider.clone();
        push_str(&mut source_display, "/");
        push_str(&mut source_display, pr.id.project.as_str());
        push_str(&mut source_display, "/");
        push_str(&mut source_display, pr.id.repository.as_str());
        EnrichedPr { pr, age_display, is_stale, vote_summary, source_display }
    }
}

// ---------------------------------------------------------------------------
// Filters
// ---------------------------------------------------------------------------

/// Whether a pull request passes the dashboard's filters: the provider filter,
/// when set and not empty, must name its provider; the search text, when not
/// empty, must occur (lower-cased) in its lower-cased title, author, repository
/// or source branch, or in its number.
pub open spec fn passes_filters(e: EnrichedPr, search: Seq<char>, provider: Option<Seq<char>>) -> bool {
    let s = lowercase(search);
    let pr = e.pr;
    &&& match provider {
        Some(p) => p.len() == 0 || pr.id.provider@ == p,
        None => true,
    }
    &&& (search.len() == 0 || contains_text(lowercase(pr.title@), s) || contains_text(
        lowercase(pr.author.display_name@),
        s,
    ) || contains_text(lowercase(pr.repository.name@), s) || contains_text(
        lowercase(pr.source_branch@),
        s,
    ) || contains_text(decimal(pr.id.number as nat), s))
}

pub open spec fn opt_str(o: Option<&str>) -> Option<Seq<char>> {
    match o {
        Some(s) => Some(s@),
        None => None,
    }
}

/// The positions of the pull requests that pass the filters, in order.
pub open spec fn passing(prs: Seq<EnrichedPr>, search: Seq<char>, provider: Option<Seq<char>>, n: int) -> Seq<int>
    decreases n,
{
    if n <= 0 {
        seq![]
    } else {
        let rest = passing(prs, search, provider, n - 1);
        if passes_filters(prs[n - 1], search, provider) {
            rest.push(n - 1)
        } else {
            rest
        }
    }
}

fn passes_filters_exec(e: &EnrichedPr, search_lower: &String, search: &str, provider: Option<&str>) -> (r: bool)
    requires
        search_lower@ == lowercase(search@),
        search_lower@.len() == 0 <==> search@.len() == 0,
    ensures
        r == passes_filters(*e, search@, opt_str(provider)),
{
    match provider {
        Some(p) => {
            if p.unicode_len() != 0 && !crate::text::same_text(e.pr.id.provider.as_str(), p) {
                return false;
            }
        },
        None => {},
    }
    let s = search_lower.as_str();
    if s.unicode_len() == 0 {
        return true;
    }
    let t = to_lowercase(e.pr.title.as_str());
    let a = to_lowercase(e.pr.author.display_name.as_str());
    let rn = to_lowercase(e.pr.repository.name.as_str());
    let b = to_lowercase(e.pr.source_branch.as_str());
    let n = decimal_string(e.pr.id.number);
    contains_str(t.as_str(), s) || contains_str(a.as_str(), s) || contains_str(rn.as_str(), s)
        || contains_str(b.as_str(), s) || contains_str(n.as_str(), s)
}

/// The pull requests that pass the search text and provider filter, in order.
pub fn apply_filters<'a>(prs: &'a Vec<EnrichedPr>, search: &str, provider_filter: Option<&str>) -> (r: Vec<&'a EnrichedPr>)
    ensures
        r@.len() == passing(prs@, search@, opt_str(provider_filter), prs@.len() as int).len(),
        forall|i: int| 0 <= i < r@.len() ==> *r@[i] == prs@[#[trigger] passing(prs@, search@, opt_str(provider_filter), prs@.len() as int)[i]],
{
    let search_lower = to_lowercase(search);
    let mut out: Vec<&'a EnrichedPr> = Vec::new();
    let mut i: usize = 0;
    while i < prs.len()
        invariant
            i <= prs@.len(),
            search_lower@ == lowercase(search@),
            search_lower@.len() == 0 <==> search@.len() == 0,
            out@.len() == passing(prs@, search@, opt_str(provider_filter), i as int).len(),
            forall|j: int| 0 <= j < out@.len() ==> *out@[j] == prs@[#[trigger] passing(prs@, search@, opt_str(provider_filter), i as int)[j]],
        decreases prs@.len() - i,
    {
        let ghost before = passing(prs@, search@, opt_str(provider_filter), i as int);
        if passes_filters_exec(&prs[i], &search_lower, search, provider_filter) {
            out.push(&prs[i]);
            assert(passing(prs@, search@, opt_str(provider_filter), i + 1) == before.push(i as int));
        }
        i = i + 1;
    }
    out
}

/// Every position that `passing` lists is a pull request that passes the
/// filters, the positions rise, and every passing pull request is listed.
pub proof fn lemma_passing(prs: Seq<EnrichedPr>, search: Seq<char>, provider: Option<Seq<char>>, n: int)
    requires
        0 <= n <= prs.len(),
    ensures
        forall|i: int| 0 <= i < passing(prs, search, provider, n).len() ==> {
            let k = #[trigger] passing(prs, search, provider, n)[i];
            0 <= k < n && passes_filters(prs[k], search, provider)
        },
        forall|i: int, j: int| 0 <= i < j < passing(prs, search, provider, n).len() ==> passing(prs, search, provider, n)[i] < passing(prs, search, provider, n)[j],
        forall|k: int| 0 <= k < n && passes_filters(prs[k], search, provider) ==> passing(prs, search, provider, n).contains(k),
    decreases n,
{
    if n > 0 {
        lemma_passing(prs, search, provider, n - 1);
        let rest = passing(prs, search, provider, n - 1);
        if passes_filters(prs[n - 1], search, provider) {
            let p = rest.push(n - 1);
            assert forall|k: int| 0 <= k < n && passes_filters(prs[k], search, provider) implies p.contains(k) by {
                if k < n - 1 {
                    assert(0 <= k < n - 1 && passes_filters(prs[k], search, provider));
                    assert(rest.contains(k));
                    let i = choose|i: int| 0 <= i < rest.len() && rest[i] == k;
                    assert(p[i] == k);
                } else {
                    assert(p[rest.len() as int] == k);
                }
            }
        }
    }
}

/// With an empty search and no provider filter, every pull request is kept,
/// in order.
pub proof fn lemma_empty_search_keeps_all(prs: Seq<EnrichedPr>, n: int)
    requires
        0 <= n <= prs.len(),
    ensures
        passing(prs, seq![], None, n) == Seq::new(n as nat, |i: int| i),
    decreases n,
{
    if n > 0 {
        lemma_empty_search_keeps_all(prs, n - 1);
        assert(passes_filters(prs[n - 1], seq![], None));
        assert(passing(prs, seq![], None, n) =~= Seq::new(n as nat, |i: int| i));
    } else {
        assert(passing(prs, seq![], None, n) =~= Seq::new(n as nat, |i: int| i));
    }
}

// ---------------------------------------------------------------------------
// The dashboard's state
// ---------------------------------------------------------------------------

/// `std::time::Instant`, carried along with a toast message.
#[verifier::external_type_specification]
#[verifier::external_body]
pub struct ExInstant(std::time::Instant);

/// `std::time::Instant::now`: the current instant of the monotonic clock;
/// nothing is promised of its value.
#[verifier::external_body]
pub(crate) fn instant_now() -> (r: std::time::Instant) {
    std::time::Instant::now()
}

/// The terminal dashboard's state.
pub struct AppState {
    pub reviewing: Vec<EnrichedPr>,
    pub authored: Vec<EnrichedPr>,
    pub active_tab: ActiveTab,
    pub active_view: ActiveView,
    pub selected_index: usize,
    pub scroll_offset: usize,
    pub filter_text: String,
    pub filter_active: bool,
    pub provider_filter: Option<usize>,
    pub last_refresh: Option<Timestamp>,
    pub errors: Vec<String>,
    pub loading: bool,
    pub toast_message: Option<(String, std::time::Instant)>,
    pub provider_names: Vec<String>,
}

impl AppState {
    /// A fresh dashboard: nothing loaded yet, the tab of pull requests to vote on, no filters.
    pub fn new(provider_names: Vec<String>) -> (r: Self)
        ensures
            r.reviewing@.len() == 0,
            r.authored@.len() == 0,
            r.active_tab == ActiveTab::Reviewing,
            r.active_view == ActiveView::Dashboard,
            r.selected_index == 0,
            r.scroll_offset == 0,
            r.filter_text@.len() == 0,
            !r.filter_active,
            r.provider_filter is None,
            r.last_refresh is None,
            r.errors@.len() == 0,
            r.loading,
            r.toast_message is None,
            r.provider_names@ == provider_names@,
    {
        AppState {
            reviewing: Vec::new(),
            authored: Vec::new(),
            active_tab: ActiveTab::Reviewing,
            active_view: ActiveView::Dashboard,
            selected_index: 0,
            scroll_offset: 0,
            filter_text: String::new(),
            filter_active: false,
            provider_filter: None,
            last_refresh: None,
            errors: Vec::new(),
            loading: true,
            toast_message: None,
            provider_names,
        }
    }

    pub open spec fn current_list_spec(&self) -> Seq<EnrichedPr> {
        match self.active_tab {
            ActiveTab::Reviewing => self.reviewing@,
            ActiveTab::Authored => self.authored@,
        }
    }

    /// The pull requests of the active tab.
    pub fn current_list(&self) -> (r: &Vec<EnrichedPr>)
        ensures
            r@ == self.current_list_spec(),
    {
        match self.active_tab {
            ActiveTab::Reviewing => &self.reviewing,
            ActiveTab::Authored => &self.authored,
        }
    }

    /// The provider name the provider filter selects: the name at the chosen
    /// position, or the empty name when there is none there.
    pub open spec fn provider_filter_name(&self) -> Option<Seq<char>> {
        match self.provider_filter {
            Some(i) => if i < self.provider_names@.len() {
                Some(self.provider_names@[i as int]@)
            } else {
                Some(seq![])
            },
            None => None,
        }
    }

    /// The positions in the active tab of the pull requests shown.
    pub open spec fn filtered_positions(&self) -> Seq<int> {
        passing(self.current_list_spec(), self.filter_text@, self.provider_filter_name(), self.current_list_spec().len() as int)
    }

    /// The pull requests of the active tab that pass the filters.
    pub fn filtered_list(&self) -> (r: Vec<&EnrichedPr>)
        ensures
            r@.len() == self.filtered_positions().len(),
            forall|i: int| 0 <= i < r@.len() ==> *r@[i] == self.current_list_spec()[#[trigger] self.filtered_positions()[i]],
    {
        let name: Option<&str> = match self.provider_filter {
            Some(i) => if i < self.provider_names.len() {
                Some(self.provider_names[i].as_str())
            } else {
                Some("")
            },
            None => None,
        };
        proof {
            reveal_strlit("");
            assert(""@ =~= Seq::<char>::empty());
        }
        assert(opt_str(name) == self.provider_filter_name());
        let r = apply_filters(self.current_list(), self.filter_text.as_str(), name);
        r
    }

    /// Keeps the selection inside the filtered list after its data changed.
    pub fn clamp_selection(&mut self)
        ensures
            final(self).selected_index == (if old(self).filtered_positions().len() == 0 {
                0
            } else if old(self).selected_index >= old(self).filtered_positions().len() {
                (old(self).filtered_positions().len() - 1) as usize
            } else {
                old(self).selected_index
            }),
            final(self).reviewing == old(self).reviewing,
            final(self).authored == old(self).authored,
            final(self).active_tab == old(self).active_tab,
            final(self).filter_text == old(self).filter_text,
            final(self).provider_filter == old(self).provider_filter,
            final(self).provider_names == old(self).provider_names,
            final(self).scroll_offset == old(self).scroll_offset,
            *final(self) == (AppState { selected_index: final(self).selected_index, ..*old(self) }),
    {
        let len = self.filtered_list().len();
        if len == 0 {
            self.selected_index = 0;
        } else if self.selected_index >= len {
            self.selected_index = len - 1;
        }
    }

    /// Shows a toast message from now on.
    pub fn show_toast(&mut self, message: String)
        ensures
            final(self).toast_message matches Some((m, _)) && m == message,
            final(self).reviewing == old(self).reviewing,
            final(self).authored == old(self).authored,
            final(self).selected_index == old(self).selected_index,
            *final(self) == (AppState { toast_message: final(self).toast_message, ..*old(self) }),
    {
        self.toast_message = Some((message, instant_now()));
    }
}


/// What the filters keep: a pull request is among the filtered ones exactly
/// when it passes the provider filter (none, an empty one, or its own
/// provider) and the search is empty or its lower-cased title, author,
/// repository name or source branch, or its number, contains the lower-cased
/// search text.
pub proof fn lemma_search_matches(prs: Seq<EnrichedPr>, search: Seq<char>, provider: Option<Seq<char>>, i: int)
    requires
        0 <= i < prs.len(),
    ensures
        ({
            let pr = prs[i].pr;
            let s = lowercase(search);
            passing(prs, search, provider, prs.len() as int).contains(i) <==> ((match provider {
                Some(p) => p.len() == 0 || pr.id.provider@ == p,
                None => true,
            }) && (search.len() == 0 || contains_text(lowercase(pr.title@), s) || contains_text(
                lowercase(pr.author.display_name@),
                s,
            ) || contains_text(lowercase(pr.repository.name@), s) || contains_text(
                lowercase(pr.source_branch@),
                s,
            ) || contains_text(decimal(pr.id.number as nat), s)))
        }),
{
    let all = passing(prs, search, provider, prs.len() as int);
    lemma_passing(prs, search, provider, prs.len() as int);
    if all.contains(i) {
        let j = choose|j: int| 0 <= j < all.len() && all[j] == i;
        assert(passes_filters(prs[all[j]], search, provider));
    }
}

} // verus!
