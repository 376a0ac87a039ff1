//! The texts and colors that the dashboard's rows, bars and detail view show.
use vstd::prelude::*;

use crate::model::{PrStatus, PullRequest, Reviewer, User, Vote};
use crate::text::{decimal, push_decimal, push_str};
use crate::theme::{TermColor, Theme};

verus! {

/// The frames of the spinner.
pub open spec fn spinner_frames() -> Seq<Seq<char>> {
    seq!["⠋"@, "⠙"@, "⠹"@, "⠸"@, "⠼"@, "⠴"@, "⠦"@, "⠧"@, "⠇"@, "⠏"@]
}

/// The spinner's frame for a tick count.
pub fn spinner_frame(frame: usize) -> (r: &'static str)
    ensures
        r@ == spinner_frames()[(frame % 10) as int],
{
    let i = frame % 10;
    if i == 0 {
        "⠋"
    } else if i == 1 {
        "⠙"
    } else if i == 2 {
        "⠹"
    } else if i == 3 {
        "⠸"
    } else if i == 4 {
        "⠼"
    } else if i == 5 {
        "⠴"
    } else if i == 6 {
        "⠦"
    } else if i == 7 {
        "⠧"
    } else if i == 8 {
        "⠇"
    } else {
        "⠏"
    }
}

/// The refresh part of the status bar.
pub open spec fn refresh_text_spec(loading: bool, frame: usize, last_refresh: Seq<char>) -> Seq<char> {
    if loading {
        spinner_frames()[(frame % 10) as int] + " refreshing..."@
    } else if last_refresh.len() == 0 {
        "never refreshed"@
    } else {
        "refreshed "@ + last_refresh
    }
}

pub fn refresh_text(loading: bool, frame: usize, last_refresh: &str) -> (r: String)
    ensures
        r@ == refresh_text_spec(loading, frame, last_refresh@),
{
    if loading {
        let mut r = String::from_str(spinner_frame(frame));
        push_str(&mut r, " refreshing...");
        r
    } else if last_refresh.unicode_len() == 0 {
        String::from_str("never refreshed")
    } else {
        let mut r = String::from_str("refreshed ");
        push_str(&mut r, last_refresh);
        r
    }
}

/// The provider-filter part of the status bar.
pub open spec fn provider_filter_text_spec(name: Seq<char>) -> Seq<char> {
    if name.len() == 0 {
        seq![]
    } else {
        " │ filter: "@ + name
    }
}

pub fn provider_filter_text(name: &str) -> (r: String)
    ensures
        r@ == provider_filter_text_spec(name@),
{
    if name.unicode_len() == 0 {
        String::new()
    } else {
        let mut r = String::from_str(" │ filter: ");
        push_str(&mut r, name);
        r
    }
}

/// The error part of the status bar.
pub open spec fn error_text_spec(count: u32, last_error: Seq<char>) -> Seq<char> {
    if count > 0 {
        " │ "@ + decimal(count as nat) + " error(s): "@ + last_error
    } else {
        seq![]
    }
}

pub fn error_text(count: u32, last_error: &str) -> (r: String)
    ensures
        r@ == error_text_spec(count, last_error@),
{
    if count > 0 {
        let mut r = String::from_str(" │ ");
        push_decimal(&mut r, count as u64);
        push_str(&mut r, " error(s): ");
        push_str(&mut r, last_error);
        r
    } else {
        String::new()
    }
}

/// " Reviewing (n) "
pub fn reviewing_tab_label(count: u32) -> (r: String)
    ensures
        r@ == " Reviewing ("@ + decimal(count as nat) + ") "@,
{
    let mut r = String::from_str(" Reviewing (");
    push_decimal(&mut r, count as u64);
    push_str(&mut r, ") ");
    r
}

/// " My PRs (n) "
pub fn authored_tab_label(count: u32) -> (r: String)
    ensures
        r@ == " My PRs ("@ + decimal(count as nat) + ") "@,
{
    let mut r = String::from_str(" My PRs (");
    push_decimal(&mut r, count as u64);
    push_str(&mut r, ") ");
    r
}

/// The marker in front of a row.
pub fn row_selector(is_selected: bool) -> (r: &'static str)
    ensures
        r@ == (if is_selected { "▸ "@ } else { "  "@ }),
{
    if is_selected {
        "▸ "
    } else {
        "  "
    }
}

/// The title of a row, marked when it is a draft.
pub fn row_title(pr: &PullRequest) -> (r: String)
    ensures
        r@ == pr.title@ + (if pr.is_draft { " [draft]"@ } else { ""@ }),
{
    let mut r = pr.title.clone();
    if pr.is_draft {
        push_str(&mut r, " [draft]");
    } else {
        push_str(&mut r, "");
    }
    r
}

/// "#number"
pub fn row_id(pr: &PullRequest) -> (r: String)
    ensures
        r@ == "#"@ + decimal(pr.id.number as nat),
{
    let mut r = String::from_str("#");
    push_decimal(&mut r, pr.id.number);
    r
}

/// The number of voters among the first `n` that voted.
pub open spec fn voted_count(reviewers: Seq<Reviewer>, n: int) -> int
    decreases n,
{
    if n <= 0 {
        0
    } else {
        voted_count(reviewers, n - 1) + if reviewers[n - 1].vote != Vote::NoVote { 1int } else { 0int }
    }
}

proof fn lemma_voted_count_bound(reviewers: Seq<Reviewer>, n: int)
    requires
        0 <= n,
    ensures
        0 <= voted_count(reviewers, n) <= n,
    decreases n,
{
    if n > 0 {
        lemma_voted_count_bound(reviewers, n - 1);
    }
}

/// The number of voters that voted.
pub fn active_votes(reviewers: &Vec<Reviewer>) -> (r: usize)
    ensures
        r == voted_count(reviewers@, reviewers@.len() as int),
{
    let mut count: usize = 0;
    let mut i: usize = 0;
    while i < reviewers.len()
        invariant
            i <= reviewers@.len(),
            count == voted_count(reviewers@, i as int),
        decreases reviewers@.len() - i,
    {
        proof {
            lemma_voted_count_bound(reviewers@, i as int);
        }
        if reviewers[i].vote != Vote::NoVote {
            count = count + 1;
        }
        i = i + 1;
    }
    count
}

/// The vote count at the end of a row: "●n", or nothing without votes.
pub fn votes_count_text(reviewers: &Vec<Reviewer>) -> (r: String)
    ensures
        ({
            let n = voted_count(reviewers@, reviewers@.len() as int);
            r@ == if n > 0 { "●"@ + decimal(n as nat) } else { seq![] }
        }),
{
    let n = active_votes(reviewers);
    if n > 0 {
        let mut r = String::from_str("●");
        push_decimal(&mut r, n as u64);
        r
    } else {
        String::new()
    }
}

/// The voters that voted, in order.
pub open spec fn voters(reviewers: Seq<Reviewer>) -> Seq<Reviewer> {
    reviewers.filter(|r: Reviewer| r.vote != Vote::NoVote)
}

/// The voters that voted, each with its symbol and initials and the color
/// of its vote (`votes_display`).
pub fn votes_display(reviewers: &Vec<Reviewer>, theme: &Theme) -> (r: Vec<(String, TermColor)>)
    ensures
        r@.len() == voters(reviewers@).len(),
        forall|i: int| 0 <= i < r@.len() ==> {
            let v = #[trigger] voters(reviewers@)[i];
            r@[i].0@ == v.vote.initials_text(v.user.display_name@) && r@[i].1 == theme.vote_color_spec(v.vote)
        },
{
    let ghost pred = |r: Reviewer| r.vote != Vote::NoVote;
    let mut out: Vec<(String, TermColor)> = Vec::new();
    let mut i: usize = 0;
    while i < reviewers.len()
        invariant
            i <= reviewers@.len(),
            pred == (|r: Reviewer| r.vote != Vote::NoVote),
            out@.len() == reviewers@.subrange(0, i as int).filter(pred).len(),
            forall|k: int| 0 <= k < out@.len() ==> {
                let v = #[trigger] reviewers@.subrange(0, i as int).filter(pred)[k];
                out@[k].0@ == v.vote.initials_text(v.user.display_name@) && out@[k].1 == theme.vote_color_spec(v.vote)
            },
        decreases reviewers@.len() - i,
    {
        let r = &reviewers[i];
        let ghost old_f = reviewers@.subrange(0, i as int).filter(pred);
        proof {
            let pre = reviewers@.subrange(0, i + 1);
            assert(pre.drop_last() =~= reviewers@.subrange(0, i as int));
            assert(pre.last() == *r);
            reveal_with_fuel(Seq::<_>::filter, 1);
        }
        if r.vote != Vote::NoVote {
            out.push((r.vote.initials_display(&r.user), theme.vote_color(&r.vote)));
            let ghost new_f = reviewers@.subrange(0, i + 1).filter(pred);
            assert(new_f == old_f.push(*r));
            assert forall|k: int| 0 <= k < out@.len() implies {
                let v = #[trigger] new_f[k];
                out@[k].0@ == v.vote.initials_text(v.user.display_name@) && out@[k].1 == theme.vote_color_spec(v.vote)
            } by {
                if k < old_f.len() {
                    assert(new_f[k] == old_f[k]);
                }
            }
        }
        i = i + 1;
    }
    assert(reviewers@.subrange(0, reviewers@.len() as int) =~= reviewers@);
    out
}

/// The end of the rows shown from `offset`: `visible` rows, at most to the end.
pub fn visible_end(offset: usize, visible: usize, len: usize) -> (r: usize)
    requires
        offset <= len,
    ensures
        r == if offset + visible < len { offset + visible } else { len as int },
{
    if visible < len - offset {
        offset + visible
    } else {
        len
    }
}

// ---------------------------------------------------------------------------
// Detail view
// ---------------------------------------------------------------------------

pub open spec fn vote_text_spec(vote: Vote) -> Seq<char> {
    match vote {
        Vote::Approved => "Approved"@,
        Vote::ApprovedWithSuggestions => "Approved with suggestions"@,
        Vote::NoVote => "No vote"@,
        Vote::WaitingForAuthor => "Waiting for author"@,
        Vote::Rejected => "Rejected"@,
    }
}

/// The vote in words.
pub fn vote_text(vote: &Vote) -> (r: &'static str)
    ensures
        r@ == vote_text_spec(*vote),
{
    match vote {
        Vote::Approved => "Approved",
        Vote::ApprovedWithSuggestions => "Approved with suggestions",
        Vote::NoVote => "No vote",
        Vote::WaitingForAuthor => "Waiting for author",
        Vote::Rejected => "Rejected",
    }
}

/// A voter's line in the detail view: symbol, name, vote in words, and
/// whether the vote is required.
pub open spec fn reviewer_line_spec(r: Reviewer) -> Seq<char> {
    "  "@ + r.vote.symbol_text() + " "@ + r.user.display_name@ + " - "@ + vote_text_spec(r.vote)
        + (if r.is_required { " (required)"@ } else { ""@ })
}

pub fn reviewer_line(r: &Reviewer) -> (out: String)
    ensures
        out@ == reviewer_line_spec(*r),
{
    let mut s = String::from_str("  ");
    push_str(&mut s, r.vote.symbol());
    push_str(&mut s, " ");
    push_str(&mut s, r.user.display_name.as_str());
    push_str(&mut s, " - ");
    push_str(&mut s, vote_text(&r.vote));
    if r.is_required {
        push_str(&mut s, " (required)");
    } else {
        push_str(&mut s, "");
    }
    s
}

/// "#number title"
pub fn detail_header(pr: &PullRequest) -> (r: String)
    ensures
        r@ == "#"@ + decimal(pr.id.number as nat) + " "@ + pr.title@,
{
    let mut r = String::from_str("#");
    push_decimal(&mut r, pr.id.number);
    push_str(&mut r, " ");
    push_str(&mut r, pr.title.as_str());
    r
}

/// "source → target"
pub fn branch_line(pr: &PullRequest) -> (r: String)
    ensures
        r@ == pr.source_branch@ + " → "@ + pr.target_branch@,
{
    let mut r = pr.source_branch.clone();
    push_str(&mut r, " → ");
    push_str(&mut r, pr.target_branch.as_str());
    r
}

/// The description, or a note that there is none.
pub fn description_text(pr: &PullRequest) -> (r: String)
    ensures
        r@ == match pr.description {
            Some(d) => d@,
            None => "No description provided."@,
        },
{
    match &pr.description {
        Some(d) => d.clone(),
        None => String::from_str("No description provided."),
    }
}

/// The color of a pull request's status.
pub fn status_color(theme: &Theme, status: PrStatus) -> (r: TermColor)
    ensures
        r == match status {
            PrStatus::Active => theme.success,
            PrStatus::Completed => theme.accent,
            PrStatus::Abandoned => theme.fg_dim,
        },
{
    match status {
        PrStatus::Active => theme.success,
        PrStatus::Completed => theme.accent,
        PrStatus::Abandoned => theme.fg_dim,
    }
}

/// The color of an age: the stale color when stale, else dimmed.
pub fn age_color(theme: &Theme, is_stale: bool) -> (r: TermColor)
    ensures
        r == if is_stale { theme.stale } else { theme.fg_dim },
{
    if is_stale {
        theme.stale
    } else {
        theme.fg_dim
    }
}

} // verus!
