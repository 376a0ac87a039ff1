//! The colors of the terminal dashboard.
use vstd::prelude::*;

use crate::model::Vote;

verus! {

/// The terminal colors the dashboard uses.
#[derive(Debug, Clone, Copy, PartialEq, Eq, Structural)]
pub enum TermColor {
    Reset,
    White,
    Grey,
    DarkGrey,
    Blue,
    DarkBlue,
    Cyan,
    Green,
    DarkGreen,
    Yellow,
    Red,
}

/// The color of each element of the dashboard.
#[derive(Debug, Clone, Copy, PartialEq, Eq, Structural)]
pub struct Theme {
    pub bg: TermColor,
    pub fg: TermColor,
    pub fg_dim: TermColor,
    pub fg_muted: TermColor,
    pub border: TermColor,
    pub border_active: TermColor,
    pub accent: TermColor,
    pub selection_bg: TermColor,
    pub vote_approved: TermColor,
    pub vote_suggestions: TermColor,
    pub vote_pending: TermColor,
    pub vote_waiting: TermColor,
    pub vote_rejected: TermColor,
    pub stale: TermColor,
    pub error: TermColor,
    pub success: TermColor,
    pub tab_active: TermColor,
    pub tab_inactive: TermColor,
    pub draft: TermColor,
}

impl Theme {
    pub open spec fn dark_spec() -> Theme {
        Theme {
            bg: TermColor::Reset,
            fg: TermColor::White,
            fg_dim: TermColor::Grey,
            fg_muted: TermColor::DarkGrey,
            border: TermColor::DarkGrey,
            border_active: TermColor::Blue,
            accent: TermColor::Cyan,
            selection_bg: TermColor::DarkBlue,
            vote_approved: TermColor::Green,
            vote_suggestions: TermColor::DarkGreen,
            vote_pending: TermColor::Grey,
            vote_waiting: TermColor::Yellow,
            vote_rejected: TermColor::Red,
            stale: TermColor::Yellow,
            error: TermColor::Red,
            success: TermColor::Green,
            tab_active: TermColor::Cyan,
            tab_inactive: TermColor::Grey,
            draft: TermColor::DarkGrey,
        }
    }

    /// The dark theme.
    pub fn dark() -> (r: Self)
        ensures
            r == Self::dark_spec(),
    {
        Theme {
            bg: TermColor::Reset,
            fg: TermColor::White,
            fg_dim: TermColor::Grey,
            fg_muted: TermColor::DarkGrey,
            border: TermColor::DarkGrey,
            border_active: TermColor::Blue,
            accent: TermColor::Cyan,
            selection_bg: TermColor::DarkBlue,
            vote_approved: TermColor::Green,
            vote_suggestions: TermColor::DarkGreen,
            vote_pending: TermColor::Grey,
            vote_waiting: TermColor::Yellow,
            vote_rejected: TermColor::Red,
            stale: TermColor::Yellow,
            error: TermColor::Red,
            success: TermColor::Green,
            tab_active: TermColor::Cyan,
            tab_inactive: TermColor::Grey,
            draft: TermColor::DarkGrey,
        }
    }

    pub open spec fn vote_color_spec(self, vote: Vote) -> TermColor {
        match vote {
            Vote::Approved => self.vote_approved,
            Vote::ApprovedWithSuggestions => self.vote_suggestions,
            Vote::NoVote => self.vote_pending,
            Vote::WaitingForAuthor => self.vote_waiting,
            Vote::Rejected => self.vote_rejected,
        }
    }

    /// The color a vote is shown in.
    pub fn vote_color(&self, vote: &Vote) -> (r: TermColor)
        ensures
            r == self.vote_color_spec(*vote),
    {
        match vote {
            Vote::Approved => self.vote_approved,
            Vote::ApprovedWithSuggestions => self.vote_suggestions,
            Vote::NoVote => self.vote_pending,
            Vote::WaitingForAuthor => self.vote_waiting,
            Vote::Rejected => self.vote_rejected,
        }
    }
}

impl Default for Theme {
    fn default() -> (r: Self)
        ensures
            r == Theme::dark_spec(),
    {
        Theme::dark()
    }
}

} // verus!
