//! When the status goes out: the decisions of the loop that keeps the status
//! card up to date. The caller owns the link, the clock and the card; these
//! functions take what it saw and say what it should do next.

use vstd::prelude::*;
use crate::finds::opt_view;
use crate::presence::Card;
use crate::stats::copy_opt;
use crate::text::{copy_str, same_text};

verus! {

/// The least time between two cards sent, in milliseconds: the other
/// program takes no more than five updates in twenty seconds, one every four.
pub const SEND_GAP_MS: u64 = 4000;

/// How long an answer to a sent card is waited for, in milliseconds.
pub const ANSWER_WAIT_MS: u64 = 5000;

/// How long a failed link waits before it is opened again, in milliseconds:
/// the other program may simply not be running.
pub const RETRY_MS: u64 = 30000;

/// A card as plain values.
pub open spec fn card_view(c: Card) -> (Seq<char>, Seq<char>, Seq<char>, i64, Option<Seq<char>>) {
    (c.details@, c.state@, c.hover@, c.start, opt_view(c.satanic))
}

/// What the status loop remembers between ticks.
pub struct StatusState {
    /// a link to the other program is open
    pub linked: bool,
    /// the card the other program last confirmed, on the open link
    pub shown: Option<Card>,
    /// when that card was confirmed
    pub sent_at: Option<u64>,
    /// the earliest moment a closed link may be opened again
    pub next_try: u64,
}

/// What one tick asks of the caller, in this order: close the link, open a
/// new one, build the card and offer it to `worth_sending`.
pub struct StatusTick {
    pub take_down: bool,
    pub connect: bool,
    pub build: bool,
}

/// Whether the gap since the last confirmed card has run out at `now`.
pub open spec fn gap_passed(sent_at: Option<u64>, now: u64) -> bool {
    match sent_at {
        None => true,
        Some(t) => now >= t + SEND_GAP_MS,
    }
}

/// Two cards with the same contents.
pub fn same_card(a: &Card, b: &Card) -> (r: bool)
    ensures
        r == (card_view(*a) == card_view(*b)),
{
    let sat = match (&a.satanic, &b.satanic) {
        (Some(x), Some(y)) => same_text(x.as_str(), y.as_str()),
        (None, None) => true,
        _ => false,
    };
    same_text(a.details.as_str(), b.details.as_str()) && same_text(a.state.as_str(), b.state.as_str())
        && same_text(a.hover.as_str(), b.hover.as_str()) && a.start == b.start && sat
}

impl Card {
    /// A card with the same contents.
    pub fn copy(&self) -> (r: Card)
        ensures
            card_view(r) == card_view(*self),
    {
        Card {
            details: copy_str(self.details.as_str()),
            state: copy_str(self.state.as_str()),
            hover: copy_str(self.hover.as_str()),
            start: self.start,
            satanic: copy_opt(&self.satanic),
        }
    }
}

impl StatusState {
    /// The loop before its first tick: no link, nothing shown, and a link
    /// may be opened at once.
    pub fn new() -> (r: StatusState)
        ensures
            !r.linked,
            r.shown is None,
            r.sent_at is None,
            r.next_try == 0,
    {
        StatusState { linked: false, shown: None, sent_at: None, next_try: 0 }
    }

    /// One tick of the loop at `now`, with `on` telling whether the status is
    /// switched on and the game is open. The status is shown only while both
    /// hold: otherwise the link goes down and nothing is remembered as shown.
    /// A closed link is opened again no sooner than `next_try`, which moves
    /// `RETRY_MS` on; a card is built only once `SEND_GAP_MS` has passed since
    /// the last confirmed one.
    pub fn tick(&self, on: bool, now: u64) -> (r: (StatusState, StatusTick))
        ensures
            !on ==> {
                &&& r.1.take_down && !r.1.connect && !r.1.build
                &&& !r.0.linked && r.0.shown is None
                &&& r.0.sent_at == self.sent_at && r.0.next_try == self.next_try
            },
            on && !self.linked && now < self.next_try ==> {
                &&& !r.1.take_down && !r.1.connect && !r.1.build
                &&& !r.0.linked && r.0.shown is None
                &&& r.0.sent_at == self.sent_at && r.0.next_try == self.next_try
            },
            on && !self.linked && now >= self.next_try ==> {
                &&& !r.1.take_down && r.1.connect
                &&& r.1.build == gap_passed(self.sent_at, now)
                &&& r.0.linked && r.0.shown is None
                &&& r.0.sent_at == self.sent_at
                &&& r.0.next_try == (if now + RETRY_MS <= u64::MAX { now + RETRY_MS } else { u64::MAX as int })
            },
            on && self.linked ==> {
                &&& !r.1.take_down && !r.1.connect
                &&& r.1.build == gap_passed(self.sent_at, now)
                &&& r.0.linked
                &&& (r.0.shown is Some) == (self.shown is Some)
                &&& self.shown is Some ==> card_view(r.0.shown->0) == card_view(self.shown->0)
                &&& r.0.sent_at == self.sent_at && r.0.next_try == self.next_try
            },
    {
        let gap = match self.sent_at {
            None => true,
            Some(t) => now >= t && now - t >= SEND_GAP_MS,
        };
        if !on {
            return (
                StatusState { linked: false, shown: None, sent_at: self.sent_at, next_try: self.next_try },
                StatusTick { take_down: true, connect: false, build: false },
            );
        }
        if !self.linked {
            if now < self.next_try {
                return (
                    StatusState { linked: false, shown: None, sent_at: self.sent_at, next_try: self.next_try },
                    StatusTick { take_down: false, connect: false, build: false },
                );
            }
            return (
                StatusState { linked: true, shown: None, sent_at: self.sent_at, next_try: now.saturating_add(RETRY_MS) },
                StatusTick { take_down: false, connect: true, build: gap },
            );
        }
        let shown = match &self.shown {
            Some(c) => Some(c.copy()),
            None => None,
        };
        (
            StatusState { linked: true, shown, sent_at: self.sent_at, next_try: self.next_try },
            StatusTick { take_down: false, connect: false, build: gap },
        )
    }

    /// Whether a freshly built card should go out: only one that differs
    /// from the card last confirmed on this link.
    pub fn worth_sending(&self, card: &Card) -> (r: bool)
        ensures
            r == match self.shown {
                Some(c) => card_view(c) != card_view(*card),
                None => true,
            },
    {
        match &self.shown {
            Some(c) => !same_card(c, card),
            None => true,
        }
    }

    /// What the loop remembers after offering `card` at `now`: a card the
    /// other program answered within `ANSWER_WAIT_MS` is what it shows, and
    /// the gap runs from now; one that went unanswered closes the link, which
    /// waits `RETRY_MS` before it is opened again.
    pub fn answered(&self, answered: bool, now: u64, card: Card) -> (r: StatusState)
        ensures
            answered ==> {
                &&& r.linked == self.linked
                &&& r.shown is Some && card_view(r.shown->0) == card_view(card)
                &&& r.sent_at == Some(now)
                &&& r.next_try == self.next_try
            },
            !answered ==> {
                &&& !r.linked && r.shown is None
                &&& r.sent_at == self.sent_at
                &&& r.next_try == (if now + RETRY_MS <= u64::MAX { now + RETRY_MS } else { u64::MAX as int })
            },
    {
        if answered {
            StatusState { linked: self.linked, shown: Some(card), sent_at: Some(now), next_try: self.next_try }
        } else {
            StatusState { linked: false, shown: None, sent_at: self.sent_at, next_try: now.saturating_add(RETRY_MS) }
        }
    }
}

} // verus!
