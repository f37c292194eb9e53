//! The payout step shared by both engines: the effective bet, the settled
//! balance and the outcome label.

use vstd::prelude::*;

verus! {

/// The class of a spin's result, from the greatest win down to a loss.
#[derive(Clone, Copy, Debug, PartialEq, Eq, Structural)]
pub enum Outcome {
    Jackpot,
    Win,
    SmallWin,
    Lose,
}

/// The text label of an outcome.
pub open spec fn outcome_label(o: Outcome) -> Seq<char> {
    match o {
        Outcome::Jackpot => "WIN_JACKPOT"@,
        Outcome::Win => "WIN"@,
        Outcome::SmallWin => "WIN_SMALL"@,
        Outcome::Lose => "LOSE"@,
    }
}

impl Outcome {
    /// The text label of this outcome, as the host sees it.
    pub fn label(&self) -> (r: &'static str)
        ensures
            r@ == outcome_label(*self),
    {
        match self {
            Outcome::Jackpot => "WIN_JACKPOT",
            Outcome::Win => "WIN",
            Outcome::SmallWin => "WIN_SMALL",
            Outcome::Lose => "LOSE",
        }
    }
}

/// The bet that payouts are computed from: a bet below one counts as one.
pub open spec fn effective_bet(bet: i32) -> int {
    if bet < 1 {
        1
    } else {
        bet as int
    }
}

/// The balance after a spin: the old balance plus the delta, never below zero.
pub open spec fn settled_balance(balance: int, delta: int) -> int {
    if balance + delta < 0 {
        0
    } else {
        balance + delta
    }
}

/// The bet that a spin uses.
pub fn effective_bet_of(bet: i32) -> (r: i32)
    ensures
        r == effective_bet(bet),
        r >= 1,
{
    if bet < 1 {
        1
    } else {
        bet
    }
}

/// Applies a spin's delta to the balance, clamping the result at zero.
pub fn settle(balance: i32, delta: i64) -> (r: i64)
    requires
        i64::MIN <= balance + delta <= i64::MAX,
    ensures
        r == settled_balance(balance as int, delta as int),
        r >= 0,
{
    let total = balance as i64 + delta;
    if total < 0 {
        0
    } else {
        total
    }
}

} // verus!
