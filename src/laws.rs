//! Properties that hold of both engines.

use vstd::prelude::*;

use crate::grid::{grid_delta, is_grid_spin, SpinResult};
use crate::payout::{effective_bet, settled_balance};
use crate::reel::{band_multiplier, is_reel_spin, Band, ReelDraws, ReelResult};

verus! {

/// A bet of zero or less plays exactly as a bet of one: the payouts agree,
/// and a result is a spin's result with such a bet exactly when it is that
/// spin's result with a bet of one, on either engine.
pub proof fn lemma_nonpositive_bet_is_one(balance: i32, bet: i32, s: Seq<u8>, d: ReelDraws)
    requires
        bet <= 0,
    ensures
        effective_bet(bet) == effective_bet(1),
        forall|tenths: int| #[trigger] grid_delta(bet, tenths) == grid_delta(1, tenths),
        forall|b: Band| #[trigger] band_multiplier(b) * effective_bet(bet) == band_multiplier(b) * effective_bet(1),
        forall|r: SpinResult| #[trigger] is_grid_spin(balance, bet, s, r) <==> is_grid_spin(balance, 1, s, r),
        forall|r: ReelResult| #[trigger] is_reel_spin(balance, bet, d, r) <==> is_reel_spin(balance, 1, d, r),
{
}

/// After every spin of either engine the balance is the old balance plus the
/// delta, or zero where that sum is negative.
pub proof fn lemma_balance_is_clamped_sum(
    balance: i32,
    bet: i32,
    s: Seq<u8>,
    g: SpinResult,
    d: ReelDraws,
    r: ReelResult,
)
    ensures
        is_grid_spin(balance, bet, s, g) ==> g.balance == settled_balance(balance as int, g.delta as int)
            && g.balance == (if balance + g.delta < 0 { 0 } else { balance + g.delta }),
        is_reel_spin(balance, bet, d, r) ==> r.balance == settled_balance(balance as int, r.delta as int)
            && r.balance == (if balance + r.delta < 0 { 0 } else { balance + r.delta }),
{
}

} // verus!
