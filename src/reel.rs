//! The three-reel engine: one draw picks a weighted outcome band, further
//! draws lay out three symbols that fit the band.

use vstd::prelude::*;

use crate::payout::{effective_bet, effective_bet_of, settle, settled_balance, Outcome};

verus! {

/// The weighted outcome bands of the reel engine.
#[derive(Clone, Copy, Debug, PartialEq, Eq, Structural)]
pub enum Band {
    Jackpot,
    BigWin,
    SmallWin,
    Lose,
}

/// The band that a roll (a draw scaled to a whole percent) falls in:
/// 0..2 jackpot, 2..12 big win, 12..32 small win, the rest a loss.
pub open spec fn band_of(roll: int) -> Band {
    if roll < 2 {
        Band::Jackpot
    } else if roll < 12 {
        Band::BigWin
    } else if roll < 32 {
        Band::SmallWin
    } else {
        Band::Lose
    }
}

/// The payout of a band, in bets.
pub open spec fn band_multiplier(b: Band) -> int {
    match b {
        Band::Jackpot => 12,
        Band::BigWin => 2,
        Band::SmallWin => 1,
        Band::Lose => -1,
    }
}

/// The outcome class that a band reports.
pub open spec fn band_outcome(b: Band) -> Outcome {
    match b {
        Band::Jackpot => Outcome::Jackpot,
        Band::BigWin => Outcome::Win,
        Band::SmallWin => Outcome::SmallWin,
        Band::Lose => Outcome::Lose,
    }
}

/// The random draws that one reel spin consumes, each already scaled to its
/// range.
#[derive(Clone, Copy, Debug)]
pub struct ReelDraws {
    /// The band draw, as a whole percent.
    pub roll: u32,
    /// The repeated symbol, below 3.
    pub symbol: u8,
    /// Which of the two other symbols is the odd one, below 2.
    pub other: u8,
    /// The reel that holds the odd symbol, below 3.
    pub slot: u8,
    /// Which ordering of the three symbols a losing spin shows, below 6.
    pub perm: u8,
}

impl ReelDraws {
    /// Every draw lies in its range.
    pub open spec fn wf(&self) -> bool {
        &&& self.symbol < 3
        &&& self.other < 2
        &&& self.slot < 3
        &&& self.perm < 6
    }
}

/// Three reels showing symbol `sym`.
pub open spec fn all_same(sym: u8) -> Seq<u8> {
    seq![sym, sym, sym]
}

/// The symbol other than `m` picked by `other`: the next one after `m`
/// (cyclically) for 0, the one after that for 1.
pub open spec fn odd_symbol(m: u8, other: u8) -> u8 {
    ((m + 1 + other) % 3) as u8
}

/// Three reels showing `m`, except reel `slot`, which shows the odd symbol.
pub open spec fn two_match(m: u8, other: u8, slot: u8) -> Seq<u8> {
    let d = odd_symbol(m, other);
    seq![
        if slot == 0 { d } else { m },
        if slot == 1 { d } else { m },
        if slot == 2 { d } else { m },
    ]
}

/// The orderings of the three symbols, in lexicographic order.
pub open spec fn permutation(perm: u8) -> Seq<u8> {
    if perm == 0 {
        seq![0u8, 1u8, 2u8]
    } else if perm == 1 {
        seq![0u8, 2u8, 1u8]
    } else if perm == 2 {
        seq![1u8, 0u8, 2u8]
    } else if perm == 3 {
        seq![1u8, 2u8, 0u8]
    } else if perm == 4 {
        seq![2u8, 0u8, 1u8]
    } else {
        seq![2u8, 1u8, 0u8]
    }
}

/// The symbols that a reel spin with draws `d` shows.
pub open spec fn reel_symbols(d: ReelDraws) -> Seq<u8> {
    match band_of(d.roll as int) {
        Band::Jackpot => all_same(d.symbol),
        Band::Lose => permutation(d.perm),
        _ => two_match(d.symbol, d.other, d.slot),
    }
}

/// Picks the band of a roll.
pub fn select_band(roll: u32) -> (r: Band)
    ensures
        r == band_of(roll as int),
{
    if roll < 2 {
        Band::Jackpot
    } else if roll < 12 {
        Band::BigWin
    } else if roll < 32 {
        Band::SmallWin
    } else {
        Band::Lose
    }
}

/// Three reels showing one symbol.
pub fn jackpot_symbols(sym: u8) -> (r: Vec<u8>)
    ensures
        r@ == all_same(sym),
{
    let mut r: Vec<u8> = Vec::new();
    r.push(sym);
    r.push(sym);
    r.push(sym);
    assert(r@ == all_same(sym));
    r
}

/// Three reels with exactly two equal: `m` twice, and the odd symbol picked
/// by `other` on reel `slot`.
pub fn two_match_symbols(m: u8, other: u8, slot: u8) -> (r: Vec<u8>)
    requires
        m < 3,
        other < 2,
        slot < 3,
    ensures
        r@ == two_match(m, other, slot),
{
    let d = (m + 1 + other) % 3;
    let mut r: Vec<u8> = Vec::new();
    r.push(if slot == 0 { d } else { m });
    r.push(if slot == 1 { d } else { m });
    r.push(if slot == 2 { d } else { m });
    assert(r@ == two_match(m, other, slot));
    r
}

/// Three reels showing the three symbols in the ordering picked by `perm`.
pub fn all_different_symbols(perm: u8) -> (r: Vec<u8>)
    requires
        perm < 6,
    ensures
        r@ == permutation(perm),
{
    let (a, b, c): (u8, u8, u8) = if perm == 0 {
        (0, 1, 2)
    } else if perm == 1 {
        (0, 2, 1)
    } else if perm == 2 {
        (1, 0, 2)
    } else if perm == 3 {
        (1, 2, 0)
    } else if perm == 4 {
        (2, 0, 1)
    } else {
        (2, 1, 0)
    };
    let mut r: Vec<u8> = Vec::new();
    r.push(a);
    r.push(b);
    r.push(c);
    assert(r@ == permutation(perm));
    r
}

/// The result of one reel spin.
pub struct ReelResult {
    /// The three reels.
    pub symbols: Vec<u8>,
    /// The net change of balance.
    pub delta: i64,
    /// The balance after the spin, never negative.
    pub balance: i64,
    pub outcome: Outcome,
}

/// Whether `r` is the result of a reel spin with draws `d` from `balance`
/// with `bet`.
pub open spec fn is_reel_spin(balance: i32, bet: i32, d: ReelDraws, r: ReelResult) -> bool {
    let band = band_of(d.roll as int);
    &&& r.symbols@ == reel_symbols(d)
    &&& r.delta == band_multiplier(band) * effective_bet(bet)
    &&& r.balance == settled_balance(balance as int, r.delta as int)
    &&& r.outcome == band_outcome(band)
}

/// Plays one reel spin with the given draws: picks the band, lays out the
/// reels for it, pays the band's multiple of the bet and settles the balance.
pub fn spin_reels(balance: i32, bet: i32, draws: &ReelDraws) -> (r: ReelResult)
    requires
        draws.wf(),
    ensures
        is_reel_spin(balance, bet, *draws, r),
{
    let bet = effective_bet_of(bet) as i64;
    let band = select_band(draws.roll);
    let (symbols, delta, outcome) = match band {
        Band::Jackpot => (jackpot_symbols(draws.symbol), bet * 12, Outcome::Jackpot),
        Band::BigWin => (
            two_match_symbols(draws.symbol, draws.other, draws.slot),
            bet * 2,
            Outcome::Win,
        ),
        Band::SmallWin => (
            two_match_symbols(draws.symbol, draws.other, draws.slot),
            bet,
            Outcome::SmallWin,
        ),
        Band::Lose => (all_different_symbols(draws.perm), -bet, Outcome::Lose),
    };
    let new_balance = settle(balance, delta);
    ReelResult { symbols, delta, balance: new_balance, outcome }
}

/// All three reels show one symbol.
pub open spec fn all_equal(a: Seq<u8>) -> bool {
    a.len() == 3 && a[0] == a[1] && a[1] == a[2]
}

/// Two reels show one symbol and the third another.
pub open spec fn exactly_two_equal(a: Seq<u8>) -> bool {
    &&& a.len() == 3
    &&& {
        ||| (a[0] == a[1] && a[1] != a[2])
        ||| (a[0] == a[2] && a[0] != a[1])
        ||| (a[1] == a[2] && a[0] != a[1])
    }
}

/// The three reels show three different symbols.
pub open spec fn pairwise_distinct(a: Seq<u8>) -> bool {
    a.len() == 3 && a[0] != a[1] && a[0] != a[2] && a[1] != a[2]
}

/// Every reel spin shows three valid symbols laid out as its band demands:
/// all equal for a jackpot, exactly two equal for a big or small win, all
/// different for a loss.
pub proof fn lemma_reel_layouts(d: ReelDraws)
    requires
        d.wf(),
    ensures
        reel_symbols(d).len() == 3,
        forall|k: int| 0 <= k < 3 ==> #[trigger] reel_symbols(d)[k] < 3,
        band_of(d.roll as int) == Band::Jackpot ==> all_equal(reel_symbols(d)),
        band_of(d.roll as int) == Band::BigWin ==> exactly_two_equal(reel_symbols(d)),
        band_of(d.roll as int) == Band::SmallWin ==> exactly_two_equal(reel_symbols(d)),
        band_of(d.roll as int) == Band::Lose ==> pairwise_distinct(reel_symbols(d)),
{
    let a = reel_symbols(d);
    assert forall|k: int| 0 <= k < 3 implies #[trigger] a[k] < 3 by {
        assert(k == 0 || k == 1 || k == 2);
    }
}

/// How many of the rolls `0..n` fall in band `b`.
pub open spec fn band_count(b: Band, n: int) -> nat
    decreases n,
{
    if n <= 0 {
        0
    } else {
        band_count(b, n - 1) + if band_of(n - 1) == b {
            1nat
        } else {
            0nat
        }
    }
}

/// The summed payout, in bets, over the rolls `0..n`.
pub open spec fn payout_total(n: int) -> int
    decreases n,
{
    if n <= 0 {
        0
    } else {
        payout_total(n - 1) + band_multiplier(band_of(n - 1))
    }
}

/// Across a stretch of rolls that all fall in one band, only that band's
/// count grows, and the payout grows by its multiplier per roll.
proof fn lemma_band_stretch(lo: int, n: int, hi: int, band: Band)
    requires
        0 <= lo <= n <= hi,
        forall|r: int| lo <= r < hi ==> #[trigger] band_of(r) == band,
    ensures
        forall|b: Band|
            #[trigger] band_count(b, n) == band_count(b, lo) + if b == band {
                n - lo
            } else {
                0
            },
        payout_total(n) == payout_total(lo) + (n - lo) * band_multiplier(band),
    decreases n - lo,
{
    if n > lo {
        lemma_band_stretch(lo, n - 1, hi, band);
        assert(band_of(n - 1) == band);
        let m = band_multiplier(band);
        assert((n - 1 - lo) * m + m == (n - lo) * m) by (nonlinear_arith);
        assert forall|b: Band|
            #[trigger] band_count(b, n) == band_count(b, lo) + if b == band {
                n - lo
            } else {
                0
            } by {
            assert(band_count(b, n - 1) == band_count(b, lo) + if b == band {
                n - 1 - lo
            } else {
                0
            });
        }
    }
}

/// With the roll uniform over the hundred whole percents, the bands come up
/// 2, 10, 20 and 68 times in a hundred, and the payout summed over all
/// hundred rolls is -4 bets: an expected return of -0.04 of the bet per spin.
pub proof fn lemma_band_frequencies()
    ensures
        band_count(Band::Jackpot, 100) == 2,
        band_count(Band::BigWin, 100) == 10,
        band_count(Band::SmallWin, 100) == 20,
        band_count(Band::Lose, 100) == 68,
        payout_total(100) == -4,
{
    lemma_band_stretch(0, 2, 2, Band::Jackpot);
    lemma_band_stretch(2, 12, 12, Band::BigWin);
    lemma_band_stretch(12, 32, 32, Band::SmallWin);
    lemma_band_stretch(32, 100, 100, Band::Lose);
    assert(band_count(Band::Jackpot, 100) == 2);
    assert(band_count(Band::BigWin, 100) == 10);
    assert(band_count(Band::SmallWin, 100) == 20);
    assert(band_count(Band::Lose, 100) == 68);
}

} // verus!
