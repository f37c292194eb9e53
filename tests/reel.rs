use slot_machine::payout::{effective_bet_of, settle, Outcome};
use slot_machine::reel::{
    all_different_symbols, jackpot_symbols, select_band, spin_reels, two_match_symbols, Band,
    ReelDraws,
};

fn draws(roll: u32) -> ReelDraws {
    ReelDraws { roll, symbol: 1, other: 0, slot: 2, perm: 4 }
}

fn multiplier(b: Band) -> i64 {
    match b {
        Band::Jackpot => 12,
        Band::BigWin => 2,
        Band::SmallWin => 1,
        Band::Lose => -1,
    }
}

#[test]
fn roll_just_below_two_is_jackpot() {
    let roll = 1.999999f64.floor() as u32;
    let r = spin_reels(50, 7, &ReelDraws { roll, symbol: 2, other: 1, slot: 0, perm: 5 });
    assert_eq!(r.outcome, Outcome::Jackpot);
    assert_eq!(r.symbols, vec![2, 2, 2]);
    assert_eq!(r.delta, 7 * 12);
    assert_eq!(r.balance, 50 + 84);
}

#[test]
fn band_thresholds() {
    assert_eq!(select_band(0), Band::Jackpot);
    assert_eq!(select_band(1), Band::Jackpot);
    assert_eq!(select_band(2), Band::BigWin);
    assert_eq!(select_band(11), Band::BigWin);
    assert_eq!(select_band(12), Band::SmallWin);
    assert_eq!(select_band(31), Band::SmallWin);
    assert_eq!(select_band(32), Band::Lose);
    assert_eq!(select_band(99), Band::Lose);
}

#[test]
fn band_frequencies_and_expected_return() {
    let mut counts = [0u32; 4];
    let mut total: i64 = 0;
    for roll in 0..100 {
        let b = select_band(roll);
        let i = match b {
            Band::Jackpot => 0,
            Band::BigWin => 1,
            Band::SmallWin => 2,
            Band::Lose => 3,
        };
        counts[i] += 1;
        total += multiplier(b);
        assert_eq!(spin_reels(1000, 10, &draws(roll)).delta, multiplier(b) * 10);
    }
    assert_eq!(counts, [2, 10, 20, 68]);
    assert_eq!(total, -4);
}

#[test]
fn layouts_fit_their_band() {
    for roll in [0u32, 5, 20, 70] {
        for symbol in 0..3u8 {
            for other in 0..2u8 {
                for slot in 0..3u8 {
                    for perm in 0..6u8 {
                        let d = ReelDraws { roll, symbol, other, slot, perm };
                        let s = spin_reels(10, 1, &d).symbols;
                        assert_eq!(s.len(), 3);
                        assert!(s.iter().all(|&x| x < 3));
                        let equal_pairs = (s[0] == s[1]) as u32
                            + (s[0] == s[2]) as u32
                            + (s[1] == s[2]) as u32;
                        match select_band(roll) {
                            Band::Jackpot => assert_eq!(equal_pairs, 3),
                            Band::BigWin | Band::SmallWin => assert_eq!(equal_pairs, 1),
                            Band::Lose => assert_eq!(equal_pairs, 0),
                        }
                    }
                }
            }
        }
    }
}

#[test]
fn two_match_layout() {
    assert_eq!(two_match_symbols(0, 0, 0), vec![1, 0, 0]);
    assert_eq!(two_match_symbols(0, 1, 1), vec![0, 2, 0]);
    assert_eq!(two_match_symbols(2, 0, 2), vec![2, 2, 0]);
    assert_eq!(two_match_symbols(2, 1, 0), vec![1, 2, 2]);
}

#[test]
fn jackpot_and_permutation_layouts() {
    assert_eq!(jackpot_symbols(1), vec![1, 1, 1]);
    let all: Vec<Vec<u8>> = (0..6).map(all_different_symbols).collect();
    assert_eq!(
        all,
        vec![
            vec![0, 1, 2],
            vec![0, 2, 1],
            vec![1, 0, 2],
            vec![1, 2, 0],
            vec![2, 0, 1],
            vec![2, 1, 0]
        ]
    );
}

#[test]
fn reel_outcomes_and_labels() {
    assert_eq!(spin_reels(0, 3, &draws(5)).outcome, Outcome::Win);
    assert_eq!(spin_reels(0, 3, &draws(5)).delta, 6);
    assert_eq!(spin_reels(0, 3, &draws(20)).outcome, Outcome::SmallWin);
    assert_eq!(spin_reels(0, 3, &draws(20)).delta, 3);
    assert_eq!(spin_reels(0, 3, &draws(40)).outcome, Outcome::Lose);
    assert_eq!(Outcome::Jackpot.label(), "WIN_JACKPOT");
    assert_eq!(Outcome::Win.label(), "WIN");
    assert_eq!(Outcome::SmallWin.label(), "WIN_SMALL");
    assert_eq!(Outcome::Lose.label(), "LOSE");
}

#[test]
fn reel_loss_clamps_balance() {
    let r = spin_reels(2, 5, &draws(80));
    assert_eq!(r.delta, -5);
    assert_eq!(r.balance, 0);
    assert_eq!(r.symbols, vec![2, 0, 1]);
}

#[test]
fn reel_nonpositive_bet_plays_as_one() {
    for bet in [0, -3, i32::MIN] {
        for roll in [0u32, 7, 15, 64] {
            let a = spin_reels(9, bet, &draws(roll));
            let b = spin_reels(9, 1, &draws(roll));
            assert_eq!(a.symbols, b.symbols);
            assert_eq!(a.delta, b.delta);
            assert_eq!(a.balance, b.balance);
            assert_eq!(a.outcome, b.outcome);
        }
    }
}

#[test]
fn reel_extreme_values() {
    let r = spin_reels(i32::MAX, i32::MAX, &draws(0));
    assert_eq!(r.delta, i32::MAX as i64 * 12);
    assert_eq!(r.balance, i32::MAX as i64 * 13);
    let r = spin_reels(i32::MIN, i32::MAX, &draws(50));
    assert_eq!(r.balance, 0);
}

#[test]
fn payout_helpers() {
    assert_eq!(effective_bet_of(-4), 1);
    assert_eq!(effective_bet_of(0), 1);
    assert_eq!(effective_bet_of(6), 6);
    assert_eq!(settle(5, -9), 0);
    assert_eq!(settle(5, 9), 14);
    assert_eq!(settle(5, -5), 0);
}
