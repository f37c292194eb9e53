//! The grid engine: a ten-by-ten grid of symbols, read row by row, that pays
//! for every maximal run of three or more equal adjacent symbols in a row.

use vstd::prelude::*;

use crate::payout::{effective_bet, effective_bet_of, settle, settled_balance, Outcome};

verus! {

/// Cells in a row, and rows in the grid.
pub const GRID_SIZE: usize = 10;

/// Cells in the grid, stored row by row.
pub const TOTAL_SLOTS: usize = 100;

/// Whether cell `i` continues the run of cell `i - 1`: both in one row, with
/// equal symbols.
pub open spec fn joins_left(s: Seq<u8>, i: int) -> bool {
    0 < i < s.len() && i % 10 != 0 && s[i - 1] == s[i]
}

/// The first cell of the maximal run (within one row) that holds cell `i`.
pub open spec fn run_begin(s: Seq<u8>, i: int) -> int
    decreases i,
{
    if joins_left(s, i) {
        run_begin(s, i - 1)
    } else {
        i
    }
}

/// One past the last cell of the maximal run (within one row) that holds cell `i`.
pub open spec fn run_end(s: Seq<u8>, i: int) -> int
    decreases s.len() - i,
{
    if 0 <= i && joins_left(s, i + 1) {
        run_end(s, i + 1)
    } else {
        i + 1
    }
}

/// The length of the maximal run that holds cell `i`.
pub open spec fn run_length(s: Seq<u8>, i: int) -> int {
    run_end(s, i) - run_begin(s, i)
}

/// Whether a maximal run begins at cell `i`.
pub open spec fn starts_run(s: Seq<u8>, i: int) -> bool {
    run_begin(s, i) == i
}

/// The multiplier, in tenths of the bet, that a run of `len` cells pays.
pub open spec fn run_tenths(len: int) -> nat {
    if len == 3 {
        2
    } else if len == 4 {
        5
    } else if len == 5 {
        10
    } else if len == 6 {
        20
    } else if len == 7 {
        40
    } else if len == 8 {
        80
    } else if len == 9 {
        160
    } else if len == 10 {
        500
    } else {
        0
    }
}

/// The number of winning runs (length three or more) that begin before cell `n`.
pub open spec fn winning_lines_in(s: Seq<u8>, n: int) -> nat
    decreases n,
{
    if n <= 0 {
        0
    } else {
        winning_lines_in(s, n - 1) + if starts_run(s, n - 1) && run_length(s, n - 1) >= 3 {
            1nat
        } else {
            0nat
        }
    }
}

/// The summed multiplier, in tenths, of the runs that begin before cell `n`.
pub open spec fn multiplier_in(s: Seq<u8>, n: int) -> nat
    decreases n,
{
    if n <= 0 {
        0
    } else {
        multiplier_in(s, n - 1) + if starts_run(s, n - 1) {
            run_tenths(run_length(s, n - 1))
        } else {
            0nat
        }
    }
}

/// The cells before `n` that lie in a winning run, in increasing order.
pub open spec fn winning_cells_in(s: Seq<u8>, n: int) -> Seq<usize>
    decreases n,
{
    if n <= 0 {
        Seq::empty()
    } else if run_length(s, n - 1) >= 3 {
        winning_cells_in(s, n - 1).push((n - 1) as usize)
    } else {
        winning_cells_in(s, n - 1)
    }
}

/// Whether `(tenths, cells, lines)` is the scan of grid `s`: the summed
/// multiplier in tenths, the winning cells in increasing order, and the
/// number of winning runs.
pub open spec fn is_scan_of(s: Seq<u8>, tenths: u32, cells: Seq<usize>, lines: u32) -> bool {
    &&& tenths == multiplier_in(s, TOTAL_SLOTS as int)
    &&& cells == winning_cells_in(s, TOTAL_SLOTS as int)
    &&& lines == winning_lines_in(s, TOTAL_SLOTS as int)
}

/// A cell and a later one before the end of the first one's row share its row.
proof fn lemma_same_row(p: int, j: int)
    requires
        0 <= p <= j < p - p % 10 + 10,
    ensures
        j % 10 == p % 10 + (j - p),
        j - j % 10 == p - p % 10,
{
}

/// Cell `c` of row `row` sits at that column.
proof fn lemma_cell(row: int, c: int)
    requires
        0 <= row,
        0 <= c <= 10,
    ensures
        c < 10 ==> (row * 10 + c) % 10 == c,
        c == 10 ==> (row * 10 + c) % 10 == 0,
{
}

/// The run from cell `j` onward stays in its row and holds `s[j]` throughout.
proof fn lemma_run_end(s: Seq<u8>, j: int)
    requires
        0 <= j < s.len(),
    ensures
        j < run_end(s, j) <= s.len(),
        run_end(s, j) <= j - j % 10 + 10,
        forall|m: int| j <= m < run_end(s, j) ==> #[trigger] s[m] == s[j],
        forall|m: int| j <= m < run_end(s, j) ==> #[trigger] run_end(s, m) == run_end(s, j),
    decreases s.len() - j,
{
    if joins_left(s, j + 1) {
        lemma_run_end(s, j + 1);
        lemma_same_row(j, j + 1);
        assert(run_end(s, j) == run_end(s, j + 1));
        assert(s[j] == s[j + 1]);
    }
}

/// The run back from cell `j` stays in its row and holds `s[j]` throughout.
proof fn lemma_run_begin(s: Seq<u8>, j: int)
    requires
        0 <= j < s.len(),
    ensures
        j - j % 10 <= run_begin(s, j) <= j,
        !joins_left(s, run_begin(s, j)),
        forall|m: int| run_begin(s, j) <= m <= j ==> #[trigger] s[m] == s[j],
    decreases j,
{
    if joins_left(s, j) {
        lemma_run_begin(s, j - 1);
        assert(j - 1 - (j - 1) % 10 == j - j % 10);
    }
}

/// `run_begin` and `run_end` bound the maximal run that holds cell `i`: the
/// cells between them lie in `i`'s row and all show `s[i]`, and neither end
/// can be pushed further without leaving the row or meeting another symbol.
pub proof fn lemma_run_is_maximal(s: Seq<u8>, i: int)
    requires
        0 <= i < s.len(),
    ensures
        i - i % 10 <= run_begin(s, i) <= i < run_end(s, i) <= i - i % 10 + 10,
        run_end(s, i) <= s.len(),
        forall|m: int| run_begin(s, i) <= m < run_end(s, i) ==> #[trigger] s[m] == s[i],
        run_begin(s, i) == i - i % 10 || s[run_begin(s, i) - 1] != s[i],
        run_end(s, i) == i - i % 10 + 10 || run_end(s, i) == s.len() || s[run_end(s, i)] != s[i],
        run_length(s, i) >= 1,
{
    lemma_run_begin(s, i);
    lemma_run_end(s, i);
    let b = run_begin(s, i);
    let e = run_end(s, i);
    if b > i - i % 10 {
        lemma_same_row(b, i);
        assert(b % 10 != 0);
        assert(s[b] == s[i]);
    }
    if e < i - i % 10 + 10 && e < s.len() {
        assert(run_end(s, e - 1) == e);
        lemma_same_row(i, e);
        assert(s[e - 1] == s[i]);
        lemma_run_end(s, e);
        assert(!joins_left(s, e));
    }
}

/// Every cell of the run that begins at `p` has that run as its own.
proof fn lemma_run_block(s: Seq<u8>, p: int, j: int)
    requires
        0 <= p <= j < run_end(s, p),
        p < s.len(),
        starts_run(s, p),
    ensures
        run_begin(s, j) == p,
        run_end(s, j) == run_end(s, p),
    decreases j - p,
{
    lemma_run_end(s, p);
    if j > p {
        lemma_run_block(s, p, j - 1);
        lemma_same_row(p, j);
        assert(joins_left(s, j));
    }
}

/// The totals grow across the run that begins at `p` by that run's share.
proof fn lemma_block_totals(s: Seq<u8>, p: int, n: int)
    requires
        0 <= p < s.len(),
        starts_run(s, p),
        p <= n <= run_end(s, p),
    ensures
        winning_lines_in(s, n) == winning_lines_in(s, p) + if n > p && run_end(s, p) - p >= 3 {
            1nat
        } else {
            0nat
        },
        multiplier_in(s, n) == multiplier_in(s, p) + if n > p {
            run_tenths(run_end(s, p) - p)
        } else {
            0nat
        },
        run_end(s, p) - p < 3 ==> winning_cells_in(s, n) == winning_cells_in(s, p),
        run_end(s, p) - p >= 3 ==> winning_cells_in(s, n) == winning_cells_in(s, p) + Seq::new(
            (n - p) as nat,
            |k: int| (p + k) as usize,
        ),
    decreases n - p,
{
    if n > p {
        lemma_block_totals(s, p, n - 1);
        lemma_run_block(s, p, n - 1);
        if run_end(s, p) - p >= 3 {
            assert(winning_cells_in(s, n) =~= winning_cells_in(s, p) + Seq::new(
                (n - p) as nat,
                |k: int| (p + k) as usize,
            ));
        }
    } else {
        assert(winning_cells_in(s, p) + Seq::new(0, |k: int| (p + k) as usize) =~= winning_cells_in(
            s,
            p,
        ));
    }
}

/// The cells before `n` that the winning list holds are exactly those whose
/// maximal run has length three or more, each once, in increasing order.
proof fn lemma_cells_before(s: Seq<u8>, n: int)
    requires
        0 <= n <= s.len(),
        n <= TOTAL_SLOTS,
    ensures
        forall|k: int|
            0 <= k < winning_cells_in(s, n).len() ==> #[trigger] winning_cells_in(s, n)[k] < n
                && run_length(s, winning_cells_in(s, n)[k] as int) >= 3,
        forall|i: int|
            0 <= i < n && run_length(s, i) >= 3 ==> #[trigger] winning_cells_in(s, n).contains(
                i as usize,
            ),
        forall|a: int, b: int|
            0 <= a < b < winning_cells_in(s, n).len() ==> #[trigger] winning_cells_in(s, n)[a]
                < #[trigger] winning_cells_in(s, n)[b],
    decreases n,
{
    if n > 0 {
        lemma_cells_before(s, n - 1);
        let prev = winning_cells_in(s, n - 1);
        let cur = winning_cells_in(s, n);
        if run_length(s, n - 1) >= 3 {
            assert(cur == prev.push((n - 1) as usize));
            assert forall|k: int| 0 <= k < cur.len() implies #[trigger] cur[k] < n && run_length(
                s,
                cur[k] as int,
            ) >= 3 by {
                if k < prev.len() {
                    assert(cur[k] == prev[k]);
                }
            }
            assert forall|a: int, b: int| 0 <= a < b < cur.len() implies #[trigger] cur[a]
                < #[trigger] cur[b] by {
                assert(cur[a] == prev[a]);
                if b < prev.len() {
                    assert(cur[b] == prev[b]);
                }
            }
        }
        assert forall|i: int| 0 <= i < n && run_length(s, i) >= 3 implies #[trigger] cur.contains(
            i as usize,
        ) by {
            if i < n - 1 {
                assert(prev.contains(i as usize));
                let k = choose|k: int| 0 <= k < prev.len() && prev[k] == i as usize;
                assert(cur[k] == i as usize);
            } else {
                assert(cur[cur.len() - 1] == i as usize);
            }
        }
    }
}

/// The winning cells of a grid are exactly the cells of its rows' maximal
/// runs of three or more equal symbols: every listed cell is a cell of the
/// grid in such a run, every cell in such a run is listed, and no cell is
/// listed twice (the list is strictly increasing). A cell whose run is
/// shorter than three is never listed.
pub proof fn lemma_winning_cells_exact(s: Seq<u8>)
    requires
        s.len() == TOTAL_SLOTS,
    ensures
        forall|i: int|
            0 <= i < TOTAL_SLOTS ==> (#[trigger] winning_cells_in(s, TOTAL_SLOTS as int).contains(
                i as usize,
            ) <==> run_length(s, i) >= 3),
        forall|k: int|
            0 <= k < winning_cells_in(s, TOTAL_SLOTS as int).len() ==> #[trigger] winning_cells_in(
                s,
                TOTAL_SLOTS as int,
            )[k] < TOTAL_SLOTS,
        forall|a: int, b: int|
            0 <= a < b < winning_cells_in(s, TOTAL_SLOTS as int).len() ==> #[trigger] winning_cells_in(
                s,
                TOTAL_SLOTS as int,
            )[a] < #[trigger] winning_cells_in(s, TOTAL_SLOTS as int)[b],
{
    lemma_cells_before(s, TOTAL_SLOTS as int);
    let cells = winning_cells_in(s, TOTAL_SLOTS as int);
    assert forall|i: int| 0 <= i < TOTAL_SLOTS implies (#[trigger] cells.contains(i as usize)
        <==> run_length(s, i) >= 3) by {
        if cells.contains(i as usize) {
            let k = choose|k: int| 0 <= k < cells.len() && cells[k] == i as usize;
            assert(cells[k] < 100);
        }
    }
}

/// The run from a cell of a row whose ten cells are all equal ends at the
/// row's end.
proof fn lemma_full_row_end(s: Seq<u8>, p: int, j: int)
    requires
        s.len() == TOTAL_SLOTS,
        0 <= p,
        p + 10 <= s.len(),
        p % 10 == 0,
        p <= j < p + 10,
        forall|m: int| p <= m < p + 10 ==> #[trigger] s[m] == s[p],
    ensures
        run_end(s, j) == p + 10,
    decreases p + 10 - j,
{
    if j + 1 < p + 10 {
        lemma_same_row(p, j + 1);
        assert(joins_left(s, j + 1));
        lemma_full_row_end(s, p, j + 1);
    } else {
        assert((j + 1) % 10 == 0);
    }
}

/// A row of ten equal symbols is one run, not several: it adds exactly one
/// winning line, a multiplier of fifty bets (500 tenths), and all ten of its
/// cells, in order, to the winning cells.
pub proof fn lemma_full_row_one_run(s: Seq<u8>, row: int)
    requires
        s.len() == TOTAL_SLOTS,
        0 <= row < GRID_SIZE,
        forall|m: int| row * 10 <= m < row * 10 + 10 ==> #[trigger] s[m] == s[row * 10],
    ensures
        winning_lines_in(s, row * 10 + 10) == winning_lines_in(s, row * 10) + 1,
        multiplier_in(s, row * 10 + 10) == multiplier_in(s, row * 10) + 500,
        winning_cells_in(s, row * 10 + 10) == winning_cells_in(s, row * 10) + Seq::new(
            10,
            |k: int| (row * 10 + k) as usize,
        ),
{
    let p = row * 10;
    lemma_cell(row, 0);
    lemma_full_row_end(s, p, p);
    lemma_block_totals(s, p, p + 10);
}

/// Scanning is a function of the grid: two scans of one grid agree on the
/// multiplier, the winning cells and the number of winning runs.
pub proof fn lemma_scan_deterministic(
    s: Seq<u8>,
    t1: u32,
    c1: Seq<usize>,
    l1: u32,
    t2: u32,
    c2: Seq<usize>,
    l2: u32,
)
    requires
        is_scan_of(s, t1, c1, l1),
        is_scan_of(s, t2, c2, l2),
    ensures
        t1 == t2,
        c1 == c2,
        l1 == l2,
{
}

/// The multiplier, in tenths of the bet, that a run of `len` cells pays.
fn run_multiplier(len: usize) -> (r: u32)
    ensures
        r == run_tenths(len as int),
{
    match len {
        3 => 2,
        4 => 5,
        5 => 10,
        6 => 20,
        7 => 40,
        8 => 80,
        9 => 160,
        10 => 500,
        _ => 0,
    }
}

/// Scans every row for maximal runs of equal symbols and returns the summed
/// multiplier of the runs of three or more (in tenths of the bet), the cells
/// of those runs in increasing order, and how many such runs there are.
pub fn find_winning_lines(symbols: &[u8]) -> (r: (u32, Vec<usize>, u32))
    requires
        symbols@.len() == TOTAL_SLOTS,
    ensures
        is_scan_of(symbols@, r.0, r.1@, r.2),
        r.0 <= 5000,
{
    let ghost s = symbols@;
    let mut total_tenths: u32 = 0;
    let mut winning_cells: Vec<usize> = Vec::new();
    let mut lines_won: u32 = 0;
    let mut row: usize = 0;
    while row < GRID_SIZE
        invariant
            s == symbols@,
            s.len() == 100,
            row <= 10,
            total_tenths == multiplier_in(s, row * 10),
            winning_cells@ == winning_cells_in(s, row * 10),
            lines_won == winning_lines_in(s, row * 10),
            total_tenths <= 50 * row * 10,
            lines_won <= row * 10,
        decreases 10 - row,
    {
        let row_start = row * GRID_SIZE;
        let mut col: usize = 0;
        while col < GRID_SIZE
            invariant
                s == symbols@,
                s.len() == 100,
                row < 10,
                row_start == row * 10,
                col <= 10,
                col < 10 ==> starts_run(s, row_start + col),
                total_tenths == multiplier_in(s, row_start + col),
                winning_cells@ == winning_cells_in(s, row_start + col),
                lines_won == winning_lines_in(s, row_start + col),
                total_tenths <= 50 * (row_start + col),
                lines_won <= row_start + col,
            decreases 10 - col,
        {
            let ghost p = row_start + col;
            let current_sym = symbols[row_start + col];
            let mut run_length: usize = 1;
            while col + run_length < GRID_SIZE && symbols[row_start + col + run_length]
                == current_sym
                invariant
                    s == symbols@,
                    s.len() == 100,
                    row < 10,
                    col < 10,
                    p == row_start + col,
                    row_start == row * 10,
                    current_sym == s[p],
                    current_sym == s[p + run_length - 1],
                    1 <= run_length,
                    col + run_length <= 10,
                    run_end(s, p + run_length - 1) == run_end(s, p),
                decreases 10 - col - run_length,
            {
                proof {
                    lemma_cell(row as int, col + run_length);
                }
                assert(joins_left(s, p + run_length));
                run_length += 1;
            }
            proof {
                lemma_cell(row as int, col + run_length);
                assert(!joins_left(s, p + run_length));
                lemma_run_end(s, p);
                lemma_block_totals(s, p, p + run_length);
            }
            if run_length >= 3 {
                let m = run_multiplier(run_length);
                total_tenths = total_tenths + m;
                lines_won = lines_won + 1;
                let mut i: usize = 0;
                while i < run_length
                    invariant
                        s == symbols@,
                        s.len() == 100,
                        p == row_start + col,
                        col + run_length <= 10,
                        row_start == row * 10,
                        row < 10,
                        i <= run_length,
                        run_length >= 3,
                        run_end(s, p) == p + run_length,
                        starts_run(s, p),
                        winning_cells@ == winning_cells_in(s, p + i),
                    decreases run_length - i,
                {
                    proof {
                        lemma_run_block(s, p, p + i);
                    }
                    winning_cells.push(row_start + col + i);
                    i += 1;
                }
            }
            col += run_length;
            proof {
                lemma_cell(row as int, col as int);
                if col < 10 {
                    assert(!joins_left(s, row_start + col));
                }
            }
        }
        row += 1;
    }
    (total_tenths, winning_cells, lines_won)
}

/// The net change of balance for a grid spin whose runs pay `tenths` tenths
/// of the bet: the bet is staked, and the floor of bet times multiplier is
/// paid back.
pub open spec fn grid_delta(bet: i32, tenths: int) -> int {
    effective_bet(bet) * tenths / 10 - effective_bet(bet)
}

/// The outcome class of a grid spin with `lines` winning runs paying `tenths`
/// tenths of the bet.
pub open spec fn grid_outcome(lines: int, tenths: int) -> Outcome {
    if lines == 0 {
        Outcome::Lose
    } else if tenths >= 100 {
        Outcome::Jackpot
    } else if tenths >= 20 {
        Outcome::Win
    } else {
        Outcome::SmallWin
    }
}

/// The result of one grid spin.
pub struct SpinResult {
    /// The grid, row by row.
    pub symbols: Vec<u8>,
    /// The net change of balance.
    pub delta: i64,
    /// The balance after the spin, never negative.
    pub balance: i64,
    pub outcome: Outcome,
    /// The cells of all winning runs, in increasing order.
    pub winning_cells: Vec<usize>,
    /// The number of winning runs.
    pub lines_won: u32,
}

/// Whether `r` is the result of a grid spin on grid `s` from `balance` with `bet`.
pub open spec fn is_grid_spin(balance: i32, bet: i32, s: Seq<u8>, r: SpinResult) -> bool {
    let tenths = multiplier_in(s, TOTAL_SLOTS as int) as int;
    &&& r.symbols@ == s
    &&& r.winning_cells@ == winning_cells_in(s, TOTAL_SLOTS as int)
    &&& r.lines_won == winning_lines_in(s, TOTAL_SLOTS as int)
    &&& r.delta == grid_delta(bet, tenths)
    &&& r.balance == settled_balance(balance as int, r.delta as int)
    &&& r.outcome == grid_outcome(r.lines_won as int, tenths)
}

/// Plays one grid spin on the drawn grid `symbols`: scans its rows for
/// winning runs, pays the bet times their summed multiplier (rounded down)
/// against the staked bet, and settles the balance.
pub fn spin(balance: i32, bet: i32, symbols: Vec<u8>) -> (r: SpinResult)
    requires
        symbols@.len() == TOTAL_SLOTS,
    ensures
        is_grid_spin(balance, bet, symbols@, r),
{
    let bet = effective_bet_of(bet);
    let (tenths, winning_cells, lines_won) = find_winning_lines(symbols.as_slice());
    let stake = bet as i64;
    assert(0 <= stake * tenths <= 5000 * 0x8000_0000) by (nonlinear_arith)
        requires
            1 <= stake < 0x8000_0000,
            tenths <= 5000,
    ;
    let winnings = stake * (tenths as i64) / 10;
    let delta = winnings - stake;
    let outcome = if lines_won == 0 {
        Outcome::Lose
    } else if tenths >= 100 {
        Outcome::Jackpot
    } else if tenths >= 20 {
        Outcome::Win
    } else {
        Outcome::SmallWin
    };
    let new_balance = settle(balance, delta);
    SpinResult { symbols, delta, balance: new_balance, outcome, winning_cells, lines_won }
}

} // verus!
