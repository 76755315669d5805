use vstd::prelude::*;

use crate::chance::random_between;
use crate::grid::{Cell, Grid, VOID_STATE};

verus! {

/// What a rule sees of one neighbouring position: its state and the matter
/// class of that state. Off the grid this is the void sentinel, state 255 and
/// matter 0.
#[derive(Debug, Clone, Copy, PartialEq, Eq, Structural)]
pub struct Neighbor {
    pub state: u8,
    pub matter: u8,
}

/// An offset relative to the cell a rule runs for.
#[derive(Debug, Clone, Copy, PartialEq, Eq, Structural)]
pub struct Offset {
    pub x: i32,
    pub y: i32,
}

/// The environment of one rule invocation: the absolute position of the cell
/// the rule runs for. Every primitive takes the grid explicitly and works on
/// offsets from this position.
#[derive(Debug, Clone, Copy, PartialEq, Eq, Structural)]
pub struct RuleContext {
    pub x: i32,
    pub y: i32,
}

/// What `kernel` reports for the absolute position `(x, y)`.
pub open spec fn neighbor_at(grid: Grid, x: int, y: int) -> Neighbor {
    if grid.in_bounds(x, y) {
        Neighbor { state: grid.state_at(x, y), matter: grid.registry()[grid.state_at(x, y) as int].matter }
    } else {
        Neighbor { state: VOID_STATE, matter: 0 }
    }
}

/// The offset of the `k`-th position of the 3 x 3 window, scanned column by
/// column (x outer, y inner), for `k` in `0..9`.
pub open spec fn window_offset(k: int) -> (int, int) {
    (k / 3 - 1, k % 3 - 1)
}

/// How many entries of `states` equal `v`.
pub open spec fn occurrences(states: Seq<i32>, v: int) -> nat
    decreases states.len(),
{
    if states.len() == 0 {
        0
    } else {
        occurrences(states.drop_last(), v) + if states.last() == v { 1nat } else { 0nat }
    }
}

/// A value occurs at most as often as the sequence is long.
proof fn lemma_occurrences_bound(states: Seq<i32>, v: int)
    ensures
        occurrences(states, v) <= states.len(),
    decreases states.len(),
{
    if states.len() > 0 {
        lemma_occurrences_bound(states.drop_last(), v);
    }
}

/// Shifts a coordinate; `None` when the result leaves `i32`, and so the grid.
fn shift(a: i32, d: i32) -> (r: Option<i32>)
    ensures
        r matches Some(v) ==> v == a + d,
        r.is_none() ==> (a + d < i32::MIN || a + d > i32::MAX),
{
    a.checked_add(d)
}

impl RuleContext {
    /// The absolute position at offset `(dx, dy)`.
    pub open spec fn target(self, dx: int, dy: int) -> (int, int) {
        (self.x + dx, self.y + dy)
    }

    /// The absolute position of the `k`-th position of the window.
    pub open spec fn window_pos(self, k: int) -> (int, int) {
        self.target(window_offset(k).0, window_offset(k).1)
    }

    /// Whether the `k`-th position of the window lies on the grid and holds `s`.
    pub open spec fn matches_at(self, grid: Grid, k: int, s: int) -> bool {
        let (px, py) = self.window_pos(k);
        grid.in_bounds(px, py) && grid.state_at(px, py) == s
    }

    /// The offsets of the first `n` window positions that hold `s`, in scan order.
    pub open spec fn found(self, grid: Grid, s: int, n: nat) -> Seq<Offset>
        decreases n,
    {
        if n == 0 {
            Seq::empty()
        } else {
            let k = n - 1;
            self.found(grid, s, (n - 1) as nat) + if self.matches_at(grid, k, s) {
                seq![Offset { x: window_offset(k).0 as i32, y: window_offset(k).1 as i32 }]
            } else {
                Seq::empty()
            }
        }
    }

    /// The number of (position, queried state) pairs that match among the
    /// first `n` window positions.
    pub open spec fn hits(self, grid: Grid, states: Seq<i32>, n: nat) -> nat
        decreases n,
    {
        if n == 0 {
            0
        } else {
            let k = n - 1;
            let (px, py) = self.window_pos(k);
            self.hits(grid, states, (n - 1) as nat) + if grid.in_bounds(px, py) {
                occurrences(states, grid.state_at(px, py) as int)
            } else {
                0
            }
        }
    }

    /// Whether one of the first `n` window positions lies on the grid and
    /// holds one of `states`.
    pub open spec fn around(self, grid: Grid, states: Seq<i32>, n: nat) -> bool {
        exists|k: int| {
            let (px, py) = #[trigger] self.window_pos(k);
            &&& 0 <= k < n
            &&& grid.in_bounds(px, py)
            &&& states.contains(grid.state_at(px, py) as i32)
        }
    }

    /// The cell at offset `(dx, dy)`, or `None` off the grid.
    fn target_cell(&self, grid: &Grid, dx: i32, dy: i32) -> (r: Option<Cell>)
        requires
            grid.wf(),
        ensures
            r == grid.cell_at(self.x + dx, self.y + dy),
    {
        match (shift(self.x, dx), shift(self.y, dy)) {
            (Some(tx), Some(ty)) => match grid.try_get_cell(tx, ty) {
                Some(cell) => Some(*cell),
                None => None,
            },
            _ => None,
        }
    }

    /// The state and matter class at offset `(dx, dy)`, or the void sentinel
    /// off the grid.
    pub fn kernel(&self, grid: &Grid, dx: i32, dy: i32) -> (r: Neighbor)
        requires
            grid.wf(),
        ensures
            r == neighbor_at(*grid, self.x + dx, self.y + dy),
    {
        match self.target_cell(grid, dx, dy) {
            Some(c) => Neighbor { state: c.state, matter: grid.cell_prescriptors()[c.state as usize].matter },
            None => Neighbor { state: VOID_STATE, matter: 0 },
        }
    }

    /// Sets the cell at offset `(dx, dy)` to `state`; true when that position
    /// lies on the grid and `state` indexes the registry, and otherwise
    /// nothing changes.
    pub fn update(&self, grid: &mut Grid, dx: i32, dy: i32, state: i32) -> (r: bool)
        requires
            old(grid).wf(),
        ensures
            final(grid).wf(),
            r == (old(grid).in_bounds(self.x + dx, self.y + dy) && old(grid).valid_state(state as int)),
            r ==> old(grid).set_to(final(grid), self.x + dx, self.y + dy, state as u8),
            !r ==> *final(grid) == *old(grid),
    {
        if state < 0 || state > 255 {
            return false;
        }
        match (shift(self.x, dx), shift(self.y, dy)) {
            (Some(tx), Some(ty)) => grid.change_cell(tx, ty, state as u8).is_ok(),
            _ => false,
        }
    }

    /// Overwrites the rule's own cell with the state at offset `(dx, dy)`,
    /// or with state 0 when that position lies off the grid; true when the
    /// rule's own cell lies on the grid.
    pub fn copy(&self, grid: &mut Grid, dx: i32, dy: i32) -> (r: bool)
        requires
            old(grid).wf(),
        ensures
            final(grid).wf(),
            r == old(grid).in_bounds(self.x as int, self.y as int),
            r ==> old(grid).set_to(
                final(grid),
                self.x as int,
                self.y as int,
                match old(grid).cell_at(self.x + dx, self.y + dy) {
                    Some(c) => c.state,
                    None => 0u8,
                },
            ),
            !r ==> *final(grid) == *old(grid),
    {
        let other = match self.target_cell(grid, dx, dy) {
            Some(c) => c.state,
            None => 0,
        };
        grid.change_cell(self.x, self.y, other).is_ok()
    }

    /// Exchanges the state of the rule's own cell with the state at offset
    /// `(dx, dy)`. The neighbour receives the own state first, then the own
    /// cell receives the neighbour's former state. Off the grid the first
    /// write fails and the second one would write the void state, which no
    /// registry holds, so it fails too and nothing changes; the result is
    /// whether the second write succeeded.
    pub fn swap(&self, grid: &mut Grid, dx: i32, dy: i32) -> (r: bool)
        requires
            old(grid).wf(),
            old(grid).in_bounds(self.x as int, self.y as int),
        ensures
            final(grid).wf(),
            r == old(grid).in_bounds(self.x + dx, self.y + dy),
            r ==> old(grid).exchanged(final(grid), self.x as int, self.y as int, self.x + dx, self.y + dy),
            !r ==> *final(grid) == *old(grid),
    {
        let mine = grid.cell_state(self.x, self.y);
        match self.target_cell(grid, dx, dy) {
            Some(c) => {
                let ghost before = *grid;
                let _ = grid.change_cell(c.x, c.y, mine);
                let ghost middle = *grid;
                let done = grid.change_cell(self.x, self.y, c.state).is_ok();
                assert(middle.in_bounds(c.x as int, c.y as int));
                assert forall|i: int, j: int|
                    #[trigger] before.in_bounds(i, j) && !(i == self.x && j == self.y) && !(i == c.x && j == c.y)
                    implies grid.state_at(i, j) == before.state_at(i, j) by {
                    assert(middle.in_bounds(i, j));
                }
                done
            },
            None => false,
        }
    }

    /// A random direction of the Moore neighbourhood, the zero offset
    /// included: each coordinate drawn from -1, 0 and 1.
    pub fn random_direction() -> (r: Offset)
        ensures
            -1 <= r.x <= 1,
            -1 <= r.y <= 1,
    {
        let x = random_between(-1, 2) as i32;
        let y = random_between(-1, 2) as i32;
        Offset { x, y }
    }

    /// The offsets of the window positions that hold `state`, scanned column
    /// by column over the 3 x 3 window around the rule's own cell.
    pub fn find_all(&self, grid: &Grid, state: i32) -> (r: Vec<Offset>)
        requires
            grid.wf(),
        ensures
            r@ == self.found(*grid, state as int, 9),
    {
        let mut out: Vec<Offset> = Vec::new();
        let mut k: usize = 0;
        while k < 9
            invariant
                grid.wf(),
                k <= 9,
                out@ == self.found(*grid, state as int, k as nat),
            decreases 9 - k,
        {
            let dx: i32 = (k / 3) as i32 - 1;
            let dy: i32 = (k % 3) as i32 - 1;
            match self.target_cell(grid, dx, dy) {
                Some(c) => {
                    if c.state as i32 == state {
                        out.push(Offset { x: dx, y: dy });
                    }
                },
                None => {},
            }
            k = k + 1;
        }
        out
    }

    /// Whether some window position on the grid holds one of `states`.
    #[verifier::loop_isolation(false)]
    pub fn is_around(&self, grid: &Grid, states: &Vec<i32>) -> (r: bool)
        requires
            grid.wf(),
        ensures
            r == self.around(*grid, states@, 9),
    {
        let mut k: usize = 0;
        while k < 9
            invariant
                grid.wf(),
                k <= 9,
                !self.around(*grid, states@, k as nat),
            decreases 9 - k,
        {
            let dx: i32 = (k / 3) as i32 - 1;
            let dy: i32 = (k % 3) as i32 - 1;
            assert(self.window_pos(k as int) == self.target(dx as int, dy as int));
            match self.target_cell(grid, dx, dy) {
                Some(c) => {
                    let mut j: usize = 0;
                    while j < states.len()
                        invariant
                            j <= states@.len(),
                            forall|i: int| 0 <= i < j ==> states@[i] != c.state as i32,
                        decreases states@.len() - j,
                    {
                        if states[j] == c.state as i32 {
                            assert(states@[j as int] == c.state as i32);
                            assert(states@.contains(c.state as i32));
                            assert(self.around(*grid, states@, 9)) by {
                                let (px, py) = self.window_pos(k as int);
                                assert(grid.in_bounds(px, py));
                            }
                            return true;
                        }
                        j = j + 1;
                    }
                    assert(!states@.contains(c.state as i32));
                },
                None => {},
            }
            assert(!self.around(*grid, states@, (k + 1) as nat)) by {
                if self.around(*grid, states@, (k + 1) as nat) {
                    let w = choose|w: int| {
                        let (px, py) = #[trigger] self.window_pos(w);
                        &&& 0 <= w < k + 1
                        &&& grid.in_bounds(px, py)
                        &&& states@.contains(grid.state_at(px, py) as i32)
                    };
                    assert(w != k);
                    assert(self.around(*grid, states@, k as nat));
                }
            }
            k = k + 1;
        }
        false
    }

    /// Counts the (window position, queried state) pairs where the position
    /// lies on the grid and holds that state: a position is counted once for
    /// each entry of `states` that it matches.
    pub fn count(&self, grid: &Grid, states: &Vec<i32>) -> (r: usize)
        requires
            grid.wf(),
            9 * states@.len() <= usize::MAX,
        ensures
            r == self.hits(*grid, states@, 9),
    {
        let mut total: usize = 0;
        let mut k: usize = 0;
        while k < 9
            invariant
                grid.wf(),
                k <= 9,
                9 * states@.len() <= usize::MAX,
                total == self.hits(*grid, states@, k as nat),
            decreases 9 - k,
        {
            proof {
                self.lemma_hits_bound(*grid, states@, k as nat);
                let n = states@.len() as int;
                let kk = k as int;
                assert(kk * n <= 8 * n) by (nonlinear_arith)
                    requires kk <= 8, n >= 0;
            }
            let dx: i32 = (k / 3) as i32 - 1;
            let dy: i32 = (k % 3) as i32 - 1;
            assert(self.window_pos(k as int) == self.target(dx as int, dy as int));
            match self.target_cell(grid, dx, dy) {
                Some(c) => {
                    let ghost base = total as int;
                    let mut j: usize = 0;
                    while j < states.len()
                        invariant
                            j <= states@.len(),
                            9 * states@.len() <= usize::MAX,
                            base + states@.len() <= 9 * states@.len(),
                            total == base + occurrences(states@.take(j as int), c.state as int),
                        decreases states@.len() - j,
                    {
                        proof {
                            lemma_occurrences_bound(states@.take(j as int), c.state as int);
                            assert(states@.take(j as int + 1).drop_last() =~= states@.take(j as int));
                        }
                        if states[j] == c.state as i32 {
                            total = total + 1;
                        }
                        j = j + 1;
                    }
                    assert(states@.take(states@.len() as int) =~= states@);
                },
                None => {},
            }
            k = k + 1;
        }
        total
    }

    /// At most `states.len()` pairs match at each window position.
    proof fn lemma_hits_bound(self, grid: Grid, states: Seq<i32>, n: nat)
        ensures
            self.hits(grid, states, n) <= n * states.len(),
        decreases n,
    {
        if n > 0 {
            self.lemma_hits_bound(grid, states, (n - 1) as nat);
            let (px, py) = self.window_pos(n - 1);
            if grid.in_bounds(px, py) {
                lemma_occurrences_bound(states, grid.state_at(px, py) as int);
            }
            let m = states.len() as int;
            assert((n - 1) * m + m == n * m) by (nonlinear_arith);
        }
    }
}

/// Counting one state gives exactly the number of window positions that
/// `find_all` lists for it.
pub proof fn lemma_count_one(ctx: RuleContext, grid: Grid, s: i32)
    ensures
        ctx.hits(grid, seq![s], 9) == ctx.found(grid, s as int, 9).len(),
{
    lemma_count_one_prefix(ctx, grid, s, 9);
}

/// Counting two states gives the sum of the positions holding each.
pub proof fn lemma_count_two(ctx: RuleContext, grid: Grid, s1: i32, s2: i32)
    ensures
        ctx.hits(grid, seq![s1, s2], 9) == ctx.found(grid, s1 as int, 9).len() + ctx.found(grid, s2 as int, 9).len(),
{
    lemma_count_two_prefix(ctx, grid, s1, s2, 9);
}

proof fn lemma_count_one_prefix(ctx: RuleContext, grid: Grid, s: i32, n: nat)
    ensures
        ctx.hits(grid, seq![s], n) == ctx.found(grid, s as int, n).len(),
    decreases n,
{
    if n > 0 {
        lemma_count_one_prefix(ctx, grid, s, (n - 1) as nat);
        assert(seq![s].drop_last() =~= Seq::<i32>::empty());
        let (px, py) = ctx.window_pos(n - 1);
        if grid.in_bounds(px, py) {
            assert(occurrences(Seq::<i32>::empty(), grid.state_at(px, py) as int) == 0);
        }
    }
}

proof fn lemma_count_two_prefix(ctx: RuleContext, grid: Grid, s1: i32, s2: i32, n: nat)
    ensures
        ctx.hits(grid, seq![s1, s2], n) == ctx.found(grid, s1 as int, n).len() + ctx.found(grid, s2 as int, n).len(),
    decreases n,
{
    if n > 0 {
        lemma_count_two_prefix(ctx, grid, s1, s2, (n - 1) as nat);
        assert(seq![s1, s2].drop_last() =~= seq![s1]);
        assert(seq![s1].drop_last() =~= Seq::<i32>::empty());
        let (px, py) = ctx.window_pos(n - 1);
        if grid.in_bounds(px, py) {
            let v = grid.state_at(px, py) as int;
            assert(occurrences(Seq::<i32>::empty(), v) == 0);
            assert(occurrences(seq![s1], v) == if s1 == v { 1nat } else { 0nat });
            assert(occurrences(seq![s1, s2], v) == occurrences(seq![s1], v) + if s2 == v { 1nat } else { 0nat });
        }
    }
}

} // verus!
