use vstd::prelude::*;

verus! {

/// An RGBA colour, one byte per channel.
#[derive(Debug, Clone, Copy, PartialEq, Eq, Structural)]
pub struct Color {
    pub r: u8,
    pub g: u8,
    pub b: u8,
    pub a: u8,
}

impl Color {
    /// Opaque black.
    pub fn black() -> (c: Color)
        ensures
            c == (Color { r: 0, g: 0, b: 0, a: 255 }),
    {
        Color { r: 0, g: 0, b: 0, a: 255 }
    }
}

/// A single unit of a grid: its position and its state index.
#[derive(Debug, Clone, Copy, PartialEq, Eq, Structural)]
pub struct Cell {
    pub x: i32,
    pub y: i32,
    pub state: u8,
}

/// Describes one cell state: how it is drawn, the rule script that updates a
/// cell in that state, its class of matter (solid, liquid, gas, ...) and its name.
#[derive(Debug, Clone)]
pub struct CellPrescriptor {
    /// The colour of a cell in this state.
    pub color: Color,
    /// The rule script run when a cell in this state is updated.
    pub update: Option<String>,
    /// State of matter (solid, liquid, gas, custom, ...).
    pub matter: u8,
    /// Name of the state.
    pub name: String,
}

/// The largest number of states a registry may hold: state 255 is reserved
/// for "off the grid" and is never a valid index.
pub const MAX_STATES: usize = 255;

/// The state reported for a position off the grid.
pub const VOID_STATE: u8 = 255;

/// A dense `width` x `height` array of cells, together with the registry of
/// states that the cells' state indices refer to.
#[derive(Debug, Clone)]
pub struct Grid {
    width: i32,
    height: i32,
    cells: Vec<Vec<Cell>>,
    cell_prescriptors: Vec<CellPrescriptor>,
}

/// The number of columns (or rows) that a possibly negative extent stands for.
pub open spec fn extent(n: i32) -> int {
    if n < 0 { 0 } else { n as int }
}

impl Grid {
    /// The grid's width.
    pub closed spec fn spec_width(&self) -> i32 {
        self.width
    }

    /// The grid's height.
    pub closed spec fn spec_height(&self) -> i32 {
        self.height
    }

    /// The state held by the cell at `(x, y)`; meaningful for in-bounds positions.
    pub closed spec fn state_at(&self, x: int, y: int) -> u8 {
        self.cells@[x]@[y].state
    }

    /// The registry of states, in index order.
    pub closed spec fn registry(&self) -> Seq<CellPrescriptor> {
        self.cell_prescriptors@
    }

    /// The cells are laid out densely, each in the slot of its own position.
    pub closed spec fn layout_ok(&self) -> bool {
        &&& self.cells@.len() == extent(self.width)
        &&& forall|x: int| 0 <= x < self.cells@.len() ==> #[trigger] self.cells@[x]@.len() == extent(self.height)
        &&& forall|x: int, y: int|
            0 <= x < self.cells@.len() && 0 <= y < self.cells@[x]@.len() ==> {
                &&& (#[trigger] self.cells@[x]@[y]).x == x
                &&& self.cells@[x]@[y].y == y
            }
    }

    /// The number of states in the registry.
    pub open spec fn num_states(&self) -> nat {
        self.registry().len()
    }

    /// Whether `(x, y)` lies inside `[0, width) x [0, height)`.
    pub open spec fn in_bounds(&self, x: int, y: int) -> bool {
        0 <= x < self.spec_width() && 0 <= y < self.spec_height()
    }

    /// Whether `s` indexes an entry of the registry.
    pub open spec fn valid_state(&self, s: int) -> bool {
        0 <= s < self.num_states()
    }

    /// The grid's invariant: the layout is dense, the registry holds the
    /// default state 0 and stays below the reserved void state, and every
    /// cell holds a valid state.
    pub open spec fn wf(&self) -> bool {
        &&& self.layout_ok()
        &&& 1 <= self.num_states() <= MAX_STATES
        &&& forall|x: int, y: int| self.in_bounds(x, y) ==> self.valid_state(#[trigger] self.state_at(x, y) as int)
    }

    /// The cell found at `(x, y)`, or none off the grid.
    pub open spec fn cell_at(&self, x: int, y: int) -> Option<Cell> {
        if self.in_bounds(x, y) {
            Some(Cell { x: x as i32, y: y as i32, state: self.state_at(x, y) })
        } else {
            None
        }
    }

    /// Whether `change_cell(x, y, s)` is accepted: the position lies on the
    /// grid and `s` indexes the registry.
    pub open spec fn accepts(&self, x: int, y: int, s: int) -> bool {
        self.in_bounds(x, y) && self.valid_state(s)
    }

    /// `after` is this grid with the cell at `(x, y)` set to `s`: the same
    /// extent and registry, and every other cell as it was.
    pub open spec fn set_to(&self, after: &Grid, x: int, y: int, s: u8) -> bool {
        &&& after.spec_width() == self.spec_width()
        &&& after.spec_height() == self.spec_height()
        &&& after.registry() == self.registry()
        &&& after.state_at(x, y) == s
        &&& forall|i: int, j: int|
            self.in_bounds(i, j) && !(i == x && j == y) ==> #[trigger] after.state_at(i, j) == self.state_at(i, j)
    }

    /// `after` is this grid with the states at `(ax, ay)` and `(bx, by)`
    /// exchanged: the same extent and registry, and every other cell as it was.
    pub open spec fn exchanged(&self, after: &Grid, ax: int, ay: int, bx: int, by: int) -> bool {
        &&& after.spec_width() == self.spec_width()
        &&& after.spec_height() == self.spec_height()
        &&& after.registry() == self.registry()
        &&& after.state_at(ax, ay) == self.state_at(bx, by)
        &&& after.state_at(bx, by) == self.state_at(ax, ay)
        &&& forall|i: int, j: int|
            self.in_bounds(i, j) && !(i == ax && j == ay) && !(i == bx && j == by)
                ==> #[trigger] after.state_at(i, j) == self.state_at(i, j)
    }

    /// Creates a `width` x `height` grid with every cell in state 0, and a
    /// registry that holds only state 0, "air".
    pub fn new(width: i32, height: i32) -> (g: Grid)
        ensures
            g.wf(),
            g.spec_width() == width,
            g.spec_height() == height,
            forall|x: int, y: int| g.in_bounds(x, y) ==> #[trigger] g.state_at(x, y) == 0,
            g.num_states() == 1,
            g.registry()[0].color == (Color { r: 0, g: 0, b: 0, a: 255 }),
            g.registry()[0].update.is_none(),
            g.registry()[0].matter == 255,
            g.registry()[0].name@ == "air"@,
    {
        let mut cells: Vec<Vec<Cell>> = Vec::new();
        let mut x: i32 = 0;
        while x < width
            invariant
                0 <= x,
                x <= width || x == 0,
                cells@.len() == x,
                forall|i: int| 0 <= i < x ==> #[trigger] cells@[i]@.len() == extent(height),
                forall|i: int, j: int|
                    0 <= i < x && 0 <= j < cells@[i]@.len() ==> (#[trigger] cells@[i]@[j]) == (Cell { x: i as i32, y: j as i32, state: 0 }),
            decreases width - x,
        {
            let mut row: Vec<Cell> = Vec::new();
            let mut y: i32 = 0;
            while y < height
                invariant
                    0 <= y,
                    y <= height || y == 0,
                    row@.len() == y,
                    forall|j: int| 0 <= j < y ==> (#[trigger] row@[j]) == (Cell { x: x, y: j as i32, state: 0 }),
                decreases height - y,
            {
                row.push(Cell { x, y, state: 0 });
                y = y + 1;
            }
            cells.push(row);
            x = x + 1;
        }
        let mut cell_prescriptors: Vec<CellPrescriptor> = Vec::new();
        cell_prescriptors.push(CellPrescriptor {
            color: Color::black(),
            update: None,
            matter: 255,
            name: String::from_str("air"),
        });
        let g = Grid { width, height, cells, cell_prescriptors };
        assert(g.layout_ok());
        g
    }

    /// The grid's width.
    pub fn width(&self) -> (r: i32)
        ensures
            r == self.spec_width(),
    {
        self.width
    }

    /// The grid's height.
    pub fn height(&self) -> (r: i32)
        ensures
            r == self.spec_height(),
    {
        self.height
    }

    /// The cell at `(x, y)`, or `None` when `(x, y)` lies off the grid.
    pub fn try_get_cell(&self, x: i32, y: i32) -> (r: Option<&Cell>)
        requires
            self.wf(),
        ensures
            r.is_some() <==> self.in_bounds(x as int, y as int),
            r matches Some(c) ==> Some(*c) == self.cell_at(x as int, y as int),
    {
        if 0 <= x && x < self.width && 0 <= y && y < self.height {
            Some(&self.cells[x as usize][y as usize])
        } else {
            None
        }
    }

    /// Writes `state` into the in-bounds cell at `(x, y)`.
    fn set_state(&mut self, x: usize, y: usize, state: u8)
        requires
            old(self).wf(),
            old(self).in_bounds(x as int, y as int),
            old(self).valid_state(state as int),
        ensures
            final(self).wf(),
            old(self).set_to(final(self), x as int, y as int, state),
    {
        let ghost before = *self;
        self.cells[x][y].state = state;
        assert(self.layout_ok());
        assert forall|i: int, j: int| before.in_bounds(i, j) && !(i == x && j == y) implies #[trigger] self.state_at(i, j) == before.state_at(i, j) by {
            if i != x {
                assert(self.cells@[i] == before.cells@[i]);
            }
        }
        assert forall|i: int, j: int| self.in_bounds(i, j) implies self.valid_state(#[trigger] self.state_at(i, j) as int) by {
            assert(before.in_bounds(i, j));
        }
    }

    /// Sets the cell at `(x, y)` to `state`. Fails, and changes nothing, when
    /// `(x, y)` lies off the grid or `state` is not an index of the registry.
    pub fn change_cell(&mut self, x: i32, y: i32, state: u8) -> (r: Result<(), ()>)
        requires
            old(self).wf(),
        ensures
            final(self).wf(),
            r.is_ok() <==> old(self).accepts(x as int, y as int, state as int),
            r.is_ok() ==> old(self).set_to(final(self), x as int, y as int, state),
            r.is_err() ==> *final(self) == *old(self),
    {
        if x >= self.width || y >= self.height || x < 0 || y < 0 {
            return Err(());
        }
        if state as usize >= self.cell_prescriptors.len() {
            return Err(());
        }
        self.set_state(x as usize, y as usize, state);
        Ok(())
    }

    /// Resets every cell to state 0.
    pub fn clear(&mut self)
        requires
            old(self).wf(),
        ensures
            final(self).wf(),
            final(self).spec_width() == old(self).spec_width(),
            final(self).spec_height() == old(self).spec_height(),
            final(self).registry() == old(self).registry(),
            forall|x: int, y: int| final(self).in_bounds(x, y) ==> #[trigger] final(self).state_at(x, y) == 0,
    {
        let mut x: i32 = 0;
        while x < self.width
            invariant
                self.wf(),
                0 <= x,
                x <= self.width || x == 0,
                self.spec_width() == old(self).spec_width(),
                self.spec_height() == old(self).spec_height(),
                self.registry() == old(self).registry(),
                forall|i: int, j: int| self.in_bounds(i, j) && i < x ==> #[trigger] self.state_at(i, j) == 0,
            decreases self.width - x,
        {
            let mut y: i32 = 0;
            while y < self.height
                invariant
                    self.wf(),
                    0 <= x < self.width,
                    0 <= y,
                    y <= self.height || y == 0,
                    self.spec_width() == old(self).spec_width(),
                    self.spec_height() == old(self).spec_height(),
                    self.registry() == old(self).registry(),
                    forall|i: int, j: int|
                        self.in_bounds(i, j) && (i < x || (i == x && j < y)) ==> #[trigger] self.state_at(i, j) == 0,
                decreases self.height - y,
            {
                let ghost before = *self;
                self.set_state(x as usize, y as usize, 0);
                assert forall|i: int, j: int|
                    self.in_bounds(i, j) && (i < x || (i == x && j <= y)) implies #[trigger] self.state_at(i, j) == 0 by {
                    assert(before.in_bounds(i, j));
                }
                y = y + 1;
            }
            x = x + 1;
        }
    }

    /// Appends a state to the registry; its index is the registry's former length.
    pub fn add_state(&mut self, color: Color, update: Option<String>, matter_state: u8, name: String)
        requires
            old(self).wf(),
            old(self).num_states() < MAX_STATES,
        ensures
            final(self).wf(),
            final(self).spec_width() == old(self).spec_width(),
            final(self).spec_height() == old(self).spec_height(),
            final(self).registry() == old(self).registry().push(
                CellPrescriptor { color, update, matter: matter_state, name },
            ),
            forall|x: int, y: int| final(self).in_bounds(x, y) ==> #[trigger] final(self).state_at(x, y) == old(self).state_at(x, y),
    {
        self.cell_prescriptors.push(CellPrescriptor { color, update, matter: matter_state, name });
        assert(self.layout_ok());
        assert forall|x: int, y: int| self.in_bounds(x, y) implies self.valid_state(#[trigger] self.state_at(x, y) as int) by {
            assert(old(self).state_at(x, y) == self.state_at(x, y));
        }
    }

    /// The number of states in the registry.
    pub fn state_count(&self) -> (r: usize)
        ensures
            r == self.num_states(),
    {
        self.cell_prescriptors.len()
    }

    /// The registry of states, in index order.
    pub fn cell_prescriptors(&self) -> (r: &Vec<CellPrescriptor>)
        ensures
            r@ == self.registry(),
    {
        &self.cell_prescriptors
    }

    /// The cells, column by column: `cells()[x][y]` is the cell at `(x, y)`.
    pub fn cells(&self) -> (r: &Vec<Vec<Cell>>)
        requires
            self.wf(),
        ensures
            r@.len() == extent(self.spec_width()),
            forall|x: int| 0 <= x < r@.len() ==> #[trigger] r@[x]@.len() == extent(self.spec_height()),
            forall|x: int, y: int| #[trigger] self.in_bounds(x, y) ==> Some(r@[x]@[y]) == self.cell_at(x, y),
    {
        &self.cells
    }

    /// The state of the cell at the absolute position `(x, y)`, or the void
    /// state 255 off the grid.
    pub fn cell_state(&self, x: i32, y: i32) -> (r: u8)
        requires
            self.wf(),
        ensures
            r == (if self.in_bounds(x as int, y as int) { self.state_at(x as int, y as int) } else { VOID_STATE }),
    {
        match self.try_get_cell(x, y) {
            Some(cell) => cell.state,
            None => VOID_STATE,
        }
    }

    /// The matter class of the cell at the absolute position `(x, y)`, or 0
    /// off the grid.
    pub fn cell_matter(&self, x: i32, y: i32) -> (r: u8)
        requires
            self.wf(),
        ensures
            r == (if self.in_bounds(x as int, y as int) {
                self.registry()[self.state_at(x as int, y as int) as int].matter
            } else {
                0u8
            }),
    {
        match self.try_get_cell(x, y) {
            Some(cell) => self.cell_prescriptors[cell.state as usize].matter,
            None => 0,
        }
    }

    /// The rule script of the state held at `(x, y)`; `None` off the grid or
    /// when that state has no rule.
    pub fn script_at(&self, x: i32, y: i32) -> (r: Option<&String>)
        requires
            self.wf(),
        ensures
            r.is_some() <==> (self.in_bounds(x as int, y as int)
                && self.registry()[self.state_at(x as int, y as int) as int].update.is_some()),
            r matches Some(s) ==> self.registry()[self.state_at(x as int, y as int) as int].update == Some(*s),
    {
        match self.try_get_cell(x, y) {
            Some(cell) => match &self.cell_prescriptors[cell.state as usize].update {
                Some(script) => Some(script),
                None => None,
            },
            None => None,
        }
    }
}

/// A valid state written to a cell on the grid is accepted, and the cell read
/// back afterwards, at the same position, holds exactly that state.
pub proof fn lemma_write_then_read(before: Grid, after: Grid, x: int, y: int, s: u8)
    requires
        before.wf(),
        before.in_bounds(x, y),
        before.valid_state(s as int),
        before.set_to(&after, x, y, s),
    ensures
        before.accepts(x, y, s as int),
        after.cell_at(x, y) == Some(Cell { x: x as i32, y: y as i32, state: s }),
{
}

} // verus!
