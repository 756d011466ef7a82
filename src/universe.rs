use vstd::prelude::*;
use vstd::arithmetic::div_mod::lemma_fundamental_div_mod_converse;

use crate::cell::{Cell, alive_value, flipped, next_state};

verus! {

/// A rectangular grid of cells whose edges wrap around: the row above the
/// first is the last, and the column left of the first is the last.
pub struct Universe {
    width: u32,
    height: u32,
    cells: Vec<Cell>,
}

/// The mathematical model of a universe: its dimensions and its cells in
/// row-major order.
pub ghost struct UniverseView {
    pub width: nat,
    pub height: nat,
    pub cells: Seq<Cell>,
}

/// The position of `(row, col)` in a row-major buffer of rows of `width` cells.
pub open spec fn cell_index(width: nat, row: int, col: int) -> int {
    row * width + col
}

/// The buffer holds exactly `width * height` cells.
pub open spec fn well_formed(u: UniverseView) -> bool {
    u.cells.len() == u.width * u.height
}

/// What one neighbor, at offsets `(dr, dc)` taken modulo the dimensions, adds
/// to the count of `(row, col)`. The offset `(0, 0)` is the cell itself and adds nothing.
pub open spec fn neighbor_term(u: UniverseView, row: nat, col: nat, dr: nat, dc: nat) -> nat {
    if dr == 0 && dc == 0 {
        0
    } else {
        alive_value(u.cells[cell_index(u.width, ((row + dr) % u.height) as int, ((col + dc) % u.width) as int)])
    }
}

/// The terms of one row offset, over the column offsets `width - 1`, `0` and `1`.
pub open spec fn neighbor_row_sum(u: UniverseView, row: nat, col: nat, dr: nat) -> nat {
    neighbor_term(u, row, col, dr, (u.width - 1) as nat)
        + neighbor_term(u, row, col, dr, 0)
        + neighbor_term(u, row, col, dr, 1)
}

/// The number of live neighbors of `(row, col)`, over the row offsets
/// `height - 1`, `0` and `1` (that is -1, 0 and +1 modulo the height).
pub open spec fn neighbor_count(u: UniverseView, row: nat, col: nat) -> nat {
    neighbor_row_sum(u, row, col, (u.height - 1) as nat)
        + neighbor_row_sum(u, row, col, 0)
        + neighbor_row_sum(u, row, col, 1)
}

/// The next generation: every cell follows the rule, counted on the current generation.
pub open spec fn step(u: UniverseView) -> UniverseView {
    UniverseView {
        width: u.width,
        height: u.height,
        cells: Seq::new(
            u.cells.len(),
            |i: int| next_state(u.cells[i], neighbor_count(u, (i / u.width as int) as nat, (i % u.width as int) as nat)),
        ),
    }
}

/// A row of `row` and a column of `col` lie inside a grid of `width` columns
/// and `height` rows at index `row * width + col`, which is below `width * height`.
pub proof fn lemma_index_in_grid(width: nat, height: nat, row: nat, col: nat)
    requires
        row < height,
        col < width,
    ensures
        0 <= cell_index(width, row as int, col as int) < width * height,
        cell_index(width, row as int, col as int) / (width as int) == row,
        cell_index(width, row as int, col as int) % (width as int) == col,
{
    assert(row * width + col < width * height) by (nonlinear_arith)
        requires row < height, col < width;
    lemma_fundamental_div_mod_converse(
        cell_index(width, row as int, col as int), width as int, row as int, col as int);
}

/// Every coordinate pair names a cell inside the grid.
pub open spec fn coords_in_grid(u: UniverseView, coords: Seq<(u32, u32)>) -> bool {
    forall|k: int| 0 <= k < coords.len() ==> coords[k].0 < u.height && coords[k].1 < u.width
}

/// Some pair of `coords` names the cell at buffer index `i`.
pub open spec fn names_index(width: nat, coords: Seq<(u32, u32)>, i: int) -> bool {
    exists|k: int| 0 <= k < coords.len() && cell_index(width, coords[k].0 as int, coords[k].1 as int) == i
}

/// The cells with every cell that `coords` names set to `Alive`, the others kept.
pub open spec fn with_alive(cells: Seq<Cell>, width: nat, coords: Seq<(u32, u32)>) -> Seq<Cell> {
    Seq::new(cells.len(), |i: int| if names_index(width, coords, i) { Cell::Alive } else { cells[i] })
}

/// A buffer of `n` dead cells.
pub open spec fn dead_cells(n: nat) -> Seq<Cell> {
    Seq::new(n, |i: int| Cell::Dead)
}

/// The glider that a new universe holds, as `(row, col)` pairs.
pub open spec fn glider() -> Seq<(u32, u32)> {
    seq![(36u32, 2u32), (37u32, 3u32), (38u32, 1u32), (38u32, 2u32), (38u32, 3u32)]
}

/// The side of the square grid of a new universe.
pub const INITIAL_SIDE: u32 = 80;

/// A buffer of `n` dead cells.
fn all_dead(n: usize) -> (r: Vec<Cell>)
    ensures
        r@ == dead_cells(n as nat),
{
    let mut cells: Vec<Cell> = Vec::new();
    let mut i: usize = 0;
    while i < n
        invariant
            i <= n,
            cells@ == dead_cells(i as nat),
        decreases n - i,
    {
        cells.push(Cell::Dead);
        i = i + 1;
        proof {
            assert(cells@ =~= dead_cells(i as nat));
        }
    }
    cells
}

/// The glyph that shows a cell as text.
pub open spec fn glyph(c: Cell) -> char {
    match c {
        Cell::Dead => '\u{25FB}',
        Cell::Alive => '\u{25FC}',
    }
}

/// The glyphs of the first `n` cells of row `row`.
pub open spec fn row_glyphs(u: UniverseView, row: nat, n: nat) -> Seq<char> {
    Seq::new(n, |c: int| glyph(u.cells[cell_index(u.width, row as int, c)]))
}

/// The text of the first `n` rows: each row's glyphs followed by a line break.
pub open spec fn rendered_rows(u: UniverseView, n: nat) -> Seq<char>
    decreases n,
{
    if n == 0 {
        Seq::empty()
    } else {
        rendered_rows(u, (n - 1) as nat) + row_glyphs(u, (n - 1) as nat, u.width).push('\n')
    }
}

/// The whole grid as text, top row first.
pub open spec fn rendered(u: UniverseView) -> Seq<char> {
    rendered_rows(u, u.height)
}

/// Relies on `String::push`: appends the one character to the string.
#[verifier::external_body]
fn push_char(s: &mut String, c: char)
    ensures
        final(s)@ == old(s)@.push(c),
{
    s.push(c);
}

impl View for Universe {
    type V = UniverseView;

    closed spec fn view(&self) -> UniverseView {
        UniverseView { width: self.width as nat, height: self.height as nat, cells: self.cells@ }
    }
}

impl Universe {
    /// The number of columns.
    pub fn width(&self) -> (r: u32)
        ensures
            r == self@.width,
    {
        self.width
    }

    /// The number of rows.
    pub fn height(&self) -> (r: u32)
        ensures
            r == self@.height,
    {
        self.height
    }

    /// The cells, row by row.
    pub fn get_cells(&self) -> (r: &[Cell])
        ensures
            r@ == self@.cells,
    {
        self.cells.as_slice()
    }

    /// The buffer position of `(row, col)`.
    fn index(&self, row: u32, col: u32) -> (r: usize)
        requires
            well_formed(self@),
            row < self@.height,
            col < self@.width,
        ensures
            r == cell_index(self@.width, row as int, col as int),
            r < self@.cells.len(),
    {
        let len = self.cells.len();
        proof {
            lemma_index_in_grid(self.width as nat, self.height as nat, row as nat, col as nat);
            assert(row * self.width <= len) by (nonlinear_arith)
                requires row * self.width + col < len;
        }
        (row as usize) * (self.width as usize) + (col as usize)
    }

    /// What the neighbor at offsets `(dr, dc)`, modulo the dimensions, adds to
    /// the count of `(row, col)`.
    fn neighbor_value(&self, row: u32, col: u32, dr: u32, dc: u32) -> (r: u8)
        requires
            well_formed(self@),
            row < self@.height,
            col < self@.width,
        ensures
            r as nat == neighbor_term(self@, row as nat, col as nat, dr as nat, dc as nat),
            r <= 1,
    {
        if dr == 0 && dc == 0 {
            return 0;
        }
        let neighbor_row = (((row as u64) + (dr as u64)) % (self.height as u64)) as u32;
        let neighbor_col = (((col as u64) + (dc as u64)) % (self.width as u64)) as u32;
        let index = self.index(neighbor_row, neighbor_col);
        self.cells[index].value()
    }

    /// The number of live cells among the eight neighbors of `(row, col)`,
    /// where rows and columns wrap around the edges.
    pub fn alive_neighbor_count(&self, row: u32, col: u32) -> (r: u8)
        requires
            well_formed(self@),
            row < self@.height,
            col < self@.width,
        ensures
            r as nat == neighbor_count(self@, row as nat, col as nat),
            r <= 8,
    {
        let mut count: u8 = 0;
        let row_deltas: [u32; 3] = [self.height - 1, 0, 1];
        let col_deltas: [u32; 3] = [self.width - 1, 0, 1];
        let mut i: usize = 0;
        while i < 3
            invariant
                well_formed(self@),
                row < self@.height,
                col < self@.width,
                0 <= i <= 3,
                row_deltas@ == seq![(self@.height - 1) as u32, 0u32, 1u32],
                col_deltas@ == seq![(self@.width - 1) as u32, 0u32, 1u32],
                count <= 3 * i,
                count as nat == (if i > 0 { neighbor_row_sum(self@, row as nat, col as nat, row_deltas@[0] as nat) } else { 0 })
                    + (if i > 1 { neighbor_row_sum(self@, row as nat, col as nat, 0) } else { 0 })
                    + (if i > 2 { neighbor_row_sum(self@, row as nat, col as nat, 1) } else { 0 }),
            decreases 3 - i,
        {
            let delta_row = row_deltas[i];
            count = count + self.neighbor_value(row, col, delta_row, col_deltas[0]);
            count = count + self.neighbor_value(row, col, delta_row, col_deltas[1]);
            count = count + self.neighbor_value(row, col, delta_row, col_deltas[2]);
            i = i + 1;
        }
        count
    }

    /// Advances the universe by one generation. Every cell follows the rule
    /// against the current generation; the results go to a second buffer that
    /// then replaces the first.
    pub fn tick(&mut self)
        requires
            well_formed(old(self)@),
        ensures
            final(self)@ == step(old(self)@),
            well_formed(final(self)@),
    {
        let mut next = self.cells.clone();
        let ghost target = step(self@);
        let mut row: u32 = 0;
        while row < self.height
            invariant
                self@ == old(self)@,
                well_formed(self@),
                target == step(self@),
                row <= self@.height,
                next@.len() == self@.cells.len(),
                forall|i: int| 0 <= i < row * self@.width ==> next@[i] == target.cells[i],
            decreases self@.height - row,
        {
            let mut col: u32 = 0;
            while col < self.width
                invariant
                    self@ == old(self)@,
                    well_formed(self@),
                    target == step(self@),
                    row < self@.height,
                    col <= self@.width,
                    next@.len() == self@.cells.len(),
                    forall|i: int| 0 <= i < row * self@.width + col ==> next@[i] == target.cells[i],
                decreases self@.width - col,
            {
                let index = self.index(row, col);
                let cell = self.cells[index];
                let alive_neighbors = self.alive_neighbor_count(row, col);
                proof {
                    lemma_index_in_grid(self@.width, self@.height, row as nat, col as nat);
                }
                next.set(index, cell.next(alive_neighbors));
                col = col + 1;
            }
            proof {
                assert(row * self@.width + self@.width == (row + 1) * self@.width) by (nonlinear_arith);
            }
            row = row + 1;
        }
        proof {
            assert(row * self@.width == self@.width * self@.height) by (nonlinear_arith)
                requires row == self@.height;
            assert(next@ =~= target.cells);
        }
        self.cells = next;
    }

    /// Sets every cell named by a `(row, col)` pair to `Alive`; other cells keep their state.
    pub fn set_cells(&mut self, cells: &[(u32, u32)])
        requires
            well_formed(old(self)@),
            coords_in_grid(old(self)@, cells@),
        ensures
            final(self)@ == (UniverseView { cells: with_alive(old(self)@.cells, old(self)@.width, cells@), ..old(self)@ }),
            well_formed(final(self)@),
    {
        let ghost before = self@;
        let mut k: usize = 0;
        proof {
            assert(with_alive(before.cells, before.width, cells@.subrange(0, 0)) =~= before.cells);
        }
        while k < cells.len()
            invariant
                well_formed(before),
                coords_in_grid(before, cells@),
                k <= cells@.len(),
                self@ == (UniverseView { cells: with_alive(before.cells, before.width, cells@.subrange(0, k as int)), ..before }),
            decreases cells@.len() - k,
        {
            let (row, col) = cells[k];
            let index = self.index(row, col);
            self.cells.set(index, Cell::Alive);
            proof {
                let done = cells@.subrange(0, k + 1);
                assert(done[k as int] == cells@[k as int]);
                assert forall|i: int| 0 <= i < before.cells.len() implies
                    self@.cells[i] == with_alive(before.cells, before.width, done)[i] by {
                    if names_index(before.width, cells@.subrange(0, k as int), i) {
                        let j = choose|j: int| 0 <= j < k && cell_index(before.width, cells@.subrange(0, k as int)[j].0 as int, cells@.subrange(0, k as int)[j].1 as int) == i;
                        assert(done[j] == cells@.subrange(0, k as int)[j]);
                    }
                    if names_index(before.width, done, i) && i != index {
                        let j = choose|j: int| 0 <= j < k + 1 && cell_index(before.width, done[j].0 as int, done[j].1 as int) == i;
                        assert(cells@.subrange(0, k as int)[j] == done[j]);
                    }
                }
                assert(self@.cells =~= with_alive(before.cells, before.width, done));
            }
            k = k + 1;
        }
        proof {
            assert(cells@.subrange(0, cells@.len() as int) =~= cells@);
        }
    }

    /// Flips the cell at `(row, col)` between `Dead` and `Alive`.
    pub fn toggle_cell(&mut self, row: u32, col: u32)
        requires
            well_formed(old(self)@),
            row < old(self)@.height,
            col < old(self)@.width,
        ensures
            final(self)@ == (UniverseView {
                cells: old(self)@.cells.update(
                    cell_index(old(self)@.width, row as int, col as int),
                    flipped(old(self)@.cells[cell_index(old(self)@.width, row as int, col as int)]),
                ),
                ..old(self)@
            }),
            well_formed(final(self)@),
    {
        let index = self.index(row, col);
        let mut cell = self.cells[index];
        cell.toggle();
        self.cells.set(index, cell);
    }

    /// Changes the number of columns. The grid is rebuilt with every cell `Dead`.
    pub fn set_width(&mut self, width: u32)
        requires
            width * old(self)@.height <= usize::MAX,
        ensures
            final(self)@ == (UniverseView {
                width: width as nat,
                height: old(self)@.height,
                cells: dead_cells(width as nat * old(self)@.height),
            }),
            well_formed(final(self)@),
    {
        self.width = width;
        self.cells = all_dead((width as usize) * (self.height as usize));
    }

    /// Changes the number of rows. The grid is rebuilt with every cell `Dead`.
    pub fn set_height(&mut self, height: u32)
        requires
            old(self)@.width * height <= usize::MAX,
        ensures
            final(self)@ == (UniverseView {
                width: old(self)@.width,
                height: height as nat,
                cells: dead_cells(old(self)@.width * height as nat),
            }),
            well_formed(final(self)@),
    {
        self.height = height;
        self.cells = all_dead((self.width as usize) * (height as usize));
    }

    /// A universe of 80 by 80 cells, all `Dead` but for a glider.
    pub fn new() -> (r: Universe)
        ensures
            r@ == (UniverseView {
                width: INITIAL_SIDE as nat,
                height: INITIAL_SIDE as nat,
                cells: with_alive(dead_cells(INITIAL_SIDE as nat * INITIAL_SIDE as nat), INITIAL_SIDE as nat, glider()),
            }),
            well_formed(r@),
    {
        let width = INITIAL_SIDE;
        let height = INITIAL_SIDE;
        let cells = all_dead((width as usize) * (height as usize));
        let mut universe = Universe { width, height, cells };
        let seed: Vec<(u32, u32)> = vec![(36, 2), (37, 3), (38, 1), (38, 2), (38, 3)];
        proof {
            assert(seed@ =~= glider());
        }
        universe.set_cells(seed.as_slice());
        universe
    }

    /// The cells as bytes, row by row: 0 for `Dead`, 1 for `Alive`. The result
    /// is a copy; it stays valid whatever happens to the universe afterwards.
    pub fn byte_offset(&self) -> (r: Vec<u8>)
        ensures
            r@.len() == self@.cells.len(),
            forall|i: int| 0 <= i < r@.len() ==> r@[i] as nat == alive_value(self@.cells[i]),
    {
        let mut bytes: Vec<u8> = Vec::new();
        let mut i: usize = 0;
        while i < self.cells.len()
            invariant
                i <= self@.cells.len(),
                bytes@.len() == i,
                forall|j: int| 0 <= j < i ==> bytes@[j] as nat == alive_value(self@.cells[j]),
            decreases self@.cells.len() - i,
        {
            bytes.push(self.cells[i].value());
            i = i + 1;
        }
        bytes
    }

    /// The grid as text: one glyph per cell, each row ended by a line break.
    pub fn render(&self) -> (r: String)
        requires
            well_formed(self@),
        ensures
            r@ == rendered(self@),
    {
        let mut text = String::new();
        let mut row: u32 = 0;
        while row < self.height
            invariant
                well_formed(self@),
                row <= self@.height,
                text@ == rendered_rows(self@, row as nat),
            decreases self@.height - row,
        {
            let mut col: u32 = 0;
            while col < self.width
                invariant
                    well_formed(self@),
                    row < self@.height,
                    col <= self@.width,
                    text@ == rendered_rows(self@, row as nat) + row_glyphs(self@, row as nat, col as nat),
                decreases self@.width - col,
            {
                let index = self.index(row, col);
                let symbol = match self.cells[index] {
                    Cell::Dead => '\u{25FB}',
                    Cell::Alive => '\u{25FC}',
                };
                push_char(&mut text, symbol);
                proof {
                    assert(row_glyphs(self@, row as nat, col as nat).push(symbol)
                        =~= row_glyphs(self@, row as nat, (col + 1) as nat));
                }
                col = col + 1;
            }
            push_char(&mut text, '\n');
            row = row + 1;
        }
        text
    }
}

} // verus!
