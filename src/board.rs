use vstd::prelude::*;

use crate::rule::{
    is_grid, lemma_wrap_neighbors, neighbor_count, next_cell_state, step, toggled, with_height,
    with_width,
};

verus! {

/// The rows of `v` as sequences of cells.
pub open spec fn rows_of(v: &Vec<Vec<bool>>) -> Seq<Seq<bool>> {
    Seq::new(v@.len(), |y: int| v@[y]@)
}

/// A position on the board: column `x`, row `y`.
pub struct Cell {
    pub x: usize,
    pub y: usize,
}

/// A toroidal grid of live (`true`) and dead (`false`) cells.
pub struct Board {
    height: usize,
    width: usize,
    content: Vec<Vec<bool>>,
}

impl Board {
    /// The cells as rows of booleans, row `y` at index `y`.
    pub closed spec fn cells(&self) -> Seq<Seq<bool>> {
        rows_of(&self.content)
    }

    /// The number of cells in a row.
    pub closed spec fn spec_width(&self) -> nat {
        self.width as nat
    }

    /// The number of rows.
    pub closed spec fn spec_height(&self) -> nat {
        self.height as nat
    }

    /// Both dimensions are positive and the cells form a `height` by `width` rectangle.
    pub open spec fn wf(&self) -> bool {
        &&& self.spec_width() >= 1
        &&& self.spec_height() >= 1
        &&& is_grid(self.cells(), self.spec_width(), self.spec_height())
    }

    /// A board of `width` by `height` cells: the given rows, or all dead cells.
    pub fn new(width: usize, height: usize, board: Option<Vec<Vec<bool>>>) -> (r: Board)
        requires
            width >= 1,
            height >= 1,
            board matches Some(b) ==> is_grid(rows_of(&b), width as nat, height as nat),
        ensures
            r.wf(),
            r.spec_width() == width,
            r.spec_height() == height,
            r.cells() == match board {
                Some(b) => rows_of(&b),
                None => Seq::new(height as nat, |y: int| Seq::new(width as nat, |x: int| false)),
            },
    {
        let content = match board {
            Some(b) => b,
            None => {
                let mut rows: Vec<Vec<bool>> = Vec::new();
                let mut y: usize = 0;
                while y < height
                    invariant
                        y <= height,
                        rows@.len() == y,
                        forall|i: int| 0 <= i < y ==> #[trigger] rows@[i]@ == Seq::new(width as nat, |x: int| false),
                    decreases height - y,
                {
                    rows.push(vec![false; width]);
                    y = y + 1;
                }
                rows
            },
        };
        let r = Board { width, height, content };
        proof {
            if board is None {
                assert(r.cells() =~= Seq::new(height as nat, |y: int| Seq::new(width as nat, |x: int| false)));
            }
        }
        r
    }

    /// Whether the cell at `(x, y)` is alive.
    fn is_alive(&self, x: usize, y: usize) -> (r: bool)
        requires
            self.wf(),
            x < self.spec_width(),
            y < self.spec_height(),
        ensures
            r == self.cells()[y as int][x as int],
    {
        assert(self.cells()[y as int].len() == self.width);
        self.content[y][x]
    }

    /// The number of live neighbours of the cell at `(x, y)`, the board wrapping round at
    /// its edges.
    fn count_neighbors(&self, x: usize, y: usize) -> (r: u8)
        requires
            self.wf(),
            x < self.spec_width(),
            y < self.spec_height(),
        ensures
            r as nat == neighbor_count(self.cells(), self.spec_width(), self.spec_height(), x as int, y as int),
    {
        let left = if x == 0 { self.width - 1 } else { x - 1 };
        let right = if x + 1 == self.width { 0 } else { x + 1 };
        let up = if y == 0 { self.height - 1 } else { y - 1 };
        let down = if y + 1 == self.height { 0 } else { y + 1 };
        proof {
            lemma_wrap_neighbors(x as int, self.width as int);
            lemma_wrap_neighbors(y as int, self.height as int);
        }
        let mut n: u8 = 0;
        if self.is_alive(left, up) { n = n + 1; }
        if self.is_alive(x, up) { n = n + 1; }
        if self.is_alive(right, up) { n = n + 1; }
        if self.is_alive(left, y) { n = n + 1; }
        if self.is_alive(right, y) { n = n + 1; }
        if self.is_alive(left, down) { n = n + 1; }
        if self.is_alive(x, down) { n = n + 1; }
        if self.is_alive(right, down) { n = n + 1; }
        n
    }

    /// Replaces the board by its next generation. Every cell of the new generation is
    /// computed from the unchanged current one.
    pub fn calculate_next_state(&mut self)
        requires
            old(self).wf(),
        ensures
            final(self).wf(),
            final(self).spec_width() == old(self).spec_width(),
            final(self).spec_height() == old(self).spec_height(),
            final(self).cells() == step(old(self).cells(), old(self).spec_width(), old(self).spec_height()),
    {
        let ghost c = self.cells();
        let ghost w = self.spec_width();
        let ghost h = self.spec_height();
        let mut next: Vec<Vec<bool>> = Vec::new();
        let mut y: usize = 0;
        while y < self.height
            invariant
                self.wf(),
                self.cells() == c,
                self.spec_width() == w,
                self.spec_height() == h,
                y <= h,
                next@.len() == y,
                forall|i: int| 0 <= i < y ==> #[trigger] next@[i]@ == step(c, w, h)[i],
            decreases h - y,
        {
            let mut row: Vec<bool> = Vec::new();
            let mut x: usize = 0;
            while x < self.width
                invariant
                    self.wf(),
                    self.cells() == c,
                    self.spec_width() == w,
                    self.spec_height() == h,
                    y < h,
                    x <= w,
                    row@.len() == x,
                    forall|j: int| 0 <= j < x ==> #[trigger] row@[j] == step(c, w, h)[y as int][j],
                decreases w - x,
            {
                let n = self.count_neighbors(x, y);
                let alive = self.is_alive(x, y);
                let cell = if n == 3 {
                    true
                } else if n >= 4 || n <= 1 {
                    false
                } else {
                    alive
                };
                assert(cell == next_cell_state(alive, n as nat));
                row.push(cell);
                x = x + 1;
            }
            assert(row@ =~= step(c, w, h)[y as int]);
            next.push(row);
            y = y + 1;
        }
        self.content = next;
        assert(self.cells() =~= step(c, w, h));
    }

    /// Flips the cell at `cell`. A cell outside the board is refused and nothing changes.
    pub fn toggle_cell(&mut self, cell: Cell) -> (r: Result<(), String>)
        requires
            old(self).wf(),
        ensures
            final(self).wf(),
            final(self).spec_width() == old(self).spec_width(),
            final(self).spec_height() == old(self).spec_height(),
            r is Err <==> cell.x >= old(self).spec_width() || cell.y >= old(self).spec_height(),
            r is Err ==> final(self).cells() == old(self).cells(),
            r is Ok ==> final(self).cells() == toggled(old(self).cells(), cell.x as int, cell.y as int),
    {
        if cell.x >= self.width || cell.y >= self.height {
            return Err("Cell is out of board's bounds".to_string());
        }
        let ghost c = self.cells();
        let alive = self.is_alive(cell.x, cell.y);
        self.content[cell.y][cell.x] = !alive;
        assert(self.cells() =~= toggled(c, cell.x as int, cell.y as int));
        Ok(())
    }

    /// The rows of the board, row `y` at index `y`.
    pub fn content(&self) -> (r: &Vec<Vec<bool>>)
        ensures
            rows_of(r) == self.cells(),
    {
        &self.content
    }

    /// Cuts every row, or pads it with dead cells, to `width` cells. A width of zero is
    /// refused and nothing changes.
    pub fn set_width(&mut self, width: usize) -> (r: Result<(), String>)
        requires
            old(self).wf(),
        ensures
            final(self).wf(),
            final(self).spec_height() == old(self).spec_height(),
            r is Err <==> width == 0,
            r is Err ==> *final(self) == *old(self),
            r is Ok ==> final(self).spec_width() == width,
            r is Ok ==> final(self).cells() == with_width(old(self).cells(), width as nat),
    {
        if width == 0 {
            return Err("Board width can't be 0".to_string());
        }
        let ghost c = self.cells();
        self.width = width;
        let mut y: usize = 0;
        while y < self.content.len()
            invariant
                self.content@.len() == c.len(),
                self.width == width,
                self.height == c.len(),
                self.height >= 1,
                is_grid(c, old(self).width as nat, c.len()),
                y <= c.len(),
                forall|i: int| 0 <= i < y ==> #[trigger] self.cells()[i] == with_width(c, width as nat)[i],
                forall|i: int| y <= i < c.len() ==> #[trigger] self.cells()[i] == c[i],
            decreases c.len() - y,
        {
            let ghost before = self.cells();
            self.content[y].resize(width, false);
            proof {
                let old_row = before[y as int];
                let new_row = self.cells()[y as int];
                if width > old_row.len() {
                    assert forall|j: int| old_row.len() <= j < width implies new_row[j] == false by {
                        assert(cloned::<bool>(false, self.content@[y as int]@[j]));
                    }
                    assert forall|j: int| 0 <= j < old_row.len() implies new_row[j] == old_row[j] by {
                        assert(new_row.subrange(0, old_row.len() as int)[j] == new_row[j]);
                    }
                }
            }
            assert(self.cells()[y as int] =~= with_width(c, width as nat)[y as int]);
            assert forall|i: int| 0 <= i < c.len() && i != y implies #[trigger] self.cells()[i] == before[i] by {}
            y = y + 1;
        }
        assert(self.cells() =~= with_width(c, width as nat));
        Ok(())
    }

    /// Removes rows from the end, or appends rows of dead cells, to `height` rows. A height
    /// of zero is refused and nothing changes.
    pub fn set_height(&mut self, height: usize) -> (r: Result<(), String>)
        requires
            old(self).wf(),
        ensures
            final(self).wf(),
            final(self).spec_width() == old(self).spec_width(),
            r is Err <==> height == 0,
            r is Err ==> *final(self) == *old(self),
            r is Ok ==> final(self).spec_height() == height,
            r is Ok ==> final(self).cells() == with_height(old(self).cells(), old(self).spec_width(), height as nat),
    {
        if height == 0 {
            return Err("Board height can't be 0".to_string());
        }
        let ghost c = self.cells();
        self.height = height;
        if height <= self.content.len() {
            self.content.truncate(height);
        } else {
            while self.content.len() < height
                invariant
                    self.width as nat == old(self).spec_width(),
                    self.height == height,
                    c.len() <= self.content@.len() <= height,
                    forall|i: int| 0 <= i < c.len() ==> #[trigger] self.cells()[i] == c[i],
                    forall|i: int| c.len() <= i < self.content@.len() ==> #[trigger] self.cells()[i] == Seq::new(self.width as nat, |x: int| false),
                decreases height - self.content@.len(),
            {
                let row = vec![false; self.width];
                assert(row@ =~= Seq::new(self.width as nat, |x: int| false));
                let ghost before = self.cells();
                self.content.push(row);
                assert(self.cells() =~= before.push(row@));
            }
        }
        assert(self.cells() =~= with_height(c, self.width as nat, height as nat));
        Ok(())
    }

    /// The number of cells in a row.
    pub fn width(&self) -> (r: usize)
        ensures
            r == self.spec_width(),
    {
        self.width
    }

    /// The number of rows.
    pub fn height(&self) -> (r: usize)
        ensures
            r == self.spec_height(),
    {
        self.height
    }
}

/// The next generation depends on the cells alone: two well-formed boards with the same
/// cells have the same dimensions and the same next generation.
pub proof fn lemma_next_state_deterministic(a: &Board, b: &Board)
    requires
        a.wf(),
        b.wf(),
        a.cells() == b.cells(),
    ensures
        a.spec_width() == b.spec_width(),
        a.spec_height() == b.spec_height(),
        step(a.cells(), a.spec_width(), a.spec_height()) == step(b.cells(), b.spec_width(), b.spec_height()),
{
    assert(a.cells()[0].len() == a.spec_width());
    assert(b.cells()[0].len() == b.spec_width());
}

} // verus!
