use vstd::prelude::*;

verus! {

/// `c` has `h` rows of `w` cells each.
pub open spec fn is_grid(c: Seq<Seq<bool>>, w: nat, h: nat) -> bool {
    &&& c.len() == h
    &&& forall|y: int| 0 <= y < h ==> #[trigger] c[y].len() == w
}

/// Whether the cell at `(x, y)`, taken modulo the board's size, is alive, as 0 or 1.
pub open spec fn alive_at(c: Seq<Seq<bool>>, w: nat, h: nat, x: int, y: int) -> nat {
    if c[y % (h as int)][x % (w as int)] {
        1
    } else {
        0
    }
}

/// The number of live cells among the eight that surround `(x, y)` on the torus.
pub open spec fn neighbor_count(c: Seq<Seq<bool>>, w: nat, h: nat, x: int, y: int) -> nat {
    alive_at(c, w, h, x - 1, y - 1) + alive_at(c, w, h, x, y - 1) + alive_at(c, w, h, x + 1, y - 1)
        + alive_at(c, w, h, x - 1, y) + alive_at(c, w, h, x + 1, y)
        + alive_at(c, w, h, x - 1, y + 1) + alive_at(c, w, h, x, y + 1) + alive_at(c, w, h, x + 1, y + 1)
}

/// The state of a cell in the next generation, from its current state and its neighbour
/// count: born or kept alive on three, kept as it is on two, dead otherwise.
pub open spec fn next_cell_state(alive: bool, n: nat) -> bool {
    if n == 3 {
        true
    } else if n >= 4 || n <= 1 {
        false
    } else {
        alive
    }
}

/// The next generation of the whole grid, every cell computed from the current one.
pub open spec fn step(c: Seq<Seq<bool>>, w: nat, h: nat) -> Seq<Seq<bool>> {
    Seq::new(
        h,
        |y: int| Seq::new(w, |x: int| next_cell_state(c[y][x], neighbor_count(c, w, h, x, y))),
    )
}

/// The grid after `n` generations.
pub open spec fn generations(c: Seq<Seq<bool>>, w: nat, h: nat, n: nat) -> Seq<Seq<bool>>
    decreases n,
{
    if n == 0 {
        c
    } else {
        step(generations(c, w, h, (n - 1) as nat), w, h)
    }
}

/// The grid with each row cut or padded with dead cells to `new_w` cells.
pub open spec fn with_width(c: Seq<Seq<bool>>, new_w: nat) -> Seq<Seq<bool>> {
    Seq::new(
        c.len(),
        |y: int| Seq::new(new_w, |x: int| if x < c[y].len() { c[y][x] } else { false }),
    )
}

/// The grid with rows cut, or rows of `w` dead cells added, to `new_h` rows.
pub open spec fn with_height(c: Seq<Seq<bool>>, w: nat, new_h: nat) -> Seq<Seq<bool>> {
    Seq::new(new_h, |y: int| if y < c.len() { c[y] } else { Seq::new(w, |x: int| false) })
}

/// The grid with the cell at `(x, y)` flipped.
pub open spec fn toggled(c: Seq<Seq<bool>>, x: int, y: int) -> Seq<Seq<bool>> {
    c.update(y, c[y].update(x, !c[y][x]))
}

/// Every cell of `c` is dead.
pub open spec fn all_dead(c: Seq<Seq<bool>>) -> bool {
    forall|y: int, x: int| 0 <= y < c.len() && 0 <= x < c[y].len() ==> !#[trigger] c[y][x]
}

/// The transition rule, cell by cell: a cell has at most eight live neighbours; on two it
/// keeps its state, on three it is alive, on any other count it is dead.
pub proof fn lemma_rule_thresholds(c: Seq<Seq<bool>>, w: nat, h: nat, x: int, y: int)
    requires
        w >= 1,
        h >= 1,
        is_grid(c, w, h),
        0 <= x < w,
        0 <= y < h,
    ensures
        neighbor_count(c, w, h, x, y) <= 8,
        neighbor_count(c, w, h, x, y) == 2 ==> step(c, w, h)[y][x] == c[y][x],
        neighbor_count(c, w, h, x, y) == 3 ==> step(c, w, h)[y][x],
        neighbor_count(c, w, h, x, y) != 2 && neighbor_count(c, w, h, x, y) != 3 ==> !step(c, w, h)[y][x],
{
}

/// The next generation has the same dimensions as the current one.
pub proof fn lemma_step_is_grid(c: Seq<Seq<bool>>, w: nat, h: nat)
    ensures
        is_grid(step(c, w, h), w, h),
{
}

/// A grid of dead cells stays dead for any number of generations.
pub proof fn lemma_dead_stays_dead(c: Seq<Seq<bool>>, w: nat, h: nat, n: nat)
    requires
        w >= 1,
        h >= 1,
        is_grid(c, w, h),
        all_dead(c),
    ensures
        is_grid(generations(c, w, h, n), w, h),
        all_dead(generations(c, w, h, n)),
    decreases n,
{
    if n > 0 {
        lemma_dead_stays_dead(c, w, h, (n - 1) as nat);
        let g = generations(c, w, h, (n - 1) as nat);
        lemma_step_is_grid(g, w, h);
        assert forall|y: int, x: int|
            0 <= y < h && 0 <= x < w implies !#[trigger] step(g, w, h)[y][x] by {
            lemma_wrap_neighbors(x, w as int);
            lemma_wrap_neighbors(y, h as int);
            assert(neighbor_count(g, w, h, x, y) == 0);
        }
    }
}

/// Narrowing a grid and widening it again keeps the columns that both widths share and
/// fills the rest with dead cells.
pub proof fn lemma_width_round_trip(c: Seq<Seq<bool>>, w: nat, h: nat, narrow: nat, wide: nat)
    requires
        is_grid(c, w, h),
    ensures
        with_width(with_width(c, narrow), wide) == Seq::new(
            h,
            |y: int| Seq::new(wide, |x: int| if x < narrow && x < w { c[y][x] } else { false }),
        ),
{
    assert(with_width(with_width(c, narrow), wide) =~~= Seq::new(
        h,
        |y: int| Seq::new(wide, |x: int| if x < narrow && x < w { c[y][x] } else { false }),
    ));
}

/// Toggling flips the one cell named and leaves every other cell and the dimensions as
/// they were.
pub proof fn lemma_toggle_flips_one(c: Seq<Seq<bool>>, w: nat, h: nat, x: int, y: int)
    requires
        is_grid(c, w, h),
        0 <= x < w,
        0 <= y < h,
    ensures
        is_grid(toggled(c, x, y), w, h),
        toggled(c, x, y)[y][x] == !c[y][x],
        forall|j: int, i: int|
            0 <= j < h && 0 <= i < w && (j != y || i != x) ==> #[trigger] toggled(c, x, y)[j][i] == c[j][i],
{
}

/// `(i - 1) % n` and `(i + 1) % n` for an index `i` of `0..n`.
pub proof fn lemma_wrap_neighbors(i: int, n: int)
    requires
        0 <= i < n,
    ensures
        (i - 1) % n == if i == 0 { n - 1 } else { i - 1 },
        (i + 1) % n == if i + 1 == n { 0 } else { i + 1 },
        i % n == i,
{
    if i == 0 {
        assert((i - 1) % n == n - 1) by (nonlinear_arith) requires i == 0, n > 0;
    }
    assert(i % n == i) by (nonlinear_arith) requires 0 <= i < n;
    if i + 1 == n {
        assert((i + 1) % n == 0) by (nonlinear_arith) requires i + 1 == n, n > 0;
    } else {
        assert((i + 1) % n == i + 1) by (nonlinear_arith) requires 0 <= i + 1 < n;
    }
    if i > 0 {
        assert((i - 1) % n == i - 1) by (nonlinear_arith) requires 0 <= i - 1 < n;
    }
}

} // verus!
