//! A bounded uniform grid of cells over particles sorted by cell, answering
//! which run of particles lies in a cell.
use vstd::prelude::*;

verus! {

/// Keys never decrease along the sequence.
pub open spec fn sorted(keys: Seq<usize>) -> bool {
    forall|i: int, j: int| 0 <= i <= j < keys.len() ==> keys[i] <= keys[j]
}

/// `s..e` is a whole run of key `q` within the first `t` keys: every key in it
/// is `q`, and it can be extended neither way.
pub open spec fn is_run(keys: Seq<usize>, t: int, q: int, s: int, e: int) -> bool {
    &&& 0 <= s < e <= t
    &&& forall|i: int| s <= i < e ==> keys[i] == q
    &&& (s == 0 || keys[s - 1] != q)
    &&& (e == t || keys[e] != q)
}

/// Key `q` occurs among the first `t` keys.
pub open spec fn occurs(keys: Seq<usize>, t: int, q: int) -> bool {
    exists|i: int| 0 <= i < t && keys[i] == q
}

/// The range table that `keys` yields: each cell key that occurs among the
/// first `t` keys holds its run, every other cell `(0, 0)`.
pub open spec fn ranges_of(keys: Seq<usize>, t: int, ranges: Seq<(usize, usize)>) -> bool {
    forall|q: int|
        #![trigger ranges[q]]
        0 <= q < ranges.len() ==> if occurs(keys, t, q) {
            is_run(keys, t, q, ranges[q].0 as int, ranges[q].1 as int)
        } else {
            ranges[q] == (0usize, 0usize)
        }
}

/// The ranges of cells `x0..x1` of row `y`.
pub open spec fn row_ranges(
    ranges: Seq<(usize, usize)>,
    nx: int,
    y: int,
    x0: int,
    x1: int,
) -> Seq<(usize, usize)> {
    Seq::new(if x1 > x0 { (x1 - x0) as nat } else { 0 }, |i: int| ranges[(x0 + i) + y * nx])
}

/// The ranges of the cells `x0..x1 × y0..y1`, row by row.
pub open spec fn window_ranges(
    ranges: Seq<(usize, usize)>,
    nx: int,
    x0: int,
    x1: int,
    y0: int,
    y1: int,
) -> Seq<(usize, usize)>
    decreases y1 - y0,
{
    if y1 <= y0 {
        Seq::empty()
    } else {
        window_ranges(ranges, nx, x0, x1, y0, y1 - 1) + row_ranges(ranges, nx, y1 - 1, x0, x1)
    }
}

/// The bounds `lo..hi` of the cells within `bound` of coordinate `c` on an
/// axis of `n` cells.
pub open spec fn window_axis(c: int, bound: int, n: int) -> (int, int) {
    (if c >= bound { c - bound } else { 0 }, if c + bound + 1 <= n { c + bound + 1 } else { n })
}

/// A grid of `nx × ny` cells; cell `(x, y)` has key `x + y·nx`, and holds the
/// range `start..end` of the particles in it.
pub struct BoundedGrid {
    num_cells: (usize, usize),
    cell_ranges: Vec<(usize, usize)>,
}

impl BoundedGrid {
    #[verifier::type_invariant]
    spec fn sized(self) -> bool {
        &&& self.num_cells.0 * self.num_cells.1 <= usize::MAX
        &&& self.cell_ranges@.len() == self.num_cells.0 * self.num_cells.1
        &&& forall|q: int|
            0 <= q < self.cell_ranges@.len() ==> #[trigger] self.cell_ranges@[q].0
                <= self.cell_ranges@[q].1
    }

    /// `(nx, ny)`.
    pub closed spec fn cells(&self) -> (nat, nat) {
        (self.num_cells.0 as nat, self.num_cells.1 as nat)
    }

    /// The range of each cell, by key.
    pub closed spec fn ranges(&self) -> Seq<(usize, usize)> {
        self.cell_ranges@
    }

    /// A grid of `num_cells.0 × num_cells.1` cells, all empty.
    pub fn new(num_cells: (usize, usize)) -> (g: BoundedGrid)
        requires
            num_cells.0 * num_cells.1 <= usize::MAX,
        ensures
            g.cells() == (num_cells.0 as nat, num_cells.1 as nat),
            g.ranges() == Seq::new((num_cells.0 * num_cells.1) as nat, |_q: int| (0usize, 0usize)),
    {
        let n = num_cells.0 * num_cells.1;
        let mut ranges: Vec<(usize, usize)> = Vec::with_capacity(n);
        let mut i: usize = 0;
        while i < n
            invariant
                i <= n,
                ranges@ == Seq::new(i as nat, |_q: int| (0usize, 0usize)),
            decreases n - i,
        {
            ranges.push((0, 0));
            i += 1;
            assert(ranges@ =~= Seq::new(i as nat, |_q: int| (0usize, 0usize)));
        }
        BoundedGrid { num_cells, cell_ranges: ranges }
    }

    /// The key of a cell, `x + y·nx`; `usize::MAX` for no cell or a cell
    /// outside the grid.
    pub fn get_key(&self, cell: Option<(usize, usize)>) -> (k: usize)
        ensures
            match cell {
                Some((x, y)) => if x < self.cells().0 && y < self.cells().1 {
                    k == x + y * self.cells().0
                } else {
                    k == usize::MAX
                },
                None => k == usize::MAX,
            },
    {
        proof {
            use_type_invariant(self);
        }
        match cell {
            Some((x, y)) => {
                if x < self.num_cells.0 && y < self.num_cells.1 {
                    proof {
                        lemma_key_in_range(x as int, y as int, self.num_cells.0 as int, self.num_cells.1 as int);
                    }
                    x + y * self.num_cells.0
                } else {
                    usize::MAX
                }
            },
            None => usize::MAX,
        }
    }

    /// Rebuilds the range table from the cell keys of the particles, sorted
    /// by key: each cell then holds the run of the particles with its key,
    /// and a cell with no particle holds `(0, 0)`. Keys outside the grid (of
    /// which `get_key` gives `usize::MAX`) sort last and are skipped.
    pub fn construct_ranges(&mut self, keys: &[usize])
        requires
            sorted(keys@),
        ensures
            final(self).cells() == old(self).cells(),
            final(self).ranges().len() == old(self).ranges().len(),
            ranges_of(keys@, keys@.len() as int, final(self).ranges()),
    {
        proof {
            use_type_invariant(&*self);
        }
        let n_cells = self.num_cells.0 * self.num_cells.1;
        let mut ranges: Vec<(usize, usize)> = Vec::with_capacity(n_cells);
        let mut i: usize = 0;
        while i < n_cells
            invariant
                i <= n_cells,
                ranges@ == Seq::new(i as nat, |_q: int| (0usize, 0usize)),
            decreases n_cells - i,
        {
            ranges.push((0, 0));
            i += 1;
            assert(ranges@ =~= Seq::new(i as nat, |_q: int| (0usize, 0usize)));
        }
        let n = keys.len();
        if n == 0 || keys[0] >= n_cells {
            proof {
                assert forall|q: int| 0 <= q < n_cells implies !occurs(keys@, n as int, q) by {
                    if occurs(keys@, n as int, q) {
                        let j = choose|j: int| 0 <= j < n && keys@[j] == q;
                        assert(keys@[0] <= keys@[j]);
                    }
                    assert(ranges@[q] == (0usize, 0usize));
                }
                assert(ranges_of(keys@, n as int, ranges@));
            }
            self.cell_ranges = ranges;
            return;
        }
        let mut prev = keys[0];
        let mut start: usize = 0;
        let mut particle: usize = 1;
        proof {
            assert forall|q: int| 0 <= q < n_cells && q != prev implies !occurs(keys@, 1, q) by {}
        }
        while particle < n && keys[particle] < n_cells
            invariant
                1 <= particle <= n,
                n == keys@.len(),
                sorted(keys@),
                ranges@.len() == n_cells,
                prev == keys@[particle - 1],
                prev < n_cells,
                start < particle,
                forall|j: int| start <= j < particle ==> keys@[j] == prev,
                start == 0 || keys@[start - 1] != prev,
                forall|q: int|
                    #![trigger ranges@[q]]
                    0 <= q < n_cells && q != prev ==> if occurs(keys@, particle as int, q) {
                        is_run(keys@, n as int, q, ranges@[q].0 as int, ranges@[q].1 as int)
                    } else {
                        ranges@[q] == (0usize, 0usize)
                    },
            decreases n - particle,
        {
            let index = keys[particle];
            proof {
                lemma_occurs_step(keys@, particle as int);
            }
            if prev != index {
                proof {
                    assert(keys@[particle - 1] <= keys@[particle as int]);
                    assert(!occurs(keys@, particle as int, index as int)) by {
                        if occurs(keys@, particle as int, index as int) {
                            let j = choose|j: int| 0 <= j < particle && keys@[j] == index;
                            assert(keys@[j] <= keys@[particle - 1]);
                        }
                    }
                }
                ranges.set(prev, (start, particle));
                ranges.set(index, (particle, 0));
                start = particle;
            }
            prev = index;
            particle += 1;
        }
        ranges.set(prev, (start, particle));
        proof {
            assert forall|q: int| 0 <= q < n_cells implies occurs(keys@, n as int, q) == occurs(
                keys@,
                particle as int,
                q,
            ) by {
                if occurs(keys@, n as int, q) {
                    let j = choose|j: int| 0 <= j < n && keys@[j] == q;
                    if j >= particle {
                        assert(keys@[particle as int] <= keys@[j]);
                    }
                }
            }
            assert(occurs(keys@, particle as int, prev as int));
            assert(particle == n || keys@[particle as int] != prev);
            assert(is_run(keys@, n as int, prev as int, start as int, particle as int));
            assert forall|q: int| #![trigger ranges@[q]] 0 <= q < ranges@.len() implies (if occurs(keys@, n as int, q) {
                is_run(keys@, n as int, q, ranges@[q].0 as int, ranges@[q].1 as int)
            } else {
                ranges@[q] == (0usize, 0usize)
            }) by {
                if q == prev {
                    assert(occurs(keys@, n as int, q));
                } else if occurs(keys@, n as int, q) {
                    assert(occurs(keys@, particle as int, q));
                } else {
                    assert(!occurs(keys@, particle as int, q));
                }
            }
            assert(ranges_of(keys@, n as int, ranges@));
            assert forall|q: int| 0 <= q < ranges@.len() implies #[trigger] ranges@[q].0
                <= ranges@[q].1 by {
                if q != prev {
                    if occurs(keys@, particle as int, q) {
                    }
                }
            }
        }
        self.cell_ranges = ranges;
        assert(ranges_of(keys@, keys@.len() as int, self.ranges()));
    }

    /// The ranges of the cells within `bound` of `cell` along both axes,
    /// `cell` included, row by row: the particles that a neighbour search
    /// around `cell` visits.
    pub fn neighbor_ranges(&self, cell: (usize, usize), bound: usize) -> (r: Vec<(usize, usize)>)
        ensures
            ({
                let (x0, x1) = window_axis(cell.0 as int, bound as int, self.cells().0 as int);
                let (y0, y1) = window_axis(cell.1 as int, bound as int, self.cells().1 as int);
                r@ == window_ranges(self.ranges(), self.cells().0 as int, x0, x1, y0, y1)
            }),
            forall|k: int| 0 <= k < r@.len() ==> (#[trigger] r@[k]).0 <= r@[k].1,
    {
        proof {
            use_type_invariant(self);
        }
        let (nx, ny) = self.num_cells;
        let lower_x = cell.0.saturating_sub(bound);
        let lower_y = cell.1.saturating_sub(bound);
        let upper_x = if cell.0 < nx && bound < nx - cell.0 {
            cell.0 + bound + 1
        } else {
            nx
        };
        let upper_y = if cell.1 < ny && bound < ny - cell.1 {
            cell.1 + bound + 1
        } else {
            ny
        };
        let ghost ranges = self.cell_ranges@;
        let mut out: Vec<(usize, usize)> = Vec::new();
        let mut y = lower_y;
        while y < upper_y
            invariant
                lower_y <= y,
                y <= upper_y || y == lower_y,
                upper_y <= ny,
                nx == self.num_cells.0,
                ny == self.num_cells.1,
                upper_x <= nx,
                nx * ny <= usize::MAX,
                ranges == self.cell_ranges@,
                ranges.len() == nx * ny,
                forall|q: int| 0 <= q < ranges.len() ==> #[trigger] ranges[q].0 <= ranges[q].1,
                out@ == window_ranges(ranges, nx as int, lower_x as int, upper_x as int, lower_y as int, y as int),
                forall|k: int| 0 <= k < out@.len() ==> (#[trigger] out@[k]).0 <= out@[k].1,
            decreases upper_y - y,
        {
            let mut x = lower_x;
            let ghost before = out@;
            while x < upper_x
                invariant
                    lower_x <= x,
                    y < upper_y <= ny,
                    upper_x <= nx,
                    nx * ny <= usize::MAX,
                    ranges == self.cell_ranges@,
                    ranges.len() == nx * ny,
                    forall|q: int| 0 <= q < ranges.len() ==> #[trigger] ranges[q].0 <= ranges[q].1,
                    before == window_ranges(ranges, nx as int, lower_x as int, upper_x as int, lower_y as int, y as int),
                    x <= upper_x || x == lower_x,
                    nx == self.num_cells.0,
                    ny == self.num_cells.1,
                    out@ == before + row_ranges(ranges, nx as int, y as int, lower_x as int, x as int),
                    forall|k: int| 0 <= k < out@.len() ==> (#[trigger] out@[k]).0 <= out@[k].1,
                decreases upper_x - x,
            {
                let range = self.get_range_unchecked((x, y));
                proof {
                    lemma_key_in_range(x as int, y as int, nx as int, ny as int);
                }
                out.push(range);
                x += 1;
                assert(out@ =~= before + row_ranges(ranges, nx as int, y as int, lower_x as int, x as int));
            }
            y += 1;
            proof {
                if lower_x < upper_x {
                    assert(x == upper_x);
                } else {
                    assert(row_ranges(ranges, nx as int, (y - 1) as int, lower_x as int, x as int) =~= row_ranges(ranges, nx as int, (y - 1) as int, lower_x as int, upper_x as int));
                }
            }
        }
        proof {
            if y != upper_y {
                assert(window_ranges(ranges, nx as int, lower_x as int, upper_x as int, lower_y as int, y as int) =~= window_ranges(ranges, nx as int, lower_x as int, upper_x as int, lower_y as int, upper_y as int));
            }
        }
        out
    }

    /// The range of the particles in `cell`; `None` when the cell lies
    /// outside the grid.
    pub fn get_range(&self, cell: (usize, usize)) -> (r: Option<(usize, usize)>)
        ensures
            r is Some <==> cell.0 < self.cells().0 && cell.1 < self.cells().1,
            r is Some ==> r->0 == self.ranges()[cell.0 + cell.1 * self.cells().0],
    {
        if cell.0 < self.num_cells.0 && cell.1 < self.num_cells.1 {
            Some(self.get_range_unchecked(cell))
        } else {
            None
        }
    }

    /// The range of the particles in `cell`, which lies in the grid.
    pub fn get_range_unchecked(&self, cell: (usize, usize)) -> (r: (usize, usize))
        requires
            cell.0 < self.cells().0,
            cell.1 < self.cells().1,
        ensures
            r == self.ranges()[cell.0 + cell.1 * self.cells().0],
            r.0 <= r.1,
    {
        proof {
            use_type_invariant(self);
            lemma_key_in_range(cell.0 as int, cell.1 as int, self.num_cells.0 as int, self.num_cells.1 as int);
        }
        let index = cell.0 + cell.1 * self.num_cells.0;
        self.cell_ranges[index]
    }
}

proof fn lemma_occurs_step(keys: Seq<usize>, p: int)
    requires
        0 <= p < keys.len(),
    ensures
        forall|q: int| #[trigger] occurs(keys, p + 1, q) == (occurs(keys, p, q) || keys[p] == q),
{
    assert forall|q: int| #[trigger] occurs(keys, p + 1, q) == (occurs(keys, p, q) || keys[p] == q) by {
        if occurs(keys, p + 1, q) {
            let j = choose|j: int| 0 <= j < p + 1 && keys[j] == q;
            if j < p {
                assert(occurs(keys, p, q));
            }
        }
        if occurs(keys, p, q) {
            let j = choose|j: int| 0 <= j < p && keys[j] == q;
            assert(0 <= j < p + 1 && keys[j] == q);
        }
        if keys[p] == q {
            assert(0 <= p < p + 1 && keys[p] == q);
        }
    }
}

/// The key of a cell inside the grid indexes the range table.
pub proof fn lemma_key_in_range(x: int, y: int, nx: int, ny: int)
    requires
        0 <= x < nx,
        0 <= y < ny,
    ensures
        0 <= x + y * nx < nx * ny,
        0 <= y * nx,
{
    assert(0 <= y * nx && 0 <= x + y * nx < nx * ny) by (nonlinear_arith)
        requires
            0 <= x < nx,
            0 <= y < ny,
    ;
}

} // verus!
