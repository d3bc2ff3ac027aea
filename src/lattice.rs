use vstd::prelude::*;
use vstd::arithmetic::div_mod::lemma_fundamental_div_mod_converse;

verus! {

/// A spring's endpoints, as indices into its body's point sequence.
#[derive(Clone, Copy, Debug, PartialEq, Eq, Structural)]
pub struct Link {
    pub a: usize,
    pub b: usize,
}

/// Grid coordinates of a lattice point: it lies at `origin + (x, y) * spacing`.
#[derive(Clone, Copy, Debug, PartialEq, Eq, Structural)]
pub struct Cell {
    pub x: usize,
    pub y: usize,
}

/// The topology of a square lattice with `n` subdivisions per side: the grid
/// cell of each point, the structural springs between horizontal and vertical
/// neighbours, and the diagonal braces of every grid square, each list in the
/// order in which springs are declared.
pub struct SquareLattice {
    pub cells: Vec<Cell>,
    pub edges: Vec<Link>,
    pub braces: Vec<Link>,
}

pub open spec fn link(a: int, b: int) -> Link {
    Link { a: a as usize, b: b as usize }
}

/// The point index of grid cell `(x, y)` on a side of `m` points.
pub open spec fn grid_index(m: int, x: int, y: int) -> int {
    x * m + y
}

/// The grid cell of point index `k` on a side of `m` points.
pub open spec fn cell_of(m: int, k: int) -> Cell {
    Cell { x: (k / m) as usize, y: (k % m) as usize }
}

/// The points of a lattice with `m` points per side, in index order.
pub open spec fn grid_cells(m: int) -> Seq<Cell> {
    Seq::new((m * m) as nat, |k: int| cell_of(m, k))
}

/// The springs that start at grid cell `(x, y)`: structural ones to the next
/// point along `y` and along `x`, or (for `brace`) the two diagonals of the grid
/// square below the cell.
pub open spec fn cell_links(m: int, x: int, y: int, brace: bool) -> Seq<Link> {
    let k = grid_index(m, x, y);
    if !brace {
        (if y < m - 1 { seq![link(k, k + 1)] } else { Seq::empty() })
            + (if x < m - 1 { seq![link(k, k + m)] } else { Seq::empty() })
    } else {
        (if x < m - 1 && y < m - 1 { seq![link(k, k + m + 1)] } else { Seq::empty() })
            + (if x < m - 1 && y > 0 { seq![link(k, k + m - 1)] } else { Seq::empty() })
    }
}

/// The springs of the first `c` cells of grid line `x`.
pub open spec fn line_links(m: int, x: int, c: int, brace: bool) -> Seq<Link>
    decreases c,
{
    if c <= 0 {
        Seq::empty()
    } else {
        line_links(m, x, c - 1, brace) + cell_links(m, x, c - 1, brace)
    }
}

/// The springs of the first `r` grid lines.
pub open spec fn lines_links(m: int, r: int, brace: bool) -> Seq<Link>
    decreases r,
{
    if r <= 0 {
        Seq::empty()
    } else {
        lines_links(m, r - 1, brace) + line_links(m, r - 1, m, brace)
    }
}

/// All structural springs (or all braces) of a lattice with `m` points per side.
pub open spec fn lattice_links(m: int, brace: bool) -> Seq<Link> {
    lines_links(m, m, brace)
}

/// The grid offset `(dx, dy)` from lattice point `a` to lattice point `b`.
pub open spec fn grid_offset(m: int, a: int, b: int) -> (int, int) {
    let ca = cell_of(m, a);
    let cb = cell_of(m, b);
    (cb.x - ca.x, cb.y - ca.y)
}

/// A spring of an `m`-by-`m` lattice: distinct valid endpoints, one grid step
/// apart along an axis (a structural spring, whose rest length is the grid
/// spacing), or across a grid square for `brace` (a diagonal, whose rest length
/// is the spacing times the square root of two).
pub open spec fn lattice_spring(m: int, l: Link, brace: bool) -> bool {
    let d = grid_offset(m, l.a as int, l.b as int);
    &&& l.a < l.b < m * m
    &&& if brace {
        d == (1int, 1int) || d == (1int, -1int)
    } else {
        d == (0int, 1int) || d == (1int, 0int)
    }
}

/// The number of points, structural springs and braces fit in `usize`.
pub open spec fn lattice_fits(n: int) -> bool {
    0 <= n && 3 * (n + 1) * (n + 1) <= usize::MAX
}

proof fn lemma_cell_of(m: int, x: int, y: int)
    requires
        0 <= x,
        0 <= y < m,
        x * m + y <= usize::MAX,
    ensures
        cell_of(m, grid_index(m, x, y)) == (Cell { x: x as usize, y: y as usize }),
{
    lemma_fundamental_div_mod_converse(x * m + y, m, x, y);
}

/// The number of springs in the first `c` cells of grid line `x`.
spec fn line_count(m: int, x: int, c: int, brace: bool) -> int {
    let along = if c < m { c } else { m - 1 };
    if !brace {
        along + (if x < m - 1 { c } else { 0 })
    } else if x < m - 1 {
        along + (if c > 0 { c - 1 } else { 0 })
    } else {
        0
    }
}

proof fn lemma_line_len(m: int, x: int, c: int, brace: bool)
    requires
        1 <= m,
        0 <= x < m,
        0 <= c <= m,
    ensures
        line_links(m, x, c, brace).len() == line_count(m, x, c, brace),
    decreases c,
{
    if c > 0 {
        lemma_line_len(m, x, c - 1, brace);
    }
}

/// The number of springs in the first `r` grid lines.
spec fn lines_count(m: int, r: int, brace: bool) -> int {
    if !brace {
        if r < m { r * (2 * m - 1) } else { (m - 1) * (2 * m) }
    } else {
        if r < m { r * (2 * (m - 1)) } else { (m - 1) * (2 * (m - 1)) }
    }
}

proof fn lemma_lines_len(m: int, r: int, brace: bool)
    requires
        1 <= m,
        0 <= r <= m,
    ensures
        lines_links(m, r, brace).len() == lines_count(m, r, brace),
    decreases r,
{
    if r > 0 {
        lemma_lines_len(m, r - 1, brace);
        lemma_line_len(m, r - 1, m, brace);
        assert((r - 1) * (2 * m - 1) + (2 * m - 1) == r * (2 * m - 1)) by (nonlinear_arith);
        assert((m - 1) * (2 * m - 1) + (m - 1) == (m - 1) * (2 * m)) by (nonlinear_arith);
        assert((r - 1) * (2 * (m - 1)) + 2 * (m - 1) == r * (2 * (m - 1))) by (nonlinear_arith);
    } else {
        assert(0 * (2 * m - 1) == 0 && 0 * (2 * (m - 1)) == 0);
    }
}

proof fn lemma_cell_links_valid(m: int, x: int, y: int, brace: bool)
    requires
        0 <= x < m,
        0 <= y < m,
        m * m <= usize::MAX,
    ensures
        forall|i: int| 0 <= i < cell_links(m, x, y, brace).len()
            ==> lattice_spring(m, #[trigger] cell_links(m, x, y, brace)[i], brace),
{
    let k = grid_index(m, x, y);
    assert(k < m * m) by (nonlinear_arith)
        requires k == x * m + y, 0 <= x < m, 0 <= y < m;
    assert(x * m <= k);
    assert(0 <= x * m) by (nonlinear_arith) requires 0 <= x, 0 < m;
    lemma_cell_of(m, x, y);
    if y + 1 < m {
        lemma_cell_of(m, x, y + 1);
        assert(k + 1 < m * m) by (nonlinear_arith)
            requires k == x * m + y, 0 <= x < m, 0 <= y < m - 1;
        assert(lattice_spring(m, link(k, k + 1), false));
    }
    if x < m - 1 {
        assert(k + m + 1 <= m * m) by (nonlinear_arith)
            requires k == x * m + y, 0 <= x < m - 1, 0 <= y < m;
        assert((x + 1) * m == x * m + m) by (nonlinear_arith);
        lemma_cell_of(m, x + 1, y);
        assert(lattice_spring(m, link(k, k + m), false));
        if y + 1 < m {
            lemma_cell_of(m, x + 1, y + 1);
            assert(k + m + 1 < m * m) by (nonlinear_arith)
                requires k == x * m + y, 0 <= x < m - 1, 0 <= y < m - 1;
            assert(lattice_spring(m, link(k, k + m + 1), true));
        }
        if y > 0 {
            lemma_cell_of(m, x + 1, y - 1);
            assert(lattice_spring(m, link(k, k + m - 1), true));
        }
    }
    let s = cell_links(m, x, y, brace);
    assert forall|i: int| 0 <= i < s.len() implies lattice_spring(m, #[trigger] s[i], brace) by {
        if !brace {
            if y < m - 1 && i == 0 {
                assert(s[i] == link(k, k + 1));
            } else {
                assert(s[i] == link(k, k + m));
            }
        } else {
            if x < m - 1 && y < m - 1 && i == 0 {
                assert(s[i] == link(k, k + m + 1));
            } else {
                assert(s[i] == link(k, k + m - 1));
            }
        }
    }
}

proof fn lemma_line_valid(m: int, x: int, c: int, brace: bool)
    requires
        0 <= x < m,
        0 <= c <= m,
        m * m <= usize::MAX,
    ensures
        forall|i: int| 0 <= i < line_links(m, x, c, brace).len()
            ==> lattice_spring(m, #[trigger] line_links(m, x, c, brace)[i], brace),
    decreases c,
{
    if c > 0 {
        lemma_line_valid(m, x, c - 1, brace);
        lemma_cell_links_valid(m, x, c - 1, brace);
        let s1 = line_links(m, x, c - 1, brace);
        let s2 = cell_links(m, x, c - 1, brace);
        assert forall|i: int| 0 <= i < (s1 + s2).len()
            implies lattice_spring(m, #[trigger] (s1 + s2)[i], brace) by {
            if i >= s1.len() {
                assert((s1 + s2)[i] == s2[i - s1.len()]);
            }
        }
    }
}

proof fn lemma_lines_valid(m: int, r: int, brace: bool)
    requires
        0 <= r <= m,
        m * m <= usize::MAX,
    ensures
        forall|i: int| 0 <= i < lines_links(m, r, brace).len()
            ==> lattice_spring(m, #[trigger] lines_links(m, r, brace)[i], brace),
    decreases r,
{
    if r > 0 {
        lemma_lines_valid(m, r - 1, brace);
        lemma_line_valid(m, r - 1, m, brace);
        let s1 = lines_links(m, r - 1, brace);
        let s2 = line_links(m, r - 1, m, brace);
        assert forall|i: int| 0 <= i < (s1 + s2).len()
            implies lattice_spring(m, #[trigger] (s1 + s2)[i], brace) by {
            if i >= s1.len() {
                assert((s1 + s2)[i] == s2[i - s1.len()]);
            }
        }
    }
}

fn push_cell_links(m: usize, x: usize, y: usize, brace: bool, out: &mut Vec<Link>)
    requires
        x < m,
        y < m,
        m * m <= usize::MAX,
    ensures
        final(out)@ == old(out)@ + cell_links(m as int, x as int, y as int, brace),
{
    assert(x * m + y < m * m) by (nonlinear_arith)
        requires x < m, y < m;
    let k = x * m + y;
    if !brace {
        if y < m - 1 {
            out.push(Link { a: k, b: k + 1 });
        }
        if x < m - 1 {
            assert(k + m < m * m) by (nonlinear_arith)
                requires k == x * m + y, x < m - 1, y < m;
            out.push(Link { a: k, b: k + m });
        }
    } else {
        if x < m - 1 && y < m - 1 {
            assert(k + m + 1 < m * m) by (nonlinear_arith)
                requires k == x * m + y, x < m - 1, y < m - 1;
            out.push(Link { a: k, b: k + m + 1 });
        }
        if x < m - 1 && y > 0 {
            assert(k + m - 1 < m * m) by (nonlinear_arith)
                requires k == x * m + y, x < m - 1, y < m;
            out.push(Link { a: k, b: k + m - 1 });
        }
    }
    assert(final(out)@ =~= old(out)@ + cell_links(m as int, x as int, y as int, brace));
}

fn build_links(m: usize, brace: bool) -> (r: Vec<Link>)
    requires
        m * m <= usize::MAX,
    ensures
        r@ == lattice_links(m as int, brace),
{
    let mut out: Vec<Link> = Vec::new();
    let mut x: usize = 0;
    while x < m
        invariant
            x <= m,
            m * m <= usize::MAX,
            out@ == lines_links(m as int, x as int, brace),
        decreases m - x,
    {
        let mut y: usize = 0;
        while y < m
            invariant
                x < m,
                y <= m,
                m * m <= usize::MAX,
                out@ == lines_links(m as int, x as int, brace) + line_links(m as int, x as int, y as int, brace),
            decreases m - y,
        {
            push_cell_links(m, x, y, brace, &mut out);
            assert(out@ =~= lines_links(m as int, x as int, brace)
                + line_links(m as int, x as int, y + 1, brace));
            y = y + 1;
        }
        assert(out@ =~= lines_links(m as int, x + 1, brace));
        x = x + 1;
    }
    out
}

fn build_cells(m: usize) -> (r: Vec<Cell>)
    requires
        m * m <= usize::MAX,
    ensures
        r@ == grid_cells(m as int),
{
    let mut out: Vec<Cell> = Vec::new();
    let mut x: usize = 0;
    while x < m
        invariant
            x <= m,
            m * m <= usize::MAX,
            out@.len() == x * m,
            forall|k: int| 0 <= k < out@.len() ==> #[trigger] out@[k] == cell_of(m as int, k),
        decreases m - x,
    {
        assert(x * m + m <= m * m) by (nonlinear_arith)
            requires x < m;
        let mut y: usize = 0;
        while y < m
            invariant
                x < m,
                y <= m,
                x * m + m <= m * m,
                m * m <= usize::MAX,
                out@.len() == x * m + y,
                forall|k: int| 0 <= k < out@.len() ==> #[trigger] out@[k] == cell_of(m as int, k),
            decreases m - y,
        {
            proof {
                lemma_cell_of(m as int, x as int, y as int);
            }
            out.push(Cell { x, y });
            y = y + 1;
        }
        assert((x + 1) * m == x * m + m) by (nonlinear_arith);
        x = x + 1;
    }
    assert(out@ =~= grid_cells(m as int));
    out
}

/// The shape of a square lattice with `n` subdivisions per side: `(n+1)^2`
/// points, `2n(n+1)` structural springs one grid step apart along an axis, and
/// `2n^2` diagonal braces across a grid square, all with distinct valid
/// endpoints.
pub proof fn lemma_square_lattice_shape(n: int)
    requires
        lattice_fits(n),
    ensures
        grid_cells(n + 1).len() == (n + 1) * (n + 1),
        lattice_links(n + 1, false).len() == 2 * n * (n + 1),
        lattice_links(n + 1, true).len() == 2 * n * n,
        forall|i: int| 0 <= i < lattice_links(n + 1, false).len()
            ==> lattice_spring(n + 1, #[trigger] lattice_links(n + 1, false)[i], false),
        forall|i: int| 0 <= i < lattice_links(n + 1, true).len()
            ==> lattice_spring(n + 1, #[trigger] lattice_links(n + 1, true)[i], true),
{
    let m = n + 1;
    lemma_lines_len(m, m, false);
    lemma_lines_len(m, m, true);
    assert((m - 1) * (2 * m) == 2 * n * (n + 1)) by (nonlinear_arith)
        requires m == n + 1;
    assert((m - 1) * (2 * (m - 1)) == 2 * n * n) by (nonlinear_arith)
        requires m == n + 1;
    assert(m * m <= usize::MAX) by (nonlinear_arith)
        requires lattice_fits(n), m == n + 1;
    lemma_lines_valid(m, m, false);
    lemma_lines_valid(m, m, true);
}

/// Builds the topology of a square lattice with `n` subdivisions per side.
///
/// Point `x * (n + 1) + y` sits at grid cell `(x, y)`. The structural springs
/// come cell by cell in index order, each cell first linking to its successor
/// along `y` and then along `x`; the braces follow the same walk, each cell
/// first linking across the square towards `(x + 1, y + 1)` and then towards
/// `(x + 1, y - 1)`.
pub fn square_lattice(n: usize) -> (r: SquareLattice)
    requires
        lattice_fits(n as int),
    ensures
        r.cells@ == grid_cells(n + 1),
        r.edges@ == lattice_links(n + 1, false),
        r.braces@ == lattice_links(n + 1, true),
        r.cells@.len() == (n + 1) * (n + 1),
        r.edges@.len() == 2 * n * (n + 1),
        r.braces@.len() == 2 * n * n,
        forall|i: int| 0 <= i < r.edges@.len() ==> lattice_spring(n + 1, #[trigger] r.edges@[i], false),
        forall|i: int| 0 <= i < r.braces@.len() ==> lattice_spring(n + 1, #[trigger] r.braces@[i], true),
{
    proof {
        lemma_square_lattice_shape(n as int);
        assert((n + 1) * (n + 1) <= usize::MAX && n + 1 <= usize::MAX) by (nonlinear_arith)
            requires lattice_fits(n as int);
    }
    let m = n + 1;
    let cells = build_cells(m);
    let edges = build_links(m, false);
    let braces = build_links(m, true);
    SquareLattice { cells, edges, braces }
}

/// The springs of the three-point triangle body: a closed loop `0-1`, `1-2`,
/// `2-0`.
pub fn triangle_links() -> (r: Vec<Link>)
    ensures
        r@ == seq![link(0, 1), link(1, 2), link(2, 0)],
{
    let mut r: Vec<Link> = Vec::new();
    r.push(Link { a: 0, b: 1 });
    r.push(Link { a: 1, b: 2 });
    r.push(Link { a: 2, b: 0 });
    assert(r@ =~= seq![link(0, 1), link(1, 2), link(2, 0)]);
    r
}

} // verus!
