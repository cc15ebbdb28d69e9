use vstd::prelude::*;

verus! {

/// A cell coordinate or a unit direction on the grid.
#[derive(Clone, Copy, Debug, PartialEq, Eq, Structural)]
pub struct Vector2D {
    pub x: i32,
    pub y: i32,
}

/// What occupies a cell.
#[derive(Clone, Copy, Debug, PartialEq, Eq, Structural)]
pub enum CellContents {
    Empty,
    Snake,
    Apple,
}

pub open spec fn in_grid(c: Vector2D, cols: int, rows: int) -> bool {
    0 <= c.x < cols && 0 <= c.y < rows
}

pub open spec fn all_in_grid(s: Seq<Vector2D>, cols: int, rows: int) -> bool {
    forall|i: int| 0 <= i < s.len() ==> #[trigger] in_grid(s[i], cols, rows)
}

/// Toroidal normalisation of a coordinate that is at most one step outside `[0, n)`.
pub open spec fn wrap_spec(v: int, n: int) -> int {
    if v < 0 {
        v + n
    } else if v >= n {
        v - n
    } else {
        v
    }
}

pub open spec fn contents_spec(path: Seq<Vector2D>, apples: Seq<Vector2D>, c: Vector2D) -> CellContents {
    if path.contains(c) {
        CellContents::Snake
    } else if apples.contains(c) {
        CellContents::Apple
    } else {
        CellContents::Empty
    }
}

pub open spec fn is_empty_cell(
    cols: int,
    rows: int,
    path: Seq<Vector2D>,
    apples: Seq<Vector2D>,
    c: Vector2D,
) -> bool {
    in_grid(c, cols, rows) && !path.contains(c) && !apples.contains(c)
}

/// Every cell of the grid holds a part of the snake or an apple.
pub open spec fn grid_full(cols: int, rows: int, path: Seq<Vector2D>, apples: Seq<Vector2D>) -> bool {
    forall|c: Vector2D| !#[trigger] is_empty_cell(cols, rows, path, apples, c)
}

/// Column-major order of cells: by `x`, then by `y`.
pub open spec fn cell_before(a: Vector2D, b: Vector2D) -> bool {
    a.x < b.x || (a.x == b.x && a.y < b.y)
}

pub open spec fn strictly_ordered(s: Seq<Vector2D>) -> bool {
    forall|i: int, j: int| 0 <= i < j < s.len() ==> cell_before(#[trigger] s[i], #[trigger] s[j])
}

/// The empty cells of the grid, each once, in column-major order.
pub open spec fn lists_empty_cells(
    r: Seq<Vector2D>,
    cols: int,
    rows: int,
    path: Seq<Vector2D>,
    apples: Seq<Vector2D>,
) -> bool {
    &&& strictly_ordered(r)
    &&& forall|c: Vector2D| r.contains(c) <==> #[trigger] is_empty_cell(cols, rows, path, apples, c)
}

/// The wrapped value is the mathematical remainder of `v` by `n`.
pub proof fn lemma_wrap_is_mod(v: int, n: int)
    requires
        0 < n,
        -n <= v < 2 * n,
    ensures
        wrap_spec(v, n) == v % n,
{
    let q: int = if v < 0 {
        -1
    } else if v >= n {
        1
    } else {
        0
    };
    vstd::arithmetic::div_mod::lemma_fundamental_div_mod_converse(v, n, q, wrap_spec(v, n));
}

/// Brings a coordinate that is at most one step outside `[0, n)` back into it.
pub fn wrap(v: i32, n: i32) -> (r: i32)
    requires
        0 < n,
        -1 <= v <= n,
    ensures
        r == wrap_spec(v as int, n as int),
        r == (v as int) % (n as int),
        0 <= r < n,
{
    proof {
        lemma_wrap_is_mod(v as int, n as int);
    }
    if v < 0 {
        n - 1
    } else if v >= n {
        0
    } else {
        v
    }
}

pub fn contains_cell(cells: &std::collections::VecDeque<Vector2D>, c: Vector2D) -> (r: bool)
    ensures
        r == cells@.contains(c),
{
    let mut i: usize = 0;
    while i < cells.len()
        invariant
            0 <= i <= cells@.len(),
            forall|j: int| 0 <= j < i ==> cells@[j] != c,
        decreases cells@.len() - i,
    {
        if cells[i] == c {
            return true;
        }
        i += 1;
    }
    false
}

pub fn vec_contains_cell(cells: &Vec<Vector2D>, c: Vector2D) -> (r: bool)
    ensures
        r == cells@.contains(c),
{
    let mut i: usize = 0;
    while i < cells.len()
        invariant
            0 <= i <= cells@.len(),
            forall|j: int| 0 <= j < i ==> cells@[j] != c,
        decreases cells@.len() - i,
    {
        if cells[i] == c {
            return true;
        }
        i += 1;
    }
    false
}

/// The index of `c` in `cells`, if it is there.
pub fn position_of(cells: &Vec<Vector2D>, c: Vector2D) -> (r: Option<usize>)
    ensures
        r.is_none() <==> !cells@.contains(c),
        r matches Some(i) ==> i < cells@.len() && cells@[i as int] == c,
{
    let mut i: usize = 0;
    while i < cells.len()
        invariant
            0 <= i <= cells@.len(),
            forall|j: int| 0 <= j < i ==> cells@[j] != c,
        decreases cells@.len() - i,
    {
        if cells[i] == c {
            return Some(i);
        }
        i += 1;
    }
    None
}

/// Classifies the cell `(x, y)`: the snake is checked before the apples.
pub fn contents_of_square(
    path: &std::collections::VecDeque<Vector2D>,
    apples: &Vec<Vector2D>,
    x: i32,
    y: i32,
) -> (r: CellContents)
    ensures
        r == contents_spec(path@, apples@, Vector2D { x, y }),
{
    let c = Vector2D { x, y };
    if contains_cell(path, c) {
        CellContents::Snake
    } else if vec_contains_cell(apples, c) {
        CellContents::Apple
    } else {
        CellContents::Empty
    }
}

/// Lists every empty cell of a `cols` by `rows` grid in column-major order.
pub fn get_empty_squares(
    cols: i32,
    rows: i32,
    path: &std::collections::VecDeque<Vector2D>,
    apples: &Vec<Vector2D>,
) -> (r: Vec<Vector2D>)
    ensures
        lists_empty_cells(r@, cols as int, rows as int, path@, apples@),
{
    let mut rv: Vec<Vector2D> = Vec::new();
    let mut x: i32 = 0;
    while x < cols
        invariant
            x <= cols || cols <= 0,
            0 <= x,
            strictly_ordered(rv@),
            forall|i: int| 0 <= i < rv@.len() ==> rv@[i].x < x,
            forall|c: Vector2D|
                rv@.contains(c) <==> (#[trigger] is_empty_cell(cols as int, rows as int, path@, apples@, c)
                    && c.x < x),
        decreases cols - x,
    {
        let mut y: i32 = 0;
        while y < rows
            invariant
                0 <= x < cols,
                y <= rows || rows <= 0,
                0 <= y,
                strictly_ordered(rv@),
                forall|i: int| 0 <= i < rv@.len() ==> cell_before(rv@[i], Vector2D { x, y }),
                forall|c: Vector2D|
                    rv@.contains(c) <==> (#[trigger] is_empty_cell(cols as int, rows as int, path@, apples@, c)
                        && cell_before(c, Vector2D { x, y })),
            decreases rows - y,
        {
            let here = Vector2D { x, y };
            let contents = contents_of_square(path, apples, x, y);
            if contents == CellContents::Empty {
                let ghost before = rv@;
                rv.push(here);
                proof {
                    assert forall|c: Vector2D| rv@.contains(c) <==> (
                        #[trigger] is_empty_cell(cols as int, rows as int, path@, apples@, c)
                        && cell_before(c, Vector2D { x, y: (y + 1) as i32 })) by {
                        if rv@.contains(c) && c != here {
                            let k = choose|k: int| 0 <= k < rv@.len() && rv@[k] == c;
                            assert(before[k] == c);
                            assert(before.contains(c));
                        }
                        if c != here && is_empty_cell(cols as int, rows as int, path@, apples@, c)
                            && cell_before(c, Vector2D { x, y: (y + 1) as i32 }) {
                            assert(before.contains(c));
                            let k = choose|k: int| 0 <= k < before.len() && before[k] == c;
                            assert(rv@[k] == c);
                        }
                        if c == here {
                            assert(rv@[before.len() as int] == c);
                        }
                    }
                }
            } else {
                proof {
                    assert forall|c: Vector2D| rv@.contains(c) <==> (
                        #[trigger] is_empty_cell(cols as int, rows as int, path@, apples@, c)
                        && cell_before(c, Vector2D { x, y: (y + 1) as i32 })) by {
                        if c == here {
                            if rv@.contains(c) {
                                let k = choose|k: int| 0 <= k < rv@.len() && rv@[k] == c;
                                assert(cell_before(rv@[k], here));
                            }
                        }
                    }
                }
            }
            y += 1;
        }
        proof {
            assert forall|c: Vector2D| rv@.contains(c) <==> (
                #[trigger] is_empty_cell(cols as int, rows as int, path@, apples@, c)
                && c.x < x + 1) by {
                if rv@.contains(c) {
                    let k = choose|k: int| 0 <= k < rv@.len() && rv@[k] == c;
                    assert(cell_before(rv@[k], Vector2D { x, y }));
                }
                if is_empty_cell(cols as int, rows as int, path@, apples@, c) && c.x < x + 1 {
                    assert(cell_before(c, Vector2D { x, y }));
                }
            }
        }
        x += 1;
    }
    rv
}

/// Whether all cells of `cells` are distinct.
pub fn distinct_cells(cells: &Vec<Vector2D>) -> (r: bool)
    ensures
        r == cells@.no_duplicates(),
{
    let mut i: usize = 0;
    while i < cells.len()
        invariant
            0 <= i <= cells@.len(),
            forall|a: int, b: int| 0 <= a < b < cells@.len() && a < i ==> cells@[a] != cells@[b],
        decreases cells@.len() - i,
    {
        let mut j: usize = i + 1;
        while j < cells.len()
            invariant
                i < cells@.len(),
                i + 1 <= j <= cells@.len(),
                forall|a: int, b: int| 0 <= a < b < cells@.len() && a < i ==> cells@[a] != cells@[b],
                forall|b: int| i < b < j ==> cells@[i as int] != cells@[b],
            decreases cells@.len() - j,
        {
            if cells[i] == cells[j] {
                return false;
            }
            j += 1;
        }
        i += 1;
    }
    true
}

/// Whether every cell of `cells` lies on a `cols` by `rows` grid.
pub fn cells_in_grid(cells: &Vec<Vector2D>, cols: i32, rows: i32) -> (r: bool)
    ensures
        r == all_in_grid(cells@, cols as int, rows as int),
{
    let mut i: usize = 0;
    while i < cells.len()
        invariant
            0 <= i <= cells@.len(),
            forall|k: int| 0 <= k < i ==> #[trigger] in_grid(cells@[k], cols as int, rows as int),
        decreases cells@.len() - i,
    {
        let c = cells[i];
        if !(0 <= c.x && c.x < cols && 0 <= c.y && c.y < rows) {
            assert(!in_grid(cells@[i as int], cols as int, rows as int));
            return false;
        }
        i += 1;
    }
    true
}

/// Whether no cell of `cells` appears in `others`.
pub fn cells_disjoint(cells: &Vec<Vector2D>, others: &Vec<Vector2D>) -> (r: bool)
    ensures
        r == forall|k: int| 0 <= k < cells@.len() ==> !others@.contains(#[trigger] cells@[k]),
{
    let mut i: usize = 0;
    while i < cells.len()
        invariant
            0 <= i <= cells@.len(),
            forall|k: int| 0 <= k < i ==> !others@.contains(#[trigger] cells@[k]),
        decreases cells@.len() - i,
    {
        if vec_contains_cell(others, cells[i]) {
            return false;
        }
        i += 1;
    }
    true
}

/// The position of a cell in column-major order.
pub open spec fn cell_index(c: Vector2D, rows: int) -> int {
    c.x * rows + c.y
}

proof fn lemma_cell_index(c: Vector2D, d: Vector2D, cols: int, rows: int)
    requires
        in_grid(c, cols, rows),
        in_grid(d, cols, rows),
    ensures
        0 <= cell_index(c, rows) < cols * rows,
        cell_index(c, rows) == cell_index(d, rows) ==> c == d,
{
    let (x, y) = (c.x as int, c.y as int);
    assert(0 <= x * rows + y < cols * rows) by (nonlinear_arith)
        requires
            0 <= x < cols,
            0 <= y < rows,
    ;
    vstd::arithmetic::div_mod::lemma_fundamental_div_mod_converse(cell_index(c, rows), rows, x, y);
    vstd::arithmetic::div_mod::lemma_fundamental_div_mod_converse(
        cell_index(d, rows),
        rows,
        d.x as int,
        d.y as int,
    );
}

/// Distinct cells of a grid are at most as many as the grid has cells, and
/// exactly as many when every cell of the grid is among them.
pub proof fn lemma_cell_count(s: Seq<Vector2D>, cols: int, rows: int)
    requires
        0 < cols <= i32::MAX,
        0 < rows <= i32::MAX,
        s.no_duplicates(),
        all_in_grid(s, cols, rows),
    ensures
        s.len() <= cols * rows,
        (forall|c: Vector2D| in_grid(c, cols, rows) ==> #[trigger] s.contains(c)) ==> s.len() == cols * rows,
{
    let n = cols * rows;
    let t = s.map_values(|c: Vector2D| cell_index(c, rows));
    assert forall|i: int, j: int| 0 <= i < j < t.len() implies t[i] != t[j] by {
        assert(in_grid(s[i], cols, rows) && in_grid(s[j], cols, rows));
        lemma_cell_index(s[i], s[j], cols, rows);
    }
    t.unique_seq_to_set();
    let range = vstd::set_lib::set_int_range(0, n);
    vstd::set_lib::lemma_int_range(0, n);
    assert forall|k: int| #[trigger] t.to_set().contains(k) implies range.contains(k) by {
        assert(t.contains(k));
        let i = choose|i: int| 0 <= i < t.len() && t[i] == k;
        assert(in_grid(s[i], cols, rows));
        lemma_cell_index(s[i], s[i], cols, rows);
    }
    vstd::set_lib::lemma_len_subset(t.to_set(), range);
    if forall|c: Vector2D| in_grid(c, cols, rows) ==> #[trigger] s.contains(c) {
        assert forall|k: int| #[trigger] range.contains(k) implies t.to_set().contains(k) by {
            vstd::arithmetic::div_mod::lemma_fundamental_div_mod(k, rows);
            let q = k / rows;
            let r = k % rows;
            assert(0 <= q < cols) by (nonlinear_arith)
                requires
                    0 <= k < cols * rows,
                    k == rows * q + r,
                    0 <= r < rows,
            ;
            let c = Vector2D { x: q as i32, y: r as i32 };
            assert(in_grid(c, cols, rows));
            assert(s.contains(c));
            let i = choose|i: int| 0 <= i < s.len() && s[i] == c;
            assert(t[i] == k) by (nonlinear_arith)
                requires
                    t[i] == q * rows + r,
                    k == rows * q + r,
            ;
        }
        vstd::set_lib::lemma_len_subset(range, t.to_set());
    }
}

} // verus!
