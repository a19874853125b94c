use vstd::prelude::*;

verus! {

/// Whether column `j` receives a character from a write of `len` characters
/// starting at column `c`, clipped horizontally to `[min_c, max_c)`.
pub open spec fn col_visible(j: int, c: int, len: int, min_c: int, max_c: int) -> bool {
    c <= j && j < c + len && min_c <= j && j < max_c
}

/// The cells of `g` after writing `t` at absolute row `r`, column `c`, clipped to
/// rows in `[min_r, max_r)` and columns in `[min_c, max_c)`. Cells outside the grid
/// are never touched.
pub open spec fn put(
    g: Seq<Seq<char>>,
    t: Seq<char>,
    r: int,
    c: int,
    min_r: int,
    max_r: int,
    min_c: int,
    max_c: int,
) -> Seq<Seq<char>> {
    if 0 <= r && r < g.len() && min_r <= r && r < max_r {
        g.update(
            r,
            Seq::new(
                g[r].len(),
                |j: int|
                    if col_visible(j, c, t.len() as int, min_c, max_c) {
                        t[j - c]
                    } else {
                        g[r][j]
                    },
            ),
        )
    } else {
        g
    }
}

pub open spec fn min3(a: int, b: int, c: int) -> int {
    if a <= b && a <= c { a } else if b <= c { b } else { c }
}

pub open spec fn max3(a: int, b: int, c: int) -> int {
    if a >= b && a >= c { a } else if b >= c { b } else { c }
}

/// A grid of `height` rows by `width` columns, all filled with spaces.
pub open spec fn blank(width: int, height: int) -> Seq<Seq<char>> {
    Seq::new(height as nat, |i: int| Seq::new(width as nat, |j: int| ' '))
}

/// A fixed-size character surface.
pub struct Window {
    height: usize,
    width: usize,
    grid: Vec<Vec<char>>,
}

impl Window {
    /// The cells, row by row.
    pub closed spec fn cells(&self) -> Seq<Seq<char>> {
        self.grid@.map_values(|row: Vec<char>| row@)
    }

    pub closed spec fn spec_width(&self) -> int {
        self.width as int
    }

    pub closed spec fn spec_height(&self) -> int {
        self.height as int
    }

    /// Every row holds exactly `width` cells and there are `height` rows.
    pub closed spec fn wf(&self) -> bool {
        &&& self.grid@.len() == self.height
        &&& forall|i: int| 0 <= i < self.grid@.len() ==> #[trigger] self.grid@[i]@.len() == self.width
    }

    pub open spec fn dims_of(&self, g: Seq<Seq<char>>) -> bool {
        &&& g.len() == self.spec_height()
        &&& forall|i: int| 0 <= i < g.len() ==> #[trigger] g[i].len() == self.spec_width()
    }

    /// The cells have the window's shape.
    pub proof fn lemma_dims(&self)
        requires
            self.wf(),
        ensures
            self.spec_width() >= 0,
            self.spec_height() >= 0,
            self.dims_of(self.cells()),
    {
    }

    fn blank_row(w: usize) -> (row: Vec<char>)
        ensures
            row@ == Seq::new(w as nat, |j: int| ' '),
    {
        let mut row: Vec<char> = Vec::new();
        let mut j: usize = 0;
        while j < w
            invariant
                j <= w,
                row@ == Seq::new(j as nat, |k: int| ' '),
            decreases w - j,
        {
            row.push(' ');
            j = j + 1;
            assert(row@ =~= Seq::new(j as nat, |k: int| ' '));
        }
        row
    }

    fn blank_grid(w: usize, h: usize) -> (g: Vec<Vec<char>>)
        ensures
            g@.map_values(|row: Vec<char>| row@) == blank(w as int, h as int),
            g@.len() == h,
            forall|i: int| 0 <= i < h ==> #[trigger] g@[i]@.len() == w,
    {
        let mut g: Vec<Vec<char>> = Vec::new();
        let mut i: usize = 0;
        while i < h
            invariant
                i <= h,
                g@.len() == i,
                forall|k: int| 0 <= k < i ==> #[trigger] g@[k]@ == Seq::new(w as nat, |j: int| ' '),
            decreases h - i,
        {
            let row = Self::blank_row(w);
            g.push(row);
            i = i + 1;
        }
        assert(g@.map_values(|row: Vec<char>| row@) =~= blank(w as int, h as int));
        g
    }

    /// A window of `w` columns and `h` rows, blank.
    pub fn new(w: usize, h: usize) -> (r: Window)
        ensures
            r.wf(),
            r.spec_width() == w,
            r.spec_height() == h,
            r.cells() == blank(w as int, h as int),
    {
        Window { height: h, width: w, grid: Self::blank_grid(w, h) }
    }

    pub fn width(&self) -> (r: usize)
        ensures
            r == self.spec_width(),
    {
        self.width
    }

    pub fn height(&self) -> (r: usize)
        ensures
            r == self.spec_height(),
    {
        self.height
    }

    /// The character at row `r`, column `c`.
    pub fn get(&self, r: usize, c: usize) -> (ch: char)
        requires
            self.wf(),
            r < self.spec_height(),
            c < self.spec_width(),
        ensures
            ch == self.cells()[r as int][c as int],
    {
        self.grid[r][c]
    }

    /// The row `r`, as characters.
    pub fn row(&self, r: usize) -> (out: Vec<char>)
        requires
            self.wf(),
            r < self.spec_height(),
        ensures
            out@ == self.cells()[r as int],
    {
        self.grid[r].clone()
    }

    /// Resets every cell to a space.
    pub fn clear(&mut self)
        requires
            old(self).wf(),
        ensures
            final(self).wf(),
            final(self).spec_width() == old(self).spec_width(),
            final(self).spec_height() == old(self).spec_height(),
            final(self).cells() == blank(old(self).spec_width(), old(self).spec_height()),
    {
        self.grid = Self::blank_grid(self.width, self.height);
    }

    /// Writes `text` at row `r + min_r`, starting at column `c + min_c`. The write is
    /// dropped when that row lies outside `[min_r, max_r)` or outside the window; characters
    /// that would fall outside `[min_c, max_c)` or outside the window are cut off.
    pub fn show_string(
        &mut self,
        text: &Vec<char>,
        r: i64,
        c: i64,
        min_r: i64,
        max_r: i64,
        min_c: i64,
        max_c: i64,
    )
        requires
            old(self).wf(),
            coord_ok(r as int),
            coord_ok(c as int),
            coord_ok(min_r as int),
            coord_ok(max_r as int),
            coord_ok(min_c as int),
            coord_ok(max_c as int),
        ensures
            final(self).wf(),
            final(self).spec_width() == old(self).spec_width(),
            final(self).spec_height() == old(self).spec_height(),
            final(self).cells() == put(
                old(self).cells(),
                text@,
                r + min_r,
                c + min_c,
                min_r as int,
                max_r as int,
                min_c as int,
                max_c as int,
            ),
    {
        let ghost g0 = self.cells();
        let ar: i64 = r + min_r;
        let ac: i64 = c + min_c;
        if ar >= max_r || ar < min_r || ar < 0 || ar as u64 >= self.height as u64 {
            return;
        }
        let row_i: usize = ar as usize;
        let n: usize = text.len();
        let mut lo: i64 = if ac > min_c { ac } else { min_c };
        if lo < 0 {
            lo = 0;
        }
        let mut hi: i64 = max_c;
        if hi > 0 && (self.width as u64) < (hi as u64) {
            hi = self.width as i64;
        }
        if hi > ac && ((hi - ac) as u64) > (n as u64) {
            hi = ac + n as i64;
        }
        assert(hi == min3(max_c as int, self.width as int, ac + n));
        let mut row: Vec<char> = self.grid[row_i].clone();
        assert(row@ == g0[ar as int]);
        let mut j: i64 = lo;
        while j < hi
            invariant
                0 <= lo,
                lo <= j,
                j <= hi || j == lo,
                lo == max3(ac as int, min_c as int, 0),
                hi == min3(max_c as int, self.width as int, ac + n),
                coord_ok(max_c as int),
                -0x2000_0000_0000_0000 <= ac <= 0x2000_0000_0000_0000,
                n == text@.len(),
                row@.len() == g0[ar as int].len(),
                g0[ar as int].len() == self.width,
                forall|k: int|
                    0 <= k < row@.len() ==> #[trigger] row@[k] == if lo <= k < j {
                        text@[k - ac]
                    } else {
                        g0[ar as int][k]
                    },
            decreases hi - j,
        {
            let ch = text[(j - ac) as usize];
            row.set(j as usize, ch);
            j = j + 1;
        }
        self.grid.set(row_i, row);
        let ghost p = put(g0, text@, ar as int, ac as int, min_r as int, max_r as int, min_c as int, max_c as int);
        assert forall|k: int| 0 <= k < self.width implies #[trigger] self.cells()[ar as int][k]
            == p[ar as int][k] by {
            if col_visible(k, ac as int, text@.len() as int, min_c as int, max_c as int) {
                assert(lo <= k < j);
            }
        }
        assert(self.cells()[ar as int] =~= p[ar as int]);
        assert(self.cells() =~= p);
    }
}

/// A coordinate small enough that sums of a few of them stay in range.
pub open spec fn coord_ok(x: int) -> bool {
    -0x1000_0000_0000_0000 <= x <= 0x1000_0000_0000_0000
}

/// A write whose absolute row is at or below `max_r`, or above `min_r`, leaves every
/// cell as it was.
pub proof fn lemma_write_outside_rows_is_noop(
    g: Seq<Seq<char>>,
    t: Seq<char>,
    r: int,
    c: int,
    min_r: int,
    max_r: int,
    min_c: int,
    max_c: int,
)
    requires
        r >= max_r || r < min_r,
    ensures
        put(g, t, r, c, min_r, max_r, min_c, max_c) == g,
{
}

/// A write changes no cell outside the clip rectangle `[min_r, max_r)` by
/// `[min_c, max_c)`, and no cell past the end of the text: overflowing text is cut
/// off, never wrapped. Only the target row can change, and the grid keeps its shape.
pub proof fn lemma_write_stays_in_clip(
    g: Seq<Seq<char>>,
    t: Seq<char>,
    r: int,
    c: int,
    min_r: int,
    max_r: int,
    min_c: int,
    max_c: int,
)
    ensures
        put(g, t, r, c, min_r, max_r, min_c, max_c).len() == g.len(),
        forall|i: int| 0 <= i < g.len() ==> #[trigger] put(g, t, r, c, min_r, max_r, min_c, max_c)[i].len() == g[i].len(),
        forall|i: int, j: int|
            0 <= i < g.len() && 0 <= j < g[i].len() && #[trigger] put(g, t, r, c, min_r, max_r, min_c, max_c)[i][j] != g[i][j]
                ==> i == r && min_r <= r < max_r && min_c <= j < max_c && c <= j < c + t.len(),
{
}

} // verus!
