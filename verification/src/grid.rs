//! The character grid: a `rows x cols` matrix of cells, a cursor clamped to
//! the grid bounds, and a scrollback of lines that have been scrolled off the
//! top. Every mutating operation sets the `dirty` flag; the session clears it
//! once a snapshot has been published.

use vstd::prelude::*;

verus! {

/// One character cell of the grid.
#[derive(Clone, Copy, PartialEq, Eq, Structural, Debug)]
pub struct TerminalCell {
    pub character: char,
}

impl Default for TerminalCell {
    /// The blank cell: a space.
    fn default() -> (c: TerminalCell)
        ensures
            c == blank_cell(),
    {
        TerminalCell { character: ' ' }
    }
}

/// The blank cell that clearing operations write.
pub open spec fn blank_cell() -> TerminalCell {
    TerminalCell { character: ' ' }
}

/// A row of `cols` blank cells.
pub open spec fn blank_row(cols: nat) -> Seq<TerminalCell> {
    Seq::new(cols, |i: int| blank_cell())
}

/// The characters of one row.
pub open spec fn row_chars(row: Seq<TerminalCell>) -> Seq<char> {
    row.map_values(|c: TerminalCell| c.character)
}

/// Scrollback lines rendered for a snapshot: each line's characters followed
/// by a line feed.
pub open spec fn render_lines(lines: Seq<Seq<TerminalCell>>) -> Seq<char>
    decreases lines.len(),
{
    if lines.len() == 0 {
        Seq::empty()
    } else {
        render_lines(lines.drop_last()) + row_chars(lines.last()) + seq!['\n']
    }
}

/// Grid rows rendered for a snapshot: rows joined by line feeds, with no
/// trailing one.
pub open spec fn render_rows(rows: Seq<Seq<TerminalCell>>) -> Seq<char>
    decreases rows.len(),
{
    if rows.len() == 0 {
        Seq::empty()
    } else if rows.len() == 1 {
        row_chars(rows[0])
    } else {
        render_rows(rows.drop_last()) + seq!['\n'] + row_chars(rows.last())
    }
}

/// The model of a freshly constructed grid: all cells blank, cursor at the
/// origin, empty scrollback, marked dirty.
pub open spec fn fresh_grid(rows: nat, cols: nat) -> GridView {
    GridView {
        rows,
        cols,
        cells: Seq::new(rows, |i: int| blank_row(cols)),
        cursor_x: 0,
        cursor_y: 0,
        scrollback: Seq::empty(),
        scroll_offset: 0,
        dirty: true,
    }
}

/// The mathematical model of a `TerminalGrid`.
#[verifier::ext_equal]
pub ghost struct GridView {
    pub rows: nat,
    pub cols: nat,
    pub cells: Seq<Seq<TerminalCell>>,
    pub cursor_x: nat,
    pub cursor_y: nat,
    pub scrollback: Seq<Seq<TerminalCell>>,
    pub scroll_offset: nat,
    pub dirty: bool,
}

impl GridView {
    /// Well-formedness: the matrix is exactly `rows x cols`, the cursor is in
    /// bounds, every scrollback line has `cols` cells, and no more lines are
    /// hidden than the scrollback holds.
    pub open spec fn wf(self) -> bool {
        &&& self.rows >= 1
        &&& self.cols >= 1
        &&& self.rows <= usize::MAX
        &&& self.cols <= usize::MAX
        &&& self.cells.len() == self.rows
        &&& forall|i: int| 0 <= i < self.cells.len() ==> (#[trigger] self.cells[i]).len() == self.cols
        &&& self.cursor_x < self.cols
        &&& self.cursor_y < self.rows
        &&& self.scroll_offset <= self.scrollback.len()
        &&& forall|i: int|
            0 <= i < self.scrollback.len() ==> (#[trigger] self.scrollback[i]).len() == self.cols
    }

    /// All cells blank, cursor at the origin.
    pub open spec fn clear_screen(self) -> GridView {
        GridView {
            cells: Seq::new(self.rows, |i: int| blank_row(self.cols)),
            cursor_x: 0,
            cursor_y: 0,
            dirty: true,
            ..self
        }
    }

    /// Columns `[from, cols)` of the cursor's row blanked.
    pub open spec fn clear_line(self, from: nat) -> GridView {
        GridView {
            cells: self.cells.update(
                self.cursor_y as int,
                Seq::new(
                    self.cells[self.cursor_y as int].len(),
                    |j: int|
                        if from <= j {
                            blank_cell()
                        } else {
                            self.cells[self.cursor_y as int][j]
                        },
                ),
            ),
            dirty: true,
            ..self
        }
    }

    /// The cursor column reset to the left margin.
    pub open spec fn carriage_return(self) -> GridView {
        GridView { cursor_x: 0, dirty: true, ..self }
    }

    /// Row 0 appended to the scrollback (raising `scroll_offset` with it),
    /// every row shifted up by one, and the bottom row blanked.
    pub open spec fn scroll_up(self) -> GridView {
        GridView {
            scrollback: self.scrollback.push(self.cells[0]),
            scroll_offset: self.scroll_offset + 1,
            cells: self.cells.subrange(1, self.rows as int).push(blank_row(self.cols)),
            dirty: true,
            ..self
        }
    }

    /// The most recent scrollback line popped back into row 0, every row
    /// shifted down by one (the bottom row is lost), `scroll_offset`
    /// decremented. A no-op when `scroll_offset` is 0.
    pub open spec fn scroll_down(self) -> GridView {
        if self.scroll_offset > 0 && self.scrollback.len() > 0 {
            GridView {
                scrollback: self.scrollback.drop_last(),
                scroll_offset: (self.scroll_offset - 1) as nat,
                cells: seq![self.scrollback.last()] + self.cells.subrange(
                    0,
                    self.rows as int - 1,
                ),
                dirty: true,
                ..self
            }
        } else {
            self
        }
    }

    /// The cursor moved one row down, scrolling when already on the bottom
    /// row. The column is left alone.
    pub open spec fn newline(self) -> GridView {
        if self.cursor_y + 1 == self.rows {
            self.scroll_up()
        } else {
            GridView { cursor_y: self.cursor_y + 1, dirty: true, ..self }
        }
    }

    /// Destructive backspace: when the cursor is not at the left margin, step
    /// it left and blank the cell there.
    pub open spec fn backspace(self) -> GridView {
        if self.cursor_x > 0 {
            GridView {
                cursor_x: (self.cursor_x - 1) as nat,
                cells: self.cells.update(
                    self.cursor_y as int,
                    self.cells[self.cursor_y as int].update(self.cursor_x - 1, blank_cell()),
                ),
                dirty: true,
                ..self
            }
        } else {
            self
        }
    }

    /// Absolute cursor positioning, clamped to the grid bounds.
    pub open spec fn move_cursor(self, x: nat, y: nat) -> GridView {
        GridView {
            cursor_x: if x < self.cols {
                x
            } else {
                (self.cols - 1) as nat
            },
            cursor_y: if y < self.rows {
                y
            } else {
                (self.rows - 1) as nat
            },
            dirty: true,
            ..self
        }
    }

    /// Relative cursor movement: negative results floor at 0, and the result
    /// is clamped to the grid bounds.
    pub open spec fn move_cursor_relative(self, dx: int, dy: int) -> GridView {
        self.move_cursor(
            if self.cursor_x + dx >= 0 {
                (self.cursor_x + dx) as nat
            } else {
                0
            },
            if self.cursor_y + dy >= 0 {
                (self.cursor_y + dy) as nat
            } else {
                0
            },
        )
    }

    /// `c` written at the cursor, the cursor advanced; when the advance
    /// crosses the right margin, an implicit carriage return and newline.
    pub open spec fn print_char(self, c: char) -> GridView {
        let written = GridView {
            cells: self.cells.update(
                self.cursor_y as int,
                self.cells[self.cursor_y as int].update(self.cursor_x as int, TerminalCell { character: c }),
            ),
            cursor_x: self.cursor_x + 1,
            dirty: true,
            ..self
        };
        if self.cursor_x + 1 >= self.cols {
            written.carriage_return().newline()
        } else {
            written
        }
    }

    /// A whole string printed, one character at a time.
    pub open spec fn print_str(self, s: Seq<char>) -> GridView
        decreases s.len(),
    {
        if s.len() == 0 {
            self
        } else {
            self.print_char(s[0]).print_str(s.drop_first())
        }
    }

    /// A whole text printed with line breaks honoured: a line feed wraps to
    /// the start of the next row, a carriage return resets the column, and
    /// every other character prints.
    pub open spec fn print_text(self, s: Seq<char>) -> GridView
        decreases s.len(),
    {
        if s.len() == 0 {
            self
        } else {
            let g = if s[0] == '\n' {
                self.carriage_return().newline()
            } else if s[0] == '\r' {
                self.carriage_return()
            } else {
                self.print_char(s[0])
            };
            g.print_text(s.drop_first())
        }
    }

    /// Columns `[0, to]` of the cursor's row blanked.
    pub open spec fn clear_line_to(self, to: nat) -> GridView {
        GridView {
            cells: self.cells.update(
                self.cursor_y as int,
                Seq::new(
                    self.cells[self.cursor_y as int].len(),
                    |j: int|
                        if j <= to {
                            blank_cell()
                        } else {
                            self.cells[self.cursor_y as int][j]
                        },
                ),
            ),
            dirty: true,
            ..self
        }
    }

    /// Every row strictly above the cursor's blanked.
    pub open spec fn clear_rows_above(self) -> GridView {
        GridView {
            cells: Seq::new(
                self.cells.len(),
                |i: int|
                    if i < self.cursor_y {
                        blank_row(self.cols)
                    } else {
                        self.cells[i]
                    },
            ),
            dirty: true,
            ..self
        }
    }

    /// Every row strictly below the cursor's blanked.
    pub open spec fn clear_rows_below(self) -> GridView {
        GridView {
            cells: Seq::new(
                self.cells.len(),
                |i: int|
                    if i > self.cursor_y {
                        blank_row(self.cols)
                    } else {
                        self.cells[i]
                    },
            ),
            dirty: true,
            ..self
        }
    }

    /// `count` characters deleted at the cursor: the rest of the row slides
    /// left and the vacated tail is blanked.
    pub open spec fn delete_chars(self, count: nat) -> GridView {
        let x = self.cursor_x;
        let row = self.cells[self.cursor_y as int];
        let n = if count <= self.cols - x {
            count
        } else {
            (self.cols - x) as nat
        };
        GridView {
            cells: self.cells.update(
                self.cursor_y as int,
                row.subrange(0, x as int) + row.subrange(x + n as int, self.cols as int) + Seq::new(
                    n,
                    |j: int| blank_cell(),
                ),
            ),
            dirty: true,
            ..self
        }
    }

    /// The canonical snapshot: visible scrollback lines (from `scroll_offset`
    /// onward), then the grid rows, newline-joined.
    pub open spec fn rendered(self) -> Seq<char> {
        render_lines(self.scrollback.skip(self.scroll_offset as int)) + render_rows(self.cells)
    }

    /// `scroll_up`, iterated.
    pub open spec fn scroll_up_n(self, n: nat) -> GridView
        decreases n,
    {
        if n == 0 {
            self
        } else {
            self.scroll_up().scroll_up_n((n - 1) as nat)
        }
    }

    /// `scroll_down`, iterated.
    pub open spec fn scroll_down_n(self, n: nat) -> GridView
        decreases n,
    {
        if n == 0 {
            self
        } else {
            self.scroll_down().scroll_down_n((n - 1) as nat)
        }
    }
}

/// Printing a text one character longer applies the extra character last.
pub proof fn lemma_print_text_snoc(g: GridView, s: Seq<char>, c: char)
    ensures
        g.print_text(s.push(c)) == ({
            let h = g.print_text(s);
            if c == '\n' {
                h.carriage_return().newline()
            } else if c == '\r' {
                h.carriage_return()
            } else {
                h.print_char(c)
            }
        }),
    decreases s.len(),
{
    if s.len() == 0 {
        assert(s.push(c)[0] == c);
        assert(s.push(c).drop_first() =~= Seq::<char>::empty());
        let g1 = if c == '\n' {
            g.carriage_return().newline()
        } else if c == '\r' {
            g.carriage_return()
        } else {
            g.print_char(c)
        };
        assert(g.print_text(s.push(c)) == g1.print_text(Seq::<char>::empty()));
        assert(g.print_text(s) == g);
    } else {
        assert(s.push(c)[0] == s[0]);
        assert(s.push(c).drop_first() =~= s.drop_first().push(c));
        let g1 = if s[0] == '\n' {
            g.carriage_return().newline()
        } else if s[0] == '\r' {
            g.carriage_return()
        } else {
            g.print_char(s[0])
        };
        assert(g.print_text(s.push(c)) == g1.print_text(s.drop_first().push(c)));
        lemma_print_text_snoc(g1, s.drop_first(), c);
        assert(g.print_text(s) == g1.print_text(s.drop_first()));
    }
}

/// Printing a text leaves the grid's dimensions alone.
pub proof fn lemma_print_text_same_dims(g: GridView, s: Seq<char>)
    ensures
        g.print_text(s).rows == g.rows,
        g.print_text(s).cols == g.cols,
    decreases s.len(),
{
    if s.len() > 0 {
        let g1 = if s[0] == '\n' {
            g.carriage_return().newline()
        } else if s[0] == '\r' {
            g.carriage_return()
        } else {
            g.print_char(s[0])
        };
        lemma_print_text_same_dims(g1, s.drop_first());
    }
}

/// Printing leaves the grid's dimensions alone.
pub proof fn lemma_print_str_same_dims(g: GridView, s: Seq<char>)
    ensures
        g.print_str(s).rows == g.rows,
        g.print_str(s).cols == g.cols,
    decreases s.len(),
{
    if s.len() > 0 {
        lemma_print_str_same_dims(g.print_char(s[0]), s.drop_first());
    }
}

/// Iterated scrolling up leaves the grid's dimensions alone.
pub proof fn lemma_scroll_up_n_same_dims(g: GridView, n: nat)
    ensures
        g.scroll_up_n(n).rows == g.rows,
        g.scroll_up_n(n).cols == g.cols,
    decreases n,
{
    if n > 0 {
        lemma_scroll_up_n_same_dims(g.scroll_up(), (n - 1) as nat);
    }
}

/// Iterated scrolling down leaves the grid's dimensions alone.
pub proof fn lemma_scroll_down_n_same_dims(g: GridView, n: nat)
    ensures
        g.scroll_down_n(n).rows == g.rows,
        g.scroll_down_n(n).cols == g.cols,
    decreases n,
{
    if n > 0 {
        lemma_scroll_down_n_same_dims(g.scroll_down(), (n - 1) as nat);
    }
}

/// One more iterated scroll up is one scroll up after the others.
pub proof fn lemma_scroll_up_n_snoc(g: GridView, n: nat)
    ensures
        g.scroll_up_n(n).scroll_up() == g.scroll_up_n(n + 1),
    decreases n,
{
    assert(g.scroll_up_n(n + 1) == g.scroll_up().scroll_up_n(n));
    if n == 0 {
        assert(g.scroll_up_n(0) == g);
        assert(g.scroll_up().scroll_up_n(0) == g.scroll_up());
    } else {
        lemma_scroll_up_n_snoc(g.scroll_up(), (n - 1) as nat);
        assert(g.scroll_up_n(n) == g.scroll_up().scroll_up_n((n - 1) as nat));
    }
}

/// One more iterated scroll down is one scroll down after the others.
pub proof fn lemma_scroll_down_n_snoc(g: GridView, n: nat)
    ensures
        g.scroll_down_n(n).scroll_down() == g.scroll_down_n(n + 1),
    decreases n,
{
    assert(g.scroll_down_n(n + 1) == g.scroll_down().scroll_down_n(n));
    if n == 0 {
        assert(g.scroll_down_n(0) == g);
        assert(g.scroll_down().scroll_down_n(0) == g.scroll_down());
    } else {
        lemma_scroll_down_n_snoc(g.scroll_down(), (n - 1) as nat);
        assert(g.scroll_down_n(n) == g.scroll_down().scroll_down_n((n - 1) as nat));
    }
}

/// A row of `cols` blank cells, materialized.
fn blank_line(cols: usize) -> (r: Vec<TerminalCell>)
    ensures
        r@ == blank_row(cols as nat),
{
    let mut row: Vec<TerminalCell> = Vec::new();
    for j in 0..cols
        invariant
            row@.len() == j,
            forall|k: int| 0 <= k < j ==> #[trigger] row@[k] == blank_cell(),
    {
        row.push(TerminalCell { character: ' ' });
    }
    assert(row@ =~= blank_row(cols as nat));
    row
}

/// A copy of `row` with columns `[from, len)` blanked.
fn row_blanked_from(row: &Vec<TerminalCell>, from: usize) -> (r: Vec<TerminalCell>)
    ensures
        r@ == Seq::new(
            row@.len(),
            |j: int|
                if from <= j {
                    blank_cell()
                } else {
                    row@[j]
                },
        ),
{
    let n = row.len();
    let mut out: Vec<TerminalCell> = Vec::new();
    for j in 0..n
        invariant
            n == row@.len(),
            out@.len() == j,
            forall|k: int|
                0 <= k < j ==> #[trigger] out@[k] == (if from <= k {
                    blank_cell()
                } else {
                    row@[k]
                }),
    {
        if j < from {
            out.push(row[j]);
        } else {
            out.push(TerminalCell { character: ' ' });
        }
    }
    assert(out@ =~= Seq::new(
        row@.len(),
        |j: int|
            if from <= j {
                blank_cell()
            } else {
                row@[j]
            },
    ));
    out
}

/// A copy of `row` with columns `[0, to]` blanked.
fn row_blanked_to(row: &Vec<TerminalCell>, to: usize) -> (r: Vec<TerminalCell>)
    ensures
        r@ == Seq::new(
            row@.len(),
            |j: int|
                if j <= to {
                    blank_cell()
                } else {
                    row@[j]
                },
        ),
{
    let n = row.len();
    let mut out: Vec<TerminalCell> = Vec::new();
    for j in 0..n
        invariant
            n == row@.len(),
            out@.len() == j,
            forall|k: int|
                0 <= k < j ==> #[trigger] out@[k] == (if k <= to {
                    blank_cell()
                } else {
                    row@[k]
                }),
    {
        if j <= to {
            out.push(TerminalCell { character: ' ' });
        } else {
            out.push(row[j]);
        }
    }
    assert(out@ =~= Seq::new(
        row@.len(),
        |j: int|
            if j <= to {
                blank_cell()
            } else {
                row@[j]
            },
    ));
    out
}

/// A copy of `row` with `n` cells deleted at `x`: the tail slides left and
/// the vacated end is blanked.
fn row_deleted(row: &Vec<TerminalCell>, x: usize, n: usize) -> (r: Vec<TerminalCell>)
    requires
        x + n <= row@.len(),
    ensures
        r@ == row@.subrange(0, x as int) + row@.subrange(x + n, row@.len() as int) + Seq::new(
            n as nat,
            |j: int| blank_cell(),
        ),
{
    let len = row.len();
    let mut out: Vec<TerminalCell> = Vec::new();
    for j in 0..len
        invariant
            len == row@.len(),
            x + n <= len,
            out@.len() == j,
            forall|k: int|
                0 <= k < j ==> #[trigger] out@[k] == (if k < x {
                    row@[k]
                } else if k + n < len {
                    row@[k + n]
                } else {
                    blank_cell()
                }),
    {
        if j < x {
            out.push(row[j]);
        } else if n < len - j {
            out.push(row[j + n]);
        } else {
            out.push(TerminalCell { character: ' ' });
        }
    }
    assert(out@ =~= row@.subrange(0, x as int) + row@.subrange(x + n, row@.len() as int)
        + Seq::new(n as nat, |j: int| blank_cell()));
    out
}

/// Relies on `String::push`: appends exactly the given character.
#[verifier::external_body]
fn push_char(s: &mut String, c: char)
    ensures
        final(s)@ == old(s)@ + seq![c],
{
    s.push(c);
}

/// The visible terminal screen with its cursor and scrollback. Mutated only
/// by the interpreter; the render side sees it only through published
/// snapshots.
pub struct TerminalGrid {
    rows: usize,
    cols: usize,
    cells: Vec<Vec<TerminalCell>>,
    cursor_x: usize,
    cursor_y: usize,
    scrollback: Vec<Vec<TerminalCell>>,
    scroll_offset: usize,
    dirty: bool,
}

impl View for TerminalGrid {
    type V = GridView;

    closed spec fn view(&self) -> GridView {
        GridView {
            rows: self.rows as nat,
            cols: self.cols as nat,
            cells: self.cells@.map_values(|r: Vec<TerminalCell>| r@),
            cursor_x: self.cursor_x as nat,
            cursor_y: self.cursor_y as nat,
            scrollback: self.scrollback@.map_values(|r: Vec<TerminalCell>| r@),
            scroll_offset: self.scroll_offset as nat,
            dirty: self.dirty,
        }
    }
}

impl TerminalGrid {
    /// A fresh grid: all cells blank, cursor at the origin, empty scrollback,
    /// marked dirty so the first snapshot is published.
    pub fn new(rows: usize, cols: usize) -> (g: TerminalGrid)
        requires
            rows >= 1,
            cols >= 1,
        ensures
            g@.wf(),
            g@ == fresh_grid(rows as nat, cols as nat),
    {
        let mut cells: Vec<Vec<TerminalCell>> = Vec::new();
        for _r in 0..rows
            invariant
                cells@.len() == _r,
                forall|i: int| 0 <= i < _r ==> #[trigger] cells@[i]@ == blank_row(cols as nat),
        {
            cells.push(blank_line(cols));
        }
        let g = TerminalGrid {
            rows,
            cols,
            cells,
            cursor_x: 0,
            cursor_y: 0,
            scrollback: Vec::new(),
            scroll_offset: 0,
            dirty: true,
        };
        assert(g@.cells =~= Seq::new(rows as nat, |i: int| blank_row(cols as nat)));
        assert(g@.scrollback =~= Seq::<Seq<TerminalCell>>::empty());
        assert(g@ =~= fresh_grid(rows as nat, cols as nat));
        g
    }

    /// The number of rows of the visible grid.
    pub fn rows(&self) -> (r: usize)
        ensures
            r == self@.rows,
    {
        self.rows
    }

    /// The number of columns of the visible grid.
    pub fn cols(&self) -> (r: usize)
        ensures
            r == self@.cols,
    {
        self.cols
    }

    /// The cursor's column.
    pub fn cursor_x(&self) -> (r: usize)
        ensures
            r == self@.cursor_x,
    {
        self.cursor_x
    }

    /// The cursor's row.
    pub fn cursor_y(&self) -> (r: usize)
        ensures
            r == self@.cursor_y,
    {
        self.cursor_y
    }

    /// How many lines the scrollback holds.
    pub fn scrollback_len(&self) -> (r: usize)
        ensures
            r == self@.scrollback.len(),
    {
        self.scrollback.len()
    }

    /// How many scrollback lines are hidden above the live region.
    pub fn scroll_offset(&self) -> (r: usize)
        ensures
            r == self@.scroll_offset,
    {
        self.scroll_offset
    }

    /// Whether a mutation has happened since the flag was last cleared.
    pub fn is_dirty(&self) -> (r: bool)
        ensures
            r == self@.dirty,
    {
        self.dirty
    }

    /// Marks the current state as published.
    pub fn clear_dirty(&mut self)
        ensures
            final(self)@ == (GridView { dirty: false, ..old(self)@ }),
    {
        self.dirty = false;
    }

    /// Blanks every cell and homes the cursor.
    pub fn clear_screen(&mut self)
        requires
            old(self)@.wf(),
        ensures
            final(self)@ == old(self)@.clear_screen(),
            final(self)@.wf(),
    {
        let rows = self.rows;
        let cols = self.cols;
        for r in 0..rows
            invariant
                self.rows == rows,
                self.cols == cols,
                self.cursor_x == old(self).cursor_x,
                self.cursor_y == old(self).cursor_y,
                self.scrollback@ == old(self).scrollback@,
                self.scroll_offset == old(self).scroll_offset,
                self.cells@.len() == rows,
                forall|i: int| 0 <= i < r ==> #[trigger] self.cells@[i]@ == blank_row(cols as nat),
                forall|i: int| r <= i < rows ==> #[trigger] self.cells@[i] == old(self).cells@[i],
        {
            let row = blank_line(cols);
            self.cells.set(r, row);
        }
        self.cursor_x = 0;
        self.cursor_y = 0;
        self.dirty = true;
        assert(self@.cells =~= old(self)@.clear_screen().cells);
        assert(self@ =~= old(self)@.clear_screen());
    }

    /// Resets the cursor column to the left margin.
    pub fn carriage_return(&mut self)
        ensures
            final(self)@ == old(self)@.carriage_return(),
    {
        self.cursor_x = 0;
        self.dirty = true;
    }

    /// Writes one cell at `(x, y)` and marks the grid dirty.
    fn set_cell(&mut self, x: usize, y: usize, c: TerminalCell)
        requires
            old(self)@.wf(),
            x < old(self)@.cols,
            y < old(self)@.rows,
        ensures
            final(self)@ == (GridView {
                cells: old(self)@.cells.update(y as int, old(self)@.cells[y as int].update(x as int, c)),
                dirty: true,
                ..old(self)@
            }),
            final(self)@.wf(),
    {
        let row = &mut self.cells[y];
        row.set(x, c);
        self.dirty = true;
        assert(self@.cells =~= old(self)@.cells.update(
            y as int,
            old(self)@.cells[y as int].update(x as int, c),
        ));
    }

    /// Blanks columns `[from, cols)` of the cursor's row.
    pub fn clear_line(&mut self, from: usize)
        requires
            old(self)@.wf(),
        ensures
            final(self)@ == old(self)@.clear_line(from as nat),
            final(self)@.wf(),
    {
        let y = self.cursor_y;
        let new_row = row_blanked_from(&self.cells[y], from);
        self.cells.set(y, new_row);
        self.dirty = true;
        assert(self@.cells =~= old(self)@.clear_line(from as nat).cells);
    }

    /// Blanks columns `[0, to]` of the cursor's row.
    pub fn clear_line_to(&mut self, to: usize)
        requires
            old(self)@.wf(),
        ensures
            final(self)@ == old(self)@.clear_line_to(to as nat),
            final(self)@.wf(),
    {
        let y = self.cursor_y;
        let new_row = row_blanked_to(&self.cells[y], to);
        self.cells.set(y, new_row);
        self.dirty = true;
        assert(self@.cells =~= old(self)@.clear_line_to(to as nat).cells);
    }

    /// Blanks every row strictly above the cursor's.
    pub fn clear_rows_above(&mut self)
        requires
            old(self)@.wf(),
        ensures
            final(self)@ == old(self)@.clear_rows_above(),
            final(self)@.wf(),
    {
        let y = self.cursor_y;
        let cols = self.cols;
        for r in 0..y
            invariant
                y < self.cells@.len(),
                self.rows == old(self).rows,
                self.cols == old(self).cols,
                cols == self.cols,
                y == old(self).cursor_y,
                self.cursor_x == old(self).cursor_x,
                self.cursor_y == old(self).cursor_y,
                self.scrollback@ == old(self).scrollback@,
                self.scroll_offset == old(self).scroll_offset,
                self.dirty == old(self).dirty,
                self.cells@.len() == old(self).cells@.len(),
                forall|i: int| 0 <= i < r ==> #[trigger] self.cells@[i]@ == blank_row(cols as nat),
                forall|i: int| r <= i < self.cells@.len() ==> #[trigger] self.cells@[i] == old(self).cells@[i],
        {
            self.cells.set(r, blank_line(cols));
        }
        self.dirty = true;
        assert(self@.cells =~= old(self)@.clear_rows_above().cells);
    }

    /// Blanks every row strictly below the cursor's.
    pub fn clear_rows_below(&mut self)
        requires
            old(self)@.wf(),
        ensures
            final(self)@ == old(self)@.clear_rows_below(),
            final(self)@.wf(),
    {
        let y = self.cursor_y;
        let rows = self.rows;
        let cols = self.cols;
        let mut r = y + 1;
        while r < rows
            invariant
                y + 1 <= r <= rows || (y + 1 > rows && r == y + 1),
                y == old(self).cursor_y,
                y < rows,
                self.rows == old(self).rows,
                self.cols == old(self).cols,
                rows == self.rows,
                cols == self.cols,
                self.cursor_x == old(self).cursor_x,
                self.cursor_y == old(self).cursor_y,
                self.scrollback@ == old(self).scrollback@,
                self.scroll_offset == old(self).scroll_offset,
                self.dirty == old(self).dirty,
                self.cells@.len() == rows,
                forall|i: int| y < i < r ==> #[trigger] self.cells@[i]@ == blank_row(cols as nat),
                forall|i: int|
                    (0 <= i <= y || r <= i < rows) ==> #[trigger] self.cells@[i] == old(self).cells@[i],
            decreases rows - r,
        {
            self.cells.set(r, blank_line(cols));
            r = r + 1;
        }
        self.dirty = true;
        assert(self@.cells =~= old(self)@.clear_rows_below().cells);
    }

    /// Deletes `count` characters at the cursor, sliding the remainder of the
    /// row left and blanking the vacated tail.
    pub fn delete_chars(&mut self, count: usize)
        requires
            old(self)@.wf(),
        ensures
            final(self)@ == old(self)@.delete_chars(count as nat),
            final(self)@.wf(),
    {
        let y = self.cursor_y;
        let x = self.cursor_x;
        let n = if count <= self.cols - x {
            count
        } else {
            self.cols - x
        };
        assert(self.cells@[y as int]@ == self@.cells[y as int]);
        let new_row = row_deleted(&self.cells[y], x, n);
        self.cells.set(y, new_row);
        self.dirty = true;
        assert(self@.cells =~= old(self)@.delete_chars(count as nat).cells);
    }

    /// Moves the cursor one row down, scrolling at the bottom.
    pub fn newline(&mut self)
        requires
            old(self)@.wf(),
        ensures
            final(self)@ == old(self)@.newline(),
            final(self)@.wf(),
    {
        if self.cursor_y == self.rows - 1 {
            self.scroll_up();
        } else {
            self.cursor_y = self.cursor_y + 1;
            self.dirty = true;
        }
    }

    /// Destructive backspace.
    pub fn backspace(&mut self)
        requires
            old(self)@.wf(),
        ensures
            final(self)@ == old(self)@.backspace(),
            final(self)@.wf(),
    {
        if self.cursor_x > 0 {
            self.cursor_x = self.cursor_x - 1;
            let x = self.cursor_x;
            let y = self.cursor_y;
            self.set_cell(x, y, TerminalCell { character: ' ' });
        }
    }

    /// Promotes row 0 to the scrollback and shifts the grid up.
    pub fn scroll_up(&mut self)
        requires
            old(self)@.wf(),
        ensures
            final(self)@ == old(self)@.scroll_up(),
            final(self)@.wf(),
    {
        let top = self.cells.remove(0);
        self.scrollback.push(top);
        let n = self.scrollback.len();
        assert(self.scroll_offset < n);
        self.scroll_offset = self.scroll_offset + 1;
        let cols = self.cols;
        self.cells.push(blank_line(cols));
        self.dirty = true;
        assert(self@.scrollback =~= old(self)@.scroll_up().scrollback);
        assert(self@.cells =~= old(self)@.scroll_up().cells);
    }

    /// Pops the most recent scrollback line back into row 0, shifting the
    /// grid down. A no-op when nothing is scrolled.
    pub fn scroll_down(&mut self)
        requires
            old(self)@.wf(),
        ensures
            final(self)@ == old(self)@.scroll_down(),
            final(self)@.wf(),
    {
        if self.scroll_offset > 0 {
            let line = match self.scrollback.pop() {
                Some(l) => l,
                None => {
                    return ;
                },
            };
            self.cells.insert(0, line);
            let _bottom = self.cells.pop();
            self.scroll_offset = self.scroll_offset - 1;
            self.dirty = true;
            assert(self@.scrollback =~= old(self)@.scroll_down().scrollback);
            assert(self@.cells =~= old(self)@.scroll_down().cells);
        }
    }

    /// Absolute cursor positioning, clamped to the grid bounds.
    pub fn move_cursor(&mut self, x: usize, y: usize)
        requires
            old(self)@.wf(),
        ensures
            final(self)@ == old(self)@.move_cursor(x as nat, y as nat),
            final(self)@.wf(),
    {
        self.cursor_x = if x < self.cols {
            x
        } else {
            self.cols - 1
        };
        self.cursor_y = if y < self.rows {
            y
        } else {
            self.rows - 1
        };
        self.dirty = true;
    }

    /// Relative cursor movement; negative results floor at 0 and the result
    /// is clamped to the grid bounds.
    pub fn move_cursor_relative(&mut self, dx: i32, dy: i32)
        requires
            old(self)@.wf(),
        ensures
            final(self)@ == old(self)@.move_cursor_relative(dx as int, dy as int),
            final(self)@.wf(),
    {
        let tx = if dx >= 0 {
            let d = dx as usize;
            if d <= usize::MAX - self.cursor_x {
                self.cursor_x + d
            } else {
                usize::MAX
            }
        } else {
            let m = (-(dx as i64)) as usize;
            if self.cursor_x > m {
                self.cursor_x - m
            } else {
                0
            }
        };
        let ty = if dy >= 0 {
            let d = dy as usize;
            if d <= usize::MAX - self.cursor_y {
                self.cursor_y + d
            } else {
                usize::MAX
            }
        } else {
            let m = (-(dy as i64)) as usize;
            if self.cursor_y > m {
                self.cursor_y - m
            } else {
                0
            }
        };
        self.move_cursor(tx, ty);
    }

    /// Writes `ch` at the cursor and advances it, wrapping at the right
    /// margin with an implicit carriage return and newline.
    pub fn print_char(&mut self, ch: char)
        requires
            old(self)@.wf(),
        ensures
            final(self)@ == old(self)@.print_char(ch),
            final(self)@.wf(),
    {
        let x = self.cursor_x;
        let y = self.cursor_y;
        self.set_cell(x, y, TerminalCell { character: ch });
        self.cursor_x = x + 1;
        if self.cursor_x >= self.cols {
            self.carriage_return();
            self.newline();
        }
    }

    /// Prints a whole string, one character at a time.
    pub fn print_str(&mut self, s: &str)
        requires
            old(self)@.wf(),
        ensures
            final(self)@ == old(self)@.print_str(s@),
            final(self)@.wf(),
    {
        let n = s.unicode_len();
        for i in 0..n
            invariant
                n == s@.len(),
                self@.wf(),
                self@ == old(self)@.print_str(s@.take(i as int)),
        {
            let c = s.get_char(i);
            self.print_char(c);
            proof {
                assert(s@.take(i + 1) =~= s@.take(i as int).push(s@[i as int]));
                lemma_print_str_snoc(old(self)@, s@.take(i as int), s@[i as int]);
            }
        }
        assert(s@.take(n as int) =~= s@);
    }

    /// Prints a text with line breaks honoured.
    pub fn print_text(&mut self, s: &str)
        requires
            old(self)@.wf(),
        ensures
            final(self)@ == old(self)@.print_text(s@),
            final(self)@.wf(),
    {
        let n = s.unicode_len();
        for i in 0..n
            invariant
                n == s@.len(),
                self@.wf(),
                self@ == old(self)@.print_text(s@.take(i as int)),
        {
            let c = s.get_char(i);
            if c == '\n' {
                self.carriage_return();
                self.newline();
            } else if c == '\r' {
                self.carriage_return();
            } else {
                self.print_char(c);
            }
            proof {
                assert(s@.take(i + 1) =~= s@.take(i as int).push(s@[i as int]));
                lemma_print_text_snoc(old(self)@, s@.take(i as int), s@[i as int]);
            }
        }
        assert(s@.take(n as int) =~= s@);
    }

    /// The canonical snapshot handed to the shaping and rendering path:
    /// visible scrollback lines, then the grid rows, newline-joined.
    pub fn to_string(&self) -> (out: String)
        requires
            self@.wf(),
        ensures
            out@ == self@.rendered(),
    {
        let mut out = String::new();
        let sb_len = self.scrollback.len();
        let off = self.scroll_offset;
        for i in off..sb_len
            invariant
                self@.wf(),
                off == self@.scroll_offset,
                sb_len == self@.scrollback.len(),
                out@ == render_lines(self@.scrollback.subrange(off as int, i as int)),
        {
            let line = &self.scrollback[i];
            let m = line.len();
            for c in 0..m
                invariant
                    self@.wf(),
                    off == self@.scroll_offset,
                    sb_len == self@.scrollback.len(),
                    off <= i < sb_len,
                    m == self@.scrollback[i as int].len(),
                    line@ == self.scrollback@[i as int]@,
                    out@ == render_lines(self@.scrollback.subrange(off as int, i as int))
                        + row_chars(self@.scrollback[i as int]).take(c as int),
            {
                push_char(&mut out, line[c].character);
                assert(row_chars(self@.scrollback[i as int]).take(c + 1) =~= row_chars(
                    self@.scrollback[i as int],
                ).take(c as int).push(self@.scrollback[i as int][c as int].character));
            }
            push_char(&mut out, '\n');
            proof {
                let sb = self@.scrollback;
                assert(row_chars(sb[i as int]).take(m as int) =~= row_chars(sb[i as int]));
                assert(sb.subrange(off as int, i + 1).drop_last() =~= sb.subrange(
                    off as int,
                    i as int,
                ));
                assert(sb.subrange(off as int, i + 1).last() == sb[i as int]);
                assert(out@ =~= render_lines(sb.subrange(off as int, i + 1)));
            }
        }
        proof {
            assert(self@.scrollback.subrange(off as int, sb_len as int) =~= self@.scrollback.skip(
                off as int,
            ));
        }
        let rows = self.rows;
        for r in 0..rows
            invariant
                self@.wf(),
                rows == self@.rows,
                out@ == render_lines(self@.scrollback.skip(self@.scroll_offset as int))
                    + render_rows(self@.cells.take(r as int)),
        {
            if r > 0 {
                push_char(&mut out, '\n');
            }
            let ghost prefix = out@;
            let line = &self.cells[r];
            let m = line.len();
            for c in 0..m
                invariant
                    self@.wf(),
                    rows == self@.rows,
                    r < rows,
                    m == self@.cells[r as int].len(),
                    line@ == self.cells@[r as int]@,
                    out@ == prefix + row_chars(self@.cells[r as int]).take(c as int),
            {
                push_char(&mut out, line[c].character);
                assert(row_chars(self@.cells[r as int]).take(c + 1) =~= row_chars(
                    self@.cells[r as int],
                ).take(c as int).push(self@.cells[r as int][c as int].character));
            }
            proof {
                let cells = self@.cells;
                assert(row_chars(cells[r as int]).take(m as int) =~= row_chars(cells[r as int]));
                assert(cells.take(r + 1).drop_last() =~= cells.take(r as int));
                assert(cells.take(r + 1).last() == cells[r as int]);
                if r == 0 {
                    assert(render_rows(cells.take(1)) == row_chars(cells.take(1)[0]));
                    assert(out@ =~= render_lines(self@.scrollback.skip(self@.scroll_offset as int))
                        + render_rows(cells.take(r + 1)));
                } else {
                    assert(out@ =~= render_lines(self@.scrollback.skip(self@.scroll_offset as int))
                        + render_rows(cells.take(r + 1)));
                }
            }
        }
        proof {
            assert(self@.cells.take(rows as int) =~= self@.cells);
        }
        out
    }
}

/// The wrap law: printing never leaves the cursor resting at the right
/// margin. A character printed in the last column wraps the cursor to column
/// 0 of the next row, or promotes the top line to the scrollback when the
/// cursor is already on the bottom row.
pub proof fn lemma_print_char_wrap(g: GridView, c: char)
    requires
        g.wf(),
    ensures
        g.print_char(c).wf(),
        g.print_char(c).cursor_x < g.cols,
        g.cursor_x + 1 < g.cols ==> g.print_char(c).cursor_x == g.cursor_x + 1
            && g.print_char(c).cursor_y == g.cursor_y,
        g.cursor_x + 1 == g.cols ==> g.print_char(c).cursor_x == 0,
        g.cursor_x + 1 == g.cols && g.cursor_y + 1 < g.rows ==> g.print_char(c).cursor_y
            == g.cursor_y + 1,
        g.cursor_x + 1 == g.cols && g.cursor_y + 1 == g.rows ==> g.print_char(c).cursor_y
            == g.cursor_y && g.print_char(c).scrollback.len() == g.scrollback.len() + 1,
{
}

/// The scroll round-trip law: `scroll_up` then `scroll_down`, with no
/// mutation in between, restores the grid, the scrollback and the scroll
/// offset exactly; the two operations raise and lower `scroll_offset`
/// symmetrically.
pub proof fn lemma_scroll_round_trip(g: GridView)
    requires
        g.wf(),
    ensures
        g.scroll_up().scroll_offset == g.scroll_offset + 1,
        g.scroll_up().scroll_down().scroll_offset == g.scroll_offset,
        g.scroll_up().scroll_down() == (GridView { dirty: true, ..g }),
{
    let u = g.scroll_up();
    let d = u.scroll_down();
    assert(d.scrollback =~= g.scrollback);
    assert(u.cells.subrange(0, u.rows as int - 1) =~= g.cells.subrange(1, g.rows as int));
    assert(d.cells =~= g.cells);
    assert(d =~= (GridView { dirty: true, ..g }));
}

/// The clear law: after `clear_screen` the cursor is at the origin and every
/// cell is the blank cell, whatever the prior state.
pub proof fn lemma_clear_screen_blank(g: GridView)
    requires
        g.wf(),
    ensures
        g.clear_screen().wf(),
        g.clear_screen().cursor_x == 0,
        g.clear_screen().cursor_y == 0,
        forall|r: int, c: int|
            0 <= r < g.rows && 0 <= c < g.cols ==> g.clear_screen().cells[r][c] == blank_cell(),
{
}

/// Printing a string one character longer prints the extra character last.
pub proof fn lemma_print_str_snoc(g: GridView, s: Seq<char>, c: char)
    ensures
        g.print_str(s.push(c)) == g.print_str(s).print_char(c),
    decreases s.len(),
{
    if s.len() == 0 {
        assert(s.push(c)[0] == c);
        assert(s.push(c).drop_first() =~= Seq::<char>::empty());
        assert(g.print_str(s.push(c)) == g.print_char(c).print_str(Seq::<char>::empty()));
        assert(g.print_char(c).print_str(Seq::<char>::empty()) == g.print_char(c));
        assert(g.print_str(s) == g);
    } else {
        assert(s.push(c)[0] == s[0]);
        assert(s.push(c).drop_first() =~= s.drop_first().push(c));
        assert(g.print_str(s.push(c)) == g.print_char(s[0]).print_str(s.drop_first().push(c)));
        lemma_print_str_snoc(g.print_char(s[0]), s.drop_first(), c);
        assert(g.print_str(s) == g.print_char(s[0]).print_str(s.drop_first()));
    }
}

} // verus!
