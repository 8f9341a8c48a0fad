//! Screen buffers: one rendered frame as a row-major grid of cells, and the
//! cell-level patch that turns one frame into another.

use vstd::prelude::*;
use vstd::string::StrSliceExecFns;

verus! {

/// The smallest renderable unit: one character.
#[derive(Clone, Copy, Debug, PartialEq, Eq, Structural)]
pub struct Cell {
    pub ch: char,
}

/// The cell that an untouched position holds: a space.
pub open spec fn blank_cell() -> Cell {
    Cell { ch: ' ' }
}

impl Cell {
    pub fn new(ch: char) -> (c: Cell)
        ensures
            c.ch == ch,
    {
        Cell { ch }
    }

    pub fn blank() -> (c: Cell)
        ensures
            c == blank_cell(),
    {
        Cell { ch: ' ' }
    }
}

impl Default for Cell {
    fn default() -> (c: Cell)
        ensures
            c == blank_cell(),
    {
        Cell { ch: ' ' }
    }
}

/// A grid of `n` blank cells.
pub open spec fn blank_cells(n: int) -> Seq<Cell> {
    Seq::new(n as nat, |i: int| blank_cell())
}

/// The row-major index of column `x` on row `y` in a grid `width` wide.
pub open spec fn cell_index(width: int, x: int, y: int) -> int {
    y * width + x
}

/// Every position of a grid of `width` by `height` cells has an index below
/// `width * height`, and distinct positions have distinct indices.
pub proof fn lemma_cell_index_in_range(width: int, height: int, x: int, y: int)
    requires
        0 <= x < width,
        0 <= y < height,
    ensures
        0 <= cell_index(width, x, y) < width * height,
        y * width + width <= width * height,
        y * width >= 0,
{
    assert(y * width >= 0) by (nonlinear_arith)
        requires
            y >= 0,
            width > 0,
    ;
    assert((y + 1) * width <= height * width) by (nonlinear_arith)
        requires
            y + 1 <= height,
            width > 0,
    ;
    assert((y + 1) * width == y * width + width) by (nonlinear_arith);
    assert(height * width == width * height) by (nonlinear_arith);
}

/// Builds `n` blank cells.
fn make_blank(n: usize) -> (cells: Vec<Cell>)
    ensures
        cells@ == blank_cells(n as int),
{
    let mut cells: Vec<Cell> = Vec::new();
    let mut i: usize = 0;
    while i < n
        invariant
            i <= n,
            cells@ == blank_cells(i as int),
        decreases n - i,
    {
        cells.push(Cell { ch: ' ' });
        i += 1;
    }
    cells
}

/// One complete rendered frame: `width * height` cells in row-major order.
pub struct ScreenBuffer {
    size: (usize, usize),
    cells: Vec<Cell>,
}

impl ScreenBuffer {
    /// The buffer holds exactly one cell for each position of its grid.
    #[verifier::type_invariant]
    pub closed spec fn wf(self) -> bool {
        self.cells@.len() == self.size.0 * self.size.1
    }

    /// Width and height, in cells.
    pub closed spec fn spec_size(&self) -> (usize, usize) {
        self.size
    }

    /// The cells in row-major order.
    pub closed spec fn view(&self) -> Seq<Cell> {
        self.cells@
    }

    pub open spec fn spec_width(&self) -> usize {
        self.spec_size().0
    }

    pub open spec fn spec_height(&self) -> usize {
        self.spec_size().1
    }

    /// A buffer of the given width and height, every cell blank.
    pub fn new(size: (usize, usize)) -> (buf: ScreenBuffer)
        requires
            size.0 * size.1 <= usize::MAX,
        ensures
            buf.wf(),
            buf.spec_size() == size,
            buf@ == blank_cells(size.0 * size.1),
    {
        let cells = make_blank(size.0 * size.1);
        ScreenBuffer { size, cells }
    }

    /// A well-formed buffer holds one cell for each position of its grid.
    pub proof fn lemma_len(self)
        requires
            self.wf(),
        ensures
            self@.len() == self.spec_size().0 * self.spec_size().1,
    {
    }

    /// A buffer without cells.
    pub fn empty() -> (buf: ScreenBuffer)
        ensures
            buf.wf(),
            buf.spec_size() == (0usize, 0usize),
            buf@ == Seq::<Cell>::empty(),
    {
        ScreenBuffer { size: (0, 0), cells: Vec::new() }
    }

    /// Gives the buffer new dimensions. A resize is a full repaint boundary:
    /// no cell survives it, and every cell of the new grid is blank.
    pub fn resize(&mut self, new_size: (usize, usize))
        requires
            new_size.0 * new_size.1 <= usize::MAX,
        ensures
            final(self).wf(),
            final(self).spec_size() == new_size,
            final(self)@ == blank_cells(new_size.0 * new_size.1),
            final(self)@.len() == new_size.0 * new_size.1,
            final(self).grid() == old(self).grid().resize(new_size),
    {
        let cells = make_blank(new_size.0 * new_size.1);
        *self = ScreenBuffer { size: new_size, cells };
    }

    #[verifier::when_used_as_spec(spec_size)]
    pub fn size(&self) -> (size: (usize, usize))
        ensures
            size == self.spec_size(),
            self@.len() == size.0 * size.1,
            size.0 * size.1 <= usize::MAX,
    {
        proof {
            use_type_invariant(self);
            assert(self.cells@.len() == self.cells.len());
        }
        self.size
    }

    /// The number of cells, `width * height`.
    pub fn len(&self) -> (n: usize)
        ensures
            n == self@.len(),
            n == self.spec_size().0 * self.spec_size().1,
    {
        proof {
            use_type_invariant(self);
        }
        self.cells.len()
    }

    /// The cells in row-major order.
    pub fn cells(&self) -> (cells: &Vec<Cell>)
        ensures
            cells@ == self@,
    {
        &self.cells
    }

    /// Writes `c` at the row-major index `idx`.
    pub fn insert_char(&mut self, c: char, idx: usize)
        requires
            idx < old(self)@.len(),
        ensures
            final(self).wf(),
            final(self).spec_size() == old(self).spec_size(),
            final(self)@ == old(self)@.update(idx as int, Cell { ch: c }),
        no_unwind
    {
        proof {
            use_type_invariant(&*self);
        }
        self.cells[idx] = Cell { ch: c };
    }

    /// Writes `cell` at column `x` of row `y`.
    pub fn set_cell(&mut self, x: usize, y: usize, cell: Cell)
        requires
            x < old(self).spec_size().0,
            y < old(self).spec_size().1,
        ensures
            final(self).wf(),
            final(self).spec_size() == old(self).spec_size(),
            final(self)@ == old(self)@.update(
                cell_index(old(self).spec_size().0 as int, x as int, y as int),
                cell,
            ),
        no_unwind
    {
        proof {
            use_type_invariant(&*self);
            lemma_cell_index_in_range(
                self.size.0 as int,
                self.size.1 as int,
                x as int,
                y as int,
            );
            assert(self.cells@.len() == self.cells.len());
        }
        let idx = y * self.size.0 + x;
        self.cells[idx] = cell;
    }

    /// The cell at column `x` of row `y`.
    pub fn cell(&self, x: usize, y: usize) -> (c: Cell)
        requires
            x < self.spec_size().0,
            y < self.spec_size().1,
        ensures
            c == self@[cell_index(self.spec_size().0 as int, x as int, y as int)],
    {
        proof {
            use_type_invariant(self);
            lemma_cell_index_in_range(
                self.size.0 as int,
                self.size.1 as int,
                x as int,
                y as int,
            );
            assert(self.cells@.len() == self.cells.len());
        }
        self.cells[y * self.size.0 + x]
    }
}

/// Two buffers of different dimensions were compared.
#[derive(Clone, Copy, Debug, PartialEq, Eq)]
pub struct SizeMismatch {
    /// Dimensions of the buffer that was asked for the diff.
    pub expected: (usize, usize),
    /// Dimensions of the buffer it was compared with.
    pub found: (usize, usize),
}

impl SizeMismatch {
    /// What went wrong, in words.
    pub fn message(&self) -> (text: &'static str)
        ensures
            text@ == "Input buffers must have the same length"@,
    {
        "Input buffers must have the same length"
    }
}

/// The patch between two frames of equal length: at each position nothing
/// where the frames agree, and the second frame's cell where they differ.
pub open spec fn spec_diff(before: Seq<Cell>, after: Seq<Cell>) -> Seq<Option<Cell>> {
    Seq::new(
        before.len(),
        |i: int|
            if before[i] == after[i] {
                None
            } else {
                Some(after[i])
            },
    )
}

/// What a screen showing `screen` shows once `patch` has been painted on it.
pub open spec fn spec_apply(screen: Seq<Cell>, patch: Seq<Option<Cell>>) -> Seq<Cell> {
    Seq::new(
        screen.len(),
        |i: int|
            match patch[i] {
                Some(c) => c,
                None => screen[i],
            },
    )
}

/// Whether a patch asks for no repainting at all.
pub open spec fn is_empty_patch(patch: Seq<Option<Cell>>) -> bool {
    forall|i: int| 0 <= i < patch.len() ==> patch[i] is None
}

/// A cell-level patch for a grid of a given size: `None` where a position is
/// unchanged since the reference frame, `Some(c)` where it must be repainted
/// with `c`.
#[derive(Debug, PartialEq)]
pub struct ScreenBufferDiff {
    width: usize,
    height: usize,
    cells: Vec<Option<Cell>>,
}

impl ScreenBufferDiff {
    /// The patch holds exactly one entry for each position of its grid.
    #[verifier::type_invariant]
    pub closed spec fn wf(self) -> bool {
        self.cells@.len() == self.width * self.height
    }

    /// Width and height of the grid that the patch is for.
    pub closed spec fn spec_size(&self) -> (usize, usize) {
        (self.width, self.height)
    }

    /// The entries in row-major order.
    pub closed spec fn view(&self) -> Seq<Option<Cell>> {
        self.cells@
    }

    /// A patch from its entries, where there is one entry for each position
    /// of a grid of the given size.
    pub fn from_cells(size: (usize, usize), cells: Vec<Option<Cell>>) -> (r: Option<
        ScreenBufferDiff,
    >)
        ensures
            r is Some <==> cells@.len() == size.0 * size.1,
            r matches Some(d) ==> d.wf() && d.spec_size() == size && d@ == cells@,
    {
        assert(cells@.len() == cells.len());
        match size.0.checked_mul(size.1) {
            Some(n) => {
                if cells.len() == n {
                    Some(ScreenBufferDiff { width: size.0, height: size.1, cells })
                } else {
                    None
                }
            },
            None => None,
        }
    }

    #[verifier::when_used_as_spec(spec_size)]
    pub fn size(&self) -> (size: (usize, usize))
        ensures
            size == self.spec_size(),
            self@.len() == size.0 * size.1,
    {
        proof {
            use_type_invariant(self);
        }
        (self.width, self.height)
    }

    /// The entries in row-major order.
    pub fn cells(&self) -> (cells: &Vec<Option<Cell>>)
        ensures
            cells@ == self@,
    {
        &self.cells
    }

    /// Whether the patch repaints nothing.
    pub fn is_empty(&self) -> (r: bool)
        ensures
            r == is_empty_patch(self@),
    {
        let mut i: usize = 0;
        while i < self.cells.len()
            invariant
                i <= self.cells@.len(),
                forall|k: int| 0 <= k < i ==> self.cells@[k] is None,
            decreases self.cells@.len() - i,
        {
            if self.cells[i].is_some() {
                return false;
            }
            i += 1;
        }
        true
    }
}

impl Clone for ScreenBufferDiff {
    fn clone(&self) -> (r: ScreenBufferDiff)
        ensures
            r.wf(),
            r.spec_size() == self.spec_size(),
            r@ == self@,
    {
        proof {
            use_type_invariant(self);
        }
        let n = self.cells.len();
        let mut cells: Vec<Option<Cell>> = Vec::with_capacity(n);
        let mut i: usize = 0;
        while i < n
            invariant
                i <= n,
                n == self.cells@.len(),
                cells@ == self.cells@.take(i as int),
            decreases n - i,
        {
            cells.push(self.cells[i]);
            assert(self.cells@.take(i + 1) =~= self.cells@.take(i as int).push(self.cells@[i as int]));
            i += 1;
        }
        assert(self.cells@.take(n as int) =~= self.cells@);
        ScreenBufferDiff { width: self.width, height: self.height, cells }
    }
}

impl ScreenBuffer {
    /// The change set that turns a terminal showing `self` into one showing
    /// `other`: for each position nothing if the two buffers agree there,
    /// and the cell of `other` if they do not. Buffers of different
    /// dimensions have no diff.
    pub fn diff(&self, other: &ScreenBuffer) -> (r: Result<ScreenBufferDiff, SizeMismatch>)
        ensures
            r is Ok <==> self.spec_size() == other.spec_size(),
            r matches Ok(d) ==> {
                &&& d.wf()
                &&& d.spec_size() == self.spec_size()
                &&& d@ == spec_diff(self@, other@)
            },
            r matches Err(e) ==> e == (SizeMismatch {
                expected: self.spec_size(),
                found: other.spec_size(),
            }),
    {
        proof {
            use_type_invariant(self);
            use_type_invariant(other);
        }
        if self.size.0 != other.size.0 || self.size.1 != other.size.1 {
            return Err(SizeMismatch { expected: self.size, found: other.size });
        }
        let n = self.cells.len();
        let mut cells: Vec<Option<Cell>> = Vec::with_capacity(n);
        let mut i: usize = 0;
        while i < n
            invariant
                i <= n,
                n == self.cells@.len(),
                n == other.cells@.len(),
                cells@.len() == i,
                forall|k: int| 0 <= k < i ==> cells@[k] == spec_diff(self.cells@, other.cells@)[k],
            decreases n - i,
        {
            let before = self.cells[i];
            let after = other.cells[i];
            if before == after {
                cells.push(None);
            } else {
                cells.push(Some(after));
            }
            i += 1;
        }
        assert(cells@ =~= spec_diff(self.cells@, other.cells@));
        Ok(ScreenBufferDiff { width: self.size.0, height: self.size.1, cells })
    }

    /// The patch that repaints every cell of the buffer.
    pub fn full_repaint(&self) -> (d: ScreenBufferDiff)
        ensures
            d.wf(),
            d.spec_size() == self.spec_size(),
            d@ == self@.map_values(|c: Cell| Some(c)),
    {
        proof {
            use_type_invariant(self);
        }
        let n = self.cells.len();
        let mut cells: Vec<Option<Cell>> = Vec::with_capacity(n);
        let mut i: usize = 0;
        while i < n
            invariant
                i <= n,
                n == self.cells@.len(),
                cells@.len() == i,
                forall|k: int| 0 <= k < i ==> cells@[k] == Some(self.cells@[k]),
            decreases n - i,
        {
            cells.push(Some(self.cells[i]));
            i += 1;
        }
        assert(cells@ =~= self.cells@.map_values(|c: Cell| Some(c)));
        ScreenBufferDiff { width: self.size.0, height: self.size.1, cells }
    }
}

/// A diff has no entry where the two frames agree, and the second frame's
/// cell everywhere else.
pub proof fn lemma_diff_entries(before: Seq<Cell>, after: Seq<Cell>)
    requires
        before.len() == after.len(),
    ensures
        spec_diff(before, after).len() == before.len(),
        forall|i: int|
            0 <= i < before.len() && before[i] == after[i] ==> #[trigger] spec_diff(
                before,
                after,
            )[i] is None,
        forall|i: int|
            0 <= i < before.len() && before[i] != after[i] ==> #[trigger] spec_diff(
                before,
                after,
            )[i] == Some(after[i]),
{
}

/// The diff of a frame with itself repaints nothing.
pub proof fn lemma_diff_same_is_empty(frame: Seq<Cell>)
    ensures
        is_empty_patch(spec_diff(frame, frame)),
{
}

/// A diff repaints nothing exactly when the two frames are the same.
pub proof fn lemma_diff_empty_iff_equal(before: Seq<Cell>, after: Seq<Cell>)
    requires
        before.len() == after.len(),
    ensures
        is_empty_patch(spec_diff(before, after)) <==> before == after,
{
    if is_empty_patch(spec_diff(before, after)) {
        assert forall|i: int| 0 <= i < before.len() implies before[i] == after[i] by {
            assert(spec_diff(before, after)[i] is None);
        }
        assert(before =~= after);
    }
}

/// Painting the diff of two frames on a terminal that shows the first makes
/// it show the second.
pub proof fn lemma_apply_diff(before: Seq<Cell>, after: Seq<Cell>)
    requires
        before.len() == after.len(),
    ensures
        spec_apply(before, spec_diff(before, after)) == after,
{
    assert(spec_apply(before, spec_diff(before, after)) =~= after);
}

/// Painting every cell of a frame makes any terminal of the same size show
/// that frame.
pub proof fn lemma_apply_full_repaint(screen: Seq<Cell>, after: Seq<Cell>)
    requires
        screen.len() == after.len(),
    ensures
        spec_apply(screen, after.map_values(|c: Cell| Some(c))) == after,
{
    assert(spec_apply(screen, after.map_values(|c: Cell| Some(c))) =~= after);
}

/// The cell that shows one character.
pub open spec fn cell_of(ch: char) -> Cell {
    Cell { ch }
}

/// The cells that show a text: one cell for each character.
pub open spec fn text_cells(text: Seq<char>) -> Seq<Cell> {
    Seq::new(text.len(), |i: int| cell_of(text[i]))
}

impl ScreenBuffer {
    /// A buffer of a single row that shows the text, one cell for each
    /// character.
    pub fn from_text(text: &str) -> (buf: ScreenBuffer)
        ensures
            buf.wf(),
            buf.spec_size() == (text@.len() as usize, 1usize),
            buf@ == text_cells(text@),
    {
        let n = text.unicode_len();
        let mut cells: Vec<Cell> = Vec::with_capacity(n);
        let mut i: usize = 0;
        while i < n
            invariant
                i <= n,
                n == text@.len(),
                cells@.len() == i,
                forall|k: int| 0 <= k < i ==> cells@[k] == (Cell { ch: text@[k] }),
            decreases n - i,
        {
            cells.push(Cell { ch: text.get_char(i) });
            i += 1;
        }
        assert(cells@ =~= text_cells(text@));
        ScreenBuffer { size: (n, 1), cells }
    }
}

/// A grid as a value: its dimensions and its cells.
pub struct Grid {
    pub size: (usize, usize),
    pub cells: Seq<Cell>,
}

impl Grid {
    /// The grid holds one cell for each of its positions.
    pub open spec fn wf(self) -> bool {
        self.cells.len() == self.size.0 * self.size.1
    }

    /// The grid after a resize: blank, with the new dimensions.
    pub open spec fn resize(self, new_size: (usize, usize)) -> Grid {
        Grid { size: new_size, cells: blank_cells(new_size.0 * new_size.1) }
    }

    /// The grid after a series of resizes.
    pub open spec fn resize_all(self, sizes: Seq<(usize, usize)>) -> Grid
        decreases sizes.len(),
    {
        if sizes.len() == 0 {
            self
        } else {
            self.resize_all(sizes.drop_last()).resize(sizes.last())
        }
    }

    /// Whatever series of resizes a grid goes through, shrinking or
    /// growing in any order, it holds one cell for each of its positions
    /// afterwards, and it has the dimensions of the last resize.
    pub proof fn lemma_resizes_keep_grid(self, sizes: Seq<(usize, usize)>)
        requires
            self.wf(),
        ensures
            self.resize_all(sizes).wf(),
            sizes.len() > 0 ==> self.resize_all(sizes).size == sizes.last(),
        decreases sizes.len(),
    {
        if sizes.len() > 0 {
            self.lemma_resizes_keep_grid(sizes.drop_last());
            let size = sizes.last();
            assert(size.0 * size.1 >= 0) by (nonlinear_arith)
                requires
                    size.0 >= 0,
                    size.1 >= 0,
            ;
        }
    }
}

impl ScreenBuffer {
    /// The buffer as a value.
    pub open spec fn grid(&self) -> Grid {
        Grid { size: self.spec_size(), cells: self@ }
    }
}

} // verus!
