//! Draw runs: the horizontal stretches of changed cells that a patch is
//! written as, so that the cursor is placed once per stretch.

use crate::term::util::{
    cell_index, is_empty_patch, lemma_apply_diff, lemma_cell_index_in_range, spec_apply,
    spec_diff, Cell, ScreenBufferDiff,
};
use vstd::prelude::*;

verus! {

/// A horizontal run of cells to paint: the cursor goes to column `x` of row
/// `y` once, and the cells are then written left to right.
#[derive(Debug, PartialEq, Eq)]
pub struct DrawRun {
    pub x: usize,
    pub y: usize,
    pub cells: Vec<Cell>,
}

/// The row-major index of the first cell of a run on a grid `width` wide.
pub open spec fn run_start(run: DrawRun, width: int) -> int {
    cell_index(width, run.x as int, run.y as int)
}

/// The row-major index just past the last cell of a run.
pub open spec fn run_end(run: DrawRun, width: int) -> int {
    run_start(run, width) + run.cells@.len()
}

/// Whether a run writes the cell with row-major index `k`.
pub open spec fn run_covers(run: DrawRun, width: int, k: int) -> bool {
    run_start(run, width) <= k < run_end(run, width)
}

/// A run of a patch: a non-empty stretch of entries to repaint that lies
/// within one row, carries the cells that the patch asks for, and cannot be
/// extended on either side.
pub open spec fn is_run_of(patch: Seq<Option<Cell>>, width: int, height: int, run: DrawRun) -> bool {
    &&& run.cells@.len() > 0
    &&& run.y < height
    &&& run.x + run.cells@.len() <= width
    &&& forall|i: int|
        0 <= i < run.cells@.len() ==> #[trigger] patch[run_start(run, width) + i] == Some(
            run.cells@[i],
        )
    &&& run.x > 0 ==> patch[run_start(run, width) - 1] is None
    &&& run.x + run.cells@.len() < width ==> patch[run_end(run, width)] is None
}

/// The runs come in row-major order and no two of them share a cell.
pub open spec fn runs_ascend(width: int, runs: Seq<DrawRun>) -> bool {
    forall|j: int, k: int|
        0 <= j < k < runs.len() ==> run_end(#[trigger] runs[j], width) <= run_start(
            #[trigger] runs[k],
            width,
        )
}

/// Whether one of the runs writes the cell with row-major index `k`.
pub open spec fn runs_cover(width: int, runs: Seq<DrawRun>, k: int) -> bool {
    exists|j: int| 0 <= j < runs.len() && run_covers(#[trigger] runs[j], width, k)
}

/// Every entry to repaint below `limit` is written by one of the runs.
pub open spec fn covered_below(
    patch: Seq<Option<Cell>>,
    width: int,
    runs: Seq<DrawRun>,
    limit: int,
) -> bool {
    forall|k: int| 0 <= k < limit && #[trigger] patch[k] is Some ==> runs_cover(width, runs, k)
}

/// The runs of a patch: each is a maximal stretch of entries to repaint
/// within one row, they come in row-major order, and together they write
/// every entry to repaint and nothing else.
pub open spec fn is_run_list(
    patch: Seq<Option<Cell>>,
    width: int,
    height: int,
    runs: Seq<DrawRun>,
) -> bool {
    &&& forall|j: int| 0 <= j < runs.len() ==> is_run_of(patch, width, height, #[trigger] runs[j])
    &&& runs_ascend(width, runs)
    &&& covered_below(patch, width, runs, patch.len() as int)
}

/// What a screen shows after one run has been written to it.
pub open spec fn paint_run(screen: Seq<Cell>, width: int, run: DrawRun) -> Seq<Cell> {
    Seq::new(
        screen.len(),
        |k: int|
            if run_covers(run, width, k) {
                run.cells@[k - run_start(run, width)]
            } else {
                screen[k]
            },
    )
}

/// What a screen shows after the runs have been written to it in order.
pub open spec fn paint_runs(screen: Seq<Cell>, width: int, runs: Seq<DrawRun>) -> Seq<Cell>
    decreases runs.len(),
{
    if runs.len() == 0 {
        screen
    } else {
        paint_run(paint_runs(screen, width, runs.drop_last()), width, runs.last())
    }
}

impl ScreenBufferDiff {
    /// The runs to write for this patch, in the order in which to write
    /// them. The cursor has to be placed once per run, so each run is as
    /// long as its row allows; cells that the patch leaves alone are never
    /// written.
    #[verifier::loop_isolation(false)]
    pub fn runs(&self) -> (runs: Vec<DrawRun>)
        ensures
            is_run_list(
                self@,
                self.spec_size().0 as int,
                self.spec_size().1 as int,
                runs@,
            ),
    {
        let size = self.size();
        let width = size.0;
        let height = size.1;
        let entries = self.cells();
        let ghost patch = entries@;
        let ghost w = width as int;
        let ghost h = height as int;
        assert(patch.len() == entries.len());
        let mut runs: Vec<DrawRun> = Vec::new();
        let mut y: usize = 0;
        let mut row_start: usize = 0;
        while y < height
            invariant
                y <= height,
                row_start == y * width,
                width == 0 ==> row_start == 0,
                forall|j: int| 0 <= j < runs@.len() ==> is_run_of(patch, w, h, #[trigger] runs@[j]),
                runs_ascend(w, runs@),
                forall|j: int| 0 <= j < runs@.len() ==> run_end(#[trigger] runs@[j], w) <= row_start,
                covered_below(patch, w, runs@, row_start as int),
            decreases height - y,
        {
            proof {
                if width > 0 {
                    lemma_cell_index_in_range(w, h, 0, y as int);
                }
            }
            let mut x: usize = 0;
            while x < width
                invariant
                    y < height,
                    x <= width,
                    row_start == y * width,
                    row_start + width <= patch.len(),
                    x == 0 || x == width || patch[row_start + x - 1] is None,
                    forall|j: int|
                        0 <= j < runs@.len() ==> is_run_of(patch, w, h, #[trigger] runs@[j]),
                    runs_ascend(w, runs@),
                    forall|j: int|
                        0 <= j < runs@.len() ==> run_end(#[trigger] runs@[j], w) <= row_start + x,
                    covered_below(patch, w, runs@, row_start + x),
                decreases width - x,
            {
                match entries[row_start + x] {
                    None => {
                        x += 1;
                    },
                    Some(first) => {
                        let start_x = x;
                        let mut cells: Vec<Cell> = Vec::new();
                        cells.push(first);
                        x += 1;
                        while x < width && entries[row_start + x].is_some()
                            invariant
                                start_x < x <= width,
                                cells@.len() == x - start_x,
                                forall|i: int|
                                    0 <= i < cells@.len() ==> #[trigger] patch[row_start + start_x
                                        + i] == Some(cells@[i]),
                            decreases width - x,
                        {
                            let next = entries[row_start + x].unwrap();
                            cells.push(next);
                            x += 1;
                        }
                        let run = DrawRun { x: start_x, y, cells };
                        let ghost before = runs@;
                        proof {
                            assert(run_start(run, w) == row_start + start_x);
                            assert(run_end(run, w) == row_start + x);
                            assert(is_run_of(patch, w, h, run));
                        }
                        runs.push(run);
                        proof {
                            let last = before.len() as int;
                            assert(runs@[last] == run);
                            assert forall|j: int| 0 <= j < runs@.len() implies is_run_of(
                                patch,
                                w,
                                h,
                                #[trigger] runs@[j],
                            ) by {
                                if j < last {
                                    assert(runs@[j] == before[j]);
                                }
                            }
                            assert forall|j: int, k: int| 0 <= j < k < runs@.len() implies run_end(
                                #[trigger] runs@[j],
                                w,
                            ) <= run_start(#[trigger] runs@[k], w) by {
                                assert(runs@[j] == before[j]);
                                if k < last {
                                    assert(runs@[k] == before[k]);
                                }
                            }
                            assert forall|k: int|
                                0 <= k < row_start + x && #[trigger] patch[k] is Some implies runs_cover(
                                w,
                                runs@,
                                k,
                            ) by {
                                if k < row_start + start_x {
                                    assert(runs_cover(w, before, k));
                                    let j = choose|j: int|
                                        0 <= j < before.len() && run_covers(
                                            #[trigger] before[j],
                                            w,
                                            k,
                                        );
                                    assert(runs@[j] == before[j]);
                                    assert(run_covers(runs@[j], w, k));
                                } else {
                                    assert(run_covers(runs@[last], w, k));
                                }
                            }
                        }
                        if x < width {
                            x += 1;
                        }
                        proof {
                            assert forall|k: int|
                                0 <= k < row_start + x && #[trigger] patch[k] is Some implies runs_cover(
                                w,
                                runs@,
                                k,
                            ) by {
                                if k == row_start + x - 1 && k >= run_end(run, w) {
                                    assert(patch[k] is None);
                                }
                            }
                        }
                    },
                }
            }
            y += 1;
            proof {
                assert((y - 1) * width + width == y * width) by (nonlinear_arith);
            }
            row_start += width;
        }
        proof {
            assert(height * width == width * height) by (nonlinear_arith);
            if width == 0 {
                assert(patch.len() == 0) by (nonlinear_arith)
                    requires
                        patch.len() == width * height,
                        width == 0,
                ;
            }
        }
        runs
    }
}

/// Writing runs whose cells are those of a patch changes exactly the cells
/// that the runs cover, each to what the patch asks for.
proof fn lemma_paint_runs_cells(
    screen: Seq<Cell>,
    patch: Seq<Option<Cell>>,
    width: int,
    height: int,
    runs: Seq<DrawRun>,
)
    requires
        screen.len() == patch.len(),
        forall|j: int| 0 <= j < runs.len() ==> is_run_of(patch, width, height, #[trigger] runs[j]),
    ensures
        paint_runs(screen, width, runs).len() == screen.len(),
        forall|k: int|
            0 <= k < screen.len() ==> #[trigger] paint_runs(screen, width, runs)[k] == (if runs_cover(
                width,
                runs,
                k,
            ) {
                patch[k]->0
            } else {
                screen[k]
            }),
    decreases runs.len(),
{
    if runs.len() > 0 {
        let rest = runs.drop_last();
        let last = runs.last();
        assert forall|j: int| 0 <= j < rest.len() implies is_run_of(
            patch,
            width,
            height,
            #[trigger] rest[j],
        ) by {
            assert(rest[j] == runs[j]);
        }
        lemma_paint_runs_cells(screen, patch, width, height, rest);
        let painted = paint_runs(screen, width, rest);
        assert(is_run_of(patch, width, height, runs[runs.len() - 1]));
        assert forall|k: int| 0 <= k < screen.len() implies #[trigger] paint_runs(
            screen,
            width,
            runs,
        )[k] == (if runs_cover(width, runs, k) {
            patch[k]->0
        } else {
            screen[k]
        }) by {
            if run_covers(last, width, k) {
                let i = k - run_start(last, width);
                assert(patch[run_start(last, width) + i] == Some(last.cells@[i]));
                assert(run_covers(runs[runs.len() - 1], width, k));
            } else if runs_cover(width, rest, k) {
                let j = choose|j: int| 0 <= j < rest.len() && run_covers(#[trigger] rest[j], width, k);
                assert(rest[j] == runs[j]);
                assert(run_covers(runs[j], width, k));
            } else {
                if runs_cover(width, runs, k) {
                    let j = choose|j: int|
                        0 <= j < runs.len() && run_covers(#[trigger] runs[j], width, k);
                    if j < rest.len() {
                        assert(rest[j] == runs[j]);
                        assert(run_covers(rest[j], width, k));
                    }
                }
            }
        }
    }
}

/// Writing the runs of a patch to a terminal has the effect of painting the
/// patch: the cells that the patch leaves alone keep what they showed, and
/// every other cell shows what the patch asks for.
pub proof fn lemma_runs_paint_patch(
    screen: Seq<Cell>,
    patch: Seq<Option<Cell>>,
    width: int,
    height: int,
    runs: Seq<DrawRun>,
)
    requires
        screen.len() == patch.len(),
        is_run_list(patch, width, height, runs),
    ensures
        paint_runs(screen, width, runs) == spec_apply(screen, patch),
{
    lemma_paint_runs_cells(screen, patch, width, height, runs);
    assert forall|k: int| 0 <= k < screen.len() implies paint_runs(screen, width, runs)[k]
        == spec_apply(screen, patch)[k] by {
        if runs_cover(width, runs, k) {
            let j = choose|j: int| 0 <= j < runs.len() && run_covers(#[trigger] runs[j], width, k);
            let i = k - run_start(runs[j], width);
            assert(is_run_of(patch, width, height, runs[j]));
            assert(patch[run_start(runs[j], width) + i] == Some(runs[j].cells@[i]));
        } else {
            if patch[k] is Some {
                assert(runs_cover(width, runs, k));
            }
        }
    }
    assert(paint_runs(screen, width, runs) =~= spec_apply(screen, patch));
}

/// Writing the runs of the diff of two frames to a terminal that shows the
/// first frame makes it show the second.
pub proof fn lemma_runs_of_diff_paint_target(
    before: Seq<Cell>,
    after: Seq<Cell>,
    width: int,
    height: int,
    runs: Seq<DrawRun>,
)
    requires
        before.len() == after.len(),
        is_run_list(spec_diff(before, after), width, height, runs),
    ensures
        paint_runs(before, width, runs) == after,
{
    lemma_runs_paint_patch(before, spec_diff(before, after), width, height, runs);
    lemma_apply_diff(before, after);
}

/// A patch that repaints nothing has no runs: nothing is written for it.
pub proof fn lemma_empty_patch_has_no_runs(
    patch: Seq<Option<Cell>>,
    width: int,
    height: int,
    runs: Seq<DrawRun>,
)
    requires
        patch.len() == width * height,
        is_empty_patch(patch),
        is_run_list(patch, width, height, runs),
    ensures
        runs.len() == 0,
{
    if runs.len() > 0 {
        let run = runs[0];
        assert(is_run_of(patch, width, height, run));
        lemma_cell_index_in_range(width, height, run.x as int, run.y as int);
        assert(patch[run_start(run, width) + 0] == Some(run.cells@[0]));
    }
}

/// The runs of a patch write as many cells as the patch has entries to
/// repaint within any stretch that they cover: a run never writes a cell
/// that the patch leaves alone.
pub proof fn lemma_runs_write_only_changes(
    patch: Seq<Option<Cell>>,
    width: int,
    height: int,
    runs: Seq<DrawRun>,
    k: int,
)
    requires
        is_run_list(patch, width, height, runs),
        runs_cover(width, runs, k),
    ensures
        patch[k] is Some,
{
    let j = choose|j: int| 0 <= j < runs.len() && run_covers(#[trigger] runs[j], width, k);
    let i = k - run_start(runs[j], width);
    assert(is_run_of(patch, width, height, runs[j]));
    assert(patch[run_start(runs[j], width) + i] == Some(runs[j].cells@[i]));
}

/// Two runs write the same cells at the same place.
pub open spec fn same_run(a: DrawRun, b: DrawRun) -> bool {
    a.x == b.x && a.y == b.y && a.cells@ == b.cells@
}

/// A position within a row is determined by its row-major index.
proof fn lemma_index_determines_position(width: int, x1: int, y1: int, x2: int, y2: int)
    requires
        0 <= x1 < width,
        0 <= x2 < width,
        0 <= y1,
        0 <= y2,
        cell_index(width, x1, y1) == cell_index(width, x2, y2),
    ensures
        x1 == x2,
        y1 == y2,
{
    if y1 < y2 {
        assert((y1 + 1) * width <= y2 * width) by (nonlinear_arith)
            requires
                y1 + 1 <= y2,
                width > 0,
        ;
        assert((y1 + 1) * width == y1 * width + width) by (nonlinear_arith);
    } else if y2 < y1 {
        assert((y2 + 1) * width <= y1 * width) by (nonlinear_arith)
            requires
                y2 + 1 <= y1,
                width > 0,
        ;
        assert((y2 + 1) * width == y2 * width + width) by (nonlinear_arith);
    }
}

/// A run of a patch lies within the patch.
proof fn lemma_run_within_patch(patch: Seq<Option<Cell>>, width: int, height: int, run: DrawRun)
    requires
        patch.len() == width * height,
        is_run_of(patch, width, height, run),
    ensures
        0 <= run_start(run, width),
        run_end(run, width) <= patch.len(),
        run.x < width,
        patch[run_start(run, width)] == Some(run.cells@[0]),
{
    lemma_cell_index_in_range(width, height, run.x as int, run.y as int);
    assert(patch[run_start(run, width) + 0] == Some(run.cells@[0]));
}

/// Two runs of one patch that start at the same cell are the same run.
proof fn lemma_same_start_same_run(
    patch: Seq<Option<Cell>>,
    width: int,
    height: int,
    a: DrawRun,
    b: DrawRun,
)
    requires
        patch.len() == width * height,
        is_run_of(patch, width, height, a),
        is_run_of(patch, width, height, b),
        run_start(a, width) == run_start(b, width),
    ensures
        same_run(a, b),
{
    lemma_run_within_patch(patch, width, height, a);
    lemma_run_within_patch(patch, width, height, b);
    lemma_index_determines_position(width, a.x as int, a.y as int, b.x as int, b.y as int);
    let start = run_start(a, width);
    let la = a.cells@.len() as int;
    let lb = b.cells@.len() as int;
    if la < lb {
        assert(patch[start + la] == Some(b.cells@[la]));
    } else if lb < la {
        assert(patch[start + lb] == Some(a.cells@[lb]));
    }
    assert forall|i: int| 0 <= i < la implies a.cells@[i] == b.cells@[i] by {
        assert(patch[start + i] == Some(a.cells@[i]));
        assert(patch[start + i] == Some(b.cells@[i]));
    }
    assert(a.cells@ =~= b.cells@);
}

/// The `j`-th run of one run list of a patch starts no later than the
/// `j`-th run of another, if the two lists agree on all earlier runs.
proof fn lemma_next_start_no_later(
    patch: Seq<Option<Cell>>,
    width: int,
    height: int,
    a: Seq<DrawRun>,
    b: Seq<DrawRun>,
    j: int,
)
    requires
        patch.len() == width * height,
        is_run_list(patch, width, height, a),
        is_run_list(patch, width, height, b),
        0 <= j < a.len(),
        forall|i: int| 0 <= i < j ==> i < b.len() && same_run(#[trigger] a[i], b[i]),
    ensures
        j < b.len(),
        run_start(b[j], width) <= run_start(a[j], width),
{
    let s = run_start(a[j], width);
    assert(is_run_of(patch, width, height, a[j]));
    lemma_run_within_patch(patch, width, height, a[j]);
    assert(patch[s] is Some);
    assert(runs_cover(width, b, s));
    let m = choose|m: int| 0 <= m < b.len() && run_covers(#[trigger] b[m], width, s);
    if m < j {
        assert(same_run(a[m], b[m]));
        assert(run_end(a[m], width) <= run_start(a[j], width));
    } else if m > j {
        assert(run_end(b[j], width) <= run_start(b[m], width));
        assert(is_run_of(patch, width, height, b[j]));
    }
}

/// Two run lists of one patch agree on their first `n` runs.
proof fn lemma_run_lists_agree(
    patch: Seq<Option<Cell>>,
    width: int,
    height: int,
    a: Seq<DrawRun>,
    b: Seq<DrawRun>,
    n: int,
)
    requires
        patch.len() == width * height,
        is_run_list(patch, width, height, a),
        is_run_list(patch, width, height, b),
        0 <= n <= a.len(),
    ensures
        n <= b.len(),
        forall|i: int| 0 <= i < n ==> same_run(#[trigger] a[i], b[i]),
    decreases n,
{
    if n > 0 {
        let j = n - 1;
        lemma_run_lists_agree(patch, width, height, a, b, j);
        lemma_next_start_no_later(patch, width, height, a, b, j);
        assert forall|i: int| 0 <= i < j implies i < a.len() && same_run(#[trigger] b[i], a[i]) by {
            assert(same_run(a[i], b[i]));
        }
        lemma_next_start_no_later(patch, width, height, b, a, j);
        assert(is_run_of(patch, width, height, a[j]));
        assert(is_run_of(patch, width, height, b[j]));
        lemma_same_start_same_run(patch, width, height, a[j], b[j]);
    }
}

/// A patch has exactly one list of runs: any two lists that qualify hold
/// the same runs in the same order.
pub proof fn lemma_run_list_unique(
    patch: Seq<Option<Cell>>,
    width: int,
    height: int,
    a: Seq<DrawRun>,
    b: Seq<DrawRun>,
)
    requires
        patch.len() == width * height,
        is_run_list(patch, width, height, a),
        is_run_list(patch, width, height, b),
    ensures
        a.len() == b.len(),
        forall|i: int| 0 <= i < a.len() ==> same_run(#[trigger] a[i], b[i]),
{
    lemma_run_lists_agree(patch, width, height, a, b, a.len() as int);
    lemma_run_lists_agree(patch, width, height, b, a, b.len() as int);
}

} // verus!
