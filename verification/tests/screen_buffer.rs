use tectyl::term::runs::DrawRun;
use tectyl::term::util::{Cell, ScreenBuffer, ScreenBufferDiff, SizeMismatch};

fn cells_of(text: &str) -> Vec<Cell> {
    text.chars().map(Cell::new).collect()
}

#[test]
fn buff_diff_same() {
    let buff1 = ScreenBuffer::from_text("hello");
    let buff2 = ScreenBuffer::from_text("hello");

    let diff_result = buff1.diff(&buff2).unwrap();

    let expected_diff =
        ScreenBufferDiff::from_cells(buff1.size(), vec![None, None, None, None, None]).unwrap();

    assert_eq!(diff_result, expected_diff);
}

#[test]
fn buff_diff_different() {
    let buff1 = ScreenBuffer::from_text("hello");
    let buff2 = ScreenBuffer::from_text("hxl0o");

    let diff_result = buff1.diff(&buff2).unwrap();

    let expected_diff = ScreenBufferDiff::from_cells(
        buff1.size(),
        vec![None, Some(Cell::new('x')), None, Some(Cell::new('0')), None],
    )
    .unwrap();

    assert_eq!(diff_result, expected_diff);
}

#[test]
fn diff_of_mismatched_sizes_is_an_error() {
    let buff1 = ScreenBuffer::from_text("hello");
    let buff2 = ScreenBuffer::from_text("world!");

    let err = buff1.diff(&buff2).unwrap_err();

    assert_eq!(err, SizeMismatch { expected: (5, 1), found: (6, 1) });
    assert_eq!(err.message(), "Input buffers must have the same length");
}

#[test]
fn diff_compares_dimensions_not_only_length() {
    let wide = ScreenBuffer::new((6, 1));
    let tall = ScreenBuffer::new((2, 3));
    assert_eq!(wide.len(), tall.len());
    assert_eq!(
        wide.diff(&tall).unwrap_err(),
        SizeMismatch { expected: (6, 1), found: (2, 3) }
    );
}

#[test]
fn new_buffer_is_blank() {
    let buf = ScreenBuffer::new((3, 2));
    assert_eq!(buf.size(), (3, 2));
    assert_eq!(buf.len(), 6);
    assert_eq!(buf.cells(), &vec![Cell::new(' '); 6]);
    assert_eq!(Cell::default(), Cell::new(' '));
    assert_eq!(Cell::blank(), Cell::new(' '));
}

#[test]
fn empty_buffer_has_no_cells() {
    let buf = ScreenBuffer::empty();
    assert_eq!(buf.size(), (0, 0));
    assert_eq!(buf.len(), 0);
    let zero_width = ScreenBuffer::new((0, 4));
    assert_eq!(zero_width.len(), 0);
    assert!(zero_width.diff(&ScreenBuffer::new((0, 4))).unwrap().runs().is_empty());
}

#[test]
fn from_text_counts_characters() {
    let buf = ScreenBuffer::from_text("héllo");
    assert_eq!(buf.size(), (5, 1));
    assert_eq!(buf.cells(), &cells_of("héllo"));
}

#[test]
fn set_cell_addresses_row_major() {
    let mut buf = ScreenBuffer::new((3, 2));
    buf.set_cell(1, 1, Cell::new('z'));
    assert_eq!(buf.cells(), &cells_of("    z "));
    assert_eq!(buf.cell(1, 1), Cell::new('z'));
    assert_eq!(buf.cell(0, 0), Cell::new(' '));
    buf.insert_char('q', 2);
    assert_eq!(buf.cells(), &cells_of("  q z "));
    assert_eq!(buf.cell(2, 0), Cell::new('q'));
}

#[test]
fn resize_keeps_one_cell_per_position() {
    let mut buf = ScreenBuffer::from_text("hello");
    buf.resize((2, 2));
    assert_eq!(buf.size(), (2, 2));
    assert_eq!(buf.cells().len(), 4);
    buf.resize((4, 3));
    assert_eq!(buf.size(), (4, 3));
    assert_eq!(buf.cells().len(), 12);
    buf.resize((0, 7));
    assert_eq!(buf.cells().len(), 0);
    buf.resize((1, 1));
    assert_eq!(buf.cells().len(), 1);
}

#[test]
fn resize_blanks_every_cell() {
    let mut buf = ScreenBuffer::from_text("hello");
    buf.resize((5, 1));
    assert_eq!(buf.cells(), &cells_of("     "));
    buf.insert_char('x', 0);
    buf.resize((3, 2));
    assert_eq!(buf.cells(), &cells_of("      "));
}

#[test]
fn diff_of_a_buffer_with_itself_is_empty() {
    let buf = ScreenBuffer::from_text("some text");
    let diff = buf.diff(&buf).unwrap();
    assert!(diff.is_empty());
    assert!(diff.cells().iter().all(|c| c.is_none()));
    assert!(diff.runs().is_empty());
}

#[test]
fn diff_from_cells_checks_the_length() {
    assert!(ScreenBufferDiff::from_cells((2, 2), vec![None, None, None]).is_none());
    assert!(ScreenBufferDiff::from_cells((usize::MAX, 2), vec![None]).is_none());
    let diff = ScreenBufferDiff::from_cells((2, 2), vec![None, None, None, None]).unwrap();
    assert_eq!(diff.size(), (2, 2));
    assert_eq!(diff.clone(), diff);
    assert!(diff.is_empty());
}

#[test]
fn full_repaint_paints_every_cell() {
    let buf = ScreenBuffer::from_text("ab");
    let diff = buf.full_repaint();
    assert_eq!(diff.cells(), &vec![Some(Cell::new('a')), Some(Cell::new('b'))]);
    assert!(!diff.is_empty());
}

#[test]
fn runs_group_neighbouring_changes() {
    let before = ScreenBuffer::from_text("hello world");
    let after = ScreenBuffer::from_text("hexxo_wxrld");
    let runs = before.diff(&after).unwrap().runs();
    assert_eq!(
        runs,
        vec![
            DrawRun { x: 2, y: 0, cells: cells_of("xx") },
            DrawRun { x: 5, y: 0, cells: cells_of("_") },
            DrawRun { x: 7, y: 0, cells: cells_of("x") },
        ]
    );
}

#[test]
fn runs_stop_at_the_end_of_a_row() {
    let before = ScreenBuffer::new((3, 3));
    let mut after = ScreenBuffer::new((3, 3));
    after.set_cell(2, 0, Cell::new('a'));
    after.set_cell(0, 1, Cell::new('b'));
    after.set_cell(1, 1, Cell::new('c'));
    after.set_cell(2, 1, Cell::new('d'));
    after.set_cell(0, 2, Cell::new('e'));
    let runs = before.diff(&after).unwrap().runs();
    assert_eq!(
        runs,
        vec![
            DrawRun { x: 2, y: 0, cells: cells_of("a") },
            DrawRun { x: 0, y: 1, cells: cells_of("bcd") },
            DrawRun { x: 0, y: 2, cells: cells_of("e") },
        ]
    );
}

#[test]
fn painting_the_runs_of_a_diff_gives_the_target() {
    let mut before = ScreenBuffer::new((4, 3));
    let mut after = ScreenBuffer::new((4, 3));
    for (i, ch) in "ab  cd ef  g".chars().enumerate() {
        before.insert_char(ch, i);
    }
    for (i, ch) in "aXY cd  fZZZ".chars().enumerate() {
        after.insert_char(ch, i);
    }
    let runs = before.diff(&after).unwrap().runs();
    let mut screen = before.cells().clone();
    let mut written = 0;
    for run in &runs {
        for (i, cell) in run.cells.iter().enumerate() {
            screen[run.y * 4 + run.x + i] = *cell;
            written += 1;
        }
    }
    assert_eq!(&screen, after.cells());
    assert_eq!(written, 6);
    assert_eq!(runs.len(), 3);
}
