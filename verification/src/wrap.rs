//! Long request lines wrapped to the terminal's width: the row of each
//! character, where the cursor goes, and which rows fit on the screen.

use vstd::prelude::*;

verus! {

/// Where a cell of `w` columns goes when the cells before it end at row
/// `row`, column `col`: on that row when it fits within `width` columns,
/// else at the start of the next row. A row's first cell always stays.
pub open spec fn placed(row: nat, col: nat, w: nat, width: nat) -> (nat, nat) {
    if col > 0 && col + w > width {
        (row + 1, 0)
    } else {
        (row, col)
    }
}

/// Where cells of widths `ws`, laid out one after another from column
/// `start` of row 0, end: the row of the last one and the column after it.
pub open spec fn end_of(ws: Seq<usize>, start: nat, width: nat) -> (nat, nat)
    decreases ws.len(),
{
    if ws.len() == 0 {
        (0, start)
    } else {
        let e = end_of(ws.drop_last(), start, width);
        let p = placed(e.0, e.1, ws.last() as nat, width);
        (p.0, p.1 + ws.last() as nat)
    }
}

/// The row and column of cell `i`.
pub open spec fn cell_at(ws: Seq<usize>, i: int, start: nat, width: nat) -> (nat, nat) {
    let e = end_of(ws.take(i), start, width);
    placed(e.0, e.1, ws[i] as nat, width)
}

/// The columns the cursor covers before cell `k`: the cell's own width,
/// or one column for a cell of none and at the end.
pub open spec fn cursor_cell(ws: Seq<usize>, k: int) -> nat {
    if 0 <= k < ws.len() && ws[k] > 0 {
        ws[k] as nat
    } else {
        1
    }
}

/// The row and column of the cursor before cell `k` (after the last cell
/// when `k` is their number).
pub open spec fn cursor_at(ws: Seq<usize>, k: int, start: nat, width: nat) -> (nat, nat) {
    let e = end_of(ws.take(k), start, width);
    placed(e.0, e.1, cursor_cell(ws, k), width)
}

/// The row of each cell.
pub open spec fn rows_of(ws: Seq<usize>, start: nat, width: nat) -> Seq<nat> {
    Seq::new(ws.len(), |i: int| cell_at(ws, i, start, width).0)
}

/// The rows a screen of `rows` rows leaves for the request line: one is
/// kept for an error below it, and there is always at least one.
pub open spec fn room(rows: nat, error: bool) -> nat {
    let free = if error {
        rows - 1
    } else {
        rows as int
    };
    if free < 1 {
        1
    } else {
        free as nat
    }
}

/// The first row shown and how many, of rows `0..=last` with the cursor on
/// `cursor_row`, when `room` rows fit: from the top while the cursor is
/// within the first `room` rows, else the rows that end at the cursor's.
pub open spec fn window(last: nat, cursor_row: nat, room: nat) -> (nat, nat) {
    let first: nat = if cursor_row < room {
        0
    } else {
        (cursor_row + 1 - room) as nat
    };
    let count: nat = if last - first < room {
        (last - first + 1) as nat
    } else {
        room
    };
    (first, count)
}

/// The characters `lo..hi` of `cs` on the `count` rows from row `first`
/// (`rows` holds the row of each), with a line break before each one that
/// begins a row after the first shown.
pub open spec fn shown_text(cs: Seq<char>, rows: Seq<nat>, first: nat, count: nat, lo: int, hi: int) -> Seq<char>
    decreases hi - lo,
{
    if hi <= lo {
        Seq::empty()
    } else {
        let i = hi - 1;
        let before = shown_text(cs, rows, first, count, lo, i);
        if first <= rows[i] < first + count {
            before + (if rows[i] > first && (i == 0 || rows[i - 1] < rows[i]) {
                "\r\n"@
            } else {
                Seq::empty()
            }) + seq![cs[i]]
        } else {
            before
        }
    }
}

/// A layout: the row of each cell, and where the cursor goes.
pub struct Wrapped {
    pub rows: Vec<usize>,
    /// The row of the last cell (row 0 without cells).
    pub end_row: usize,
    pub cursor_row: usize,
    pub cursor_column: usize,
}

/// Lays out cells of widths `widths` from column `start` of the first row,
/// `width` columns to a row, and places the cursor before cell `cursor`.
pub fn wrap_cells(widths: &Vec<usize>, cursor: usize, start: usize, width: usize) -> (r: Wrapped)
    requires
        cursor <= widths@.len(),
        widths@.len() < usize::MAX,
        width >= 1,
    ensures
        r.rows@.len() == widths@.len(),
        r.end_row == end_of(widths@, start as nat, width as nat).0,
        forall|i: int| 0 <= i < widths@.len() ==> r.rows@[i] == cell_at(widths@, i, start as nat, width as nat).0,
        (r.cursor_row as nat, r.cursor_column as nat) == cursor_at(widths@, cursor as int, start as nat, width as nat),
{
    let ghost ws = widths@;
    let ghost from = start as nat;
    let ghost w_all = width as nat;
    let mut rows: Vec<usize> = Vec::new();
    let mut row: usize = 0;
    let mut col: usize = start;
    let mut cursor_row: usize = 0;
    let mut cursor_column: usize = 0;
    let mut i: usize = 0;
    while i < widths.len()
        invariant
            i <= ws.len() < usize::MAX,
            ws == widths@,
            from == start as nat,
            w_all == width as nat,
            cursor <= ws.len(),
            width >= 1,
            (row as nat, col as nat) == end_of(ws.take(i as int), from, w_all),
            row <= i,
            rows@.len() == i,
            forall|j: int| 0 <= j < i ==> rows@[j] == cell_at(ws, j, from, w_all).0,
            i > cursor ==> (cursor_row as nat, cursor_column as nat) == cursor_at(ws, cursor as int, from, w_all),
        decreases ws.len() - i,
    {
        let w = widths[i];
        if i == cursor {
            let c: usize = if w > 0 {
                w
            } else {
                1
            };
            if col > 0 && (col > width || c > width - col) {
                cursor_row = row + 1;
                cursor_column = 0;
            } else {
                cursor_row = row;
                cursor_column = col;
            }
        }
        let ghost r0: nat = row as nat;
        let ghost c0: nat = col as nat;
        if col > 0 && (col > width || w > width - col) {
            row = row + 1;
            col = 0;
        }
        assert((row as nat, col as nat) == placed(r0, c0, w as nat, w_all));
        rows.push(row);
        col = col + w;
        proof {
            assert(ws.take(i + 1).drop_last() =~= ws.take(i as int));
            assert(ws.take(i + 1).last() == ws[i as int]);
            assert(end_of(ws.take(i + 1), from, w_all) == (row as nat, col as nat));
        }
        i = i + 1;
    }
    assert(ws.take(i as int) =~= ws);
    if cursor == widths.len() {
        if col > 0 && (col > width || 1 > width - col) {
            cursor_row = row + 1;
            cursor_column = 0;
        } else {
            cursor_row = row;
            cursor_column = col;
        }
    }
    Wrapped { rows, end_row: row, cursor_row, cursor_column }
}

/// The rows left for the request line on a screen of `rows` rows.
pub fn room_of(rows: u16, error: bool) -> (r: usize)
    ensures
        r == room(rows as nat, error),
{
    let free: usize = if error && rows > 0 {
        rows as usize - 1
    } else if error {
        0
    } else {
        rows as usize
    };
    if free < 1 {
        1
    } else {
        free
    }
}

/// The first row shown and how many; see [`window`].
pub fn window_of(last: usize, cursor_row: usize, room: usize) -> (r: (usize, usize))
    requires
        cursor_row <= last,
        room >= 1,
    ensures
        (r.0 as nat, r.1 as nat) == window(last as nat, cursor_row as nat, room as nat),
{
    let first: usize = if cursor_row < room {
        0
    } else {
        cursor_row - (room - 1)
    };
    let count: usize = if last - first < room {
        last - first + 1
    } else {
        room
    };
    (first, count)
}

/// The characters `lo..hi` of `cells` on the `count` rows from row
/// `first`; see [`shown_text`].
pub fn shown_cells(cells: &Vec<char>, rows: &Vec<usize>, first: usize, count: usize, lo: usize, hi: usize) -> (r: String)
    requires
        rows@.len() == cells@.len(),
        lo <= hi <= cells@.len(),
    ensures
        r@ == shown_text(cells@, rows@.map_values(|x: usize| x as nat), first as nat, count as nat, lo as int, hi as int),
{
    let ghost rs = rows@.map_values(|x: usize| x as nat);
    let mut out = String::new();
    let mut i: usize = lo;
    while i < hi
        invariant
            rows@.len() == cells@.len(),
            lo <= i <= hi <= cells@.len(),
            rs == rows@.map_values(|x: usize| x as nat),
            out@ == shown_text(cells@, rs, first as nat, count as nat, lo as int, i as int),
        decreases hi - i,
    {
        let row = rows[i];
        if first <= row && row - first < count {
            if row > first && (i == 0 || rows[i - 1] < row) {
                crate::text::push_char(&mut out, '\r');
                crate::text::push_char(&mut out, '\n');
            }
            crate::text::push_char(&mut out, cells[i]);
        }
        proof {
            reveal_strlit("\r\n");
        }
        i = i + 1;
        assert(out@ =~= shown_text(cells@, rs, first as nat, count as nat, lo as int, i as int));
    }
    out
}

/// A cell no wider than a row always lies within the row.
pub proof fn law_cells_fit(ws: Seq<usize>, start: nat, width: nat, i: int)
    requires
        0 <= i < ws.len(),
        ws[i] <= width,
    ensures
        cell_at(ws, i, start, width).1 + ws[i] <= width,
{
}

/// Cells follow one another: the next cell goes right after the one before
/// when it fits on that row (or that cell ended at the row's start), else
/// at the start of the next row.
pub proof fn law_cells_follow(ws: Seq<usize>, start: nat, width: nat, i: int)
    requires
        0 < i < ws.len(),
    ensures
        ({
            let p = cell_at(ws, i - 1, start, width);
            let q = cell_at(ws, i, start, width);
            if p.1 + ws[i - 1] + ws[i] <= width || p.1 + ws[i - 1] == 0 {
                q == (p.0, (p.1 + ws[i - 1]) as nat)
            } else {
                q == (p.0 + 1, 0nat)
            }
        }),
{
    assert(ws.take(i).drop_last() =~= ws.take(i - 1));
    assert(ws.take(i).last() == ws[i - 1]);
}

/// The cursor before a character is drawn where that character is.
pub proof fn law_cursor_on_its_cell(ws: Seq<usize>, start: nat, width: nat, k: int)
    requires
        0 <= k < ws.len(),
        ws[k] > 0,
    ensures
        cursor_at(ws, k, start, width) == cell_at(ws, k, start, width),
{
}

/// The rows shown always hold the cursor's row, never more than fit, and
/// every row when they all fit.
pub proof fn law_window_shows_the_cursor(last: nat, cursor_row: nat, room: nat)
    requires
        cursor_row <= last,
        room >= 1,
    ensures
        ({
            let (first, count) = window(last, cursor_row, room);
            &&& first <= cursor_row < first + count
            &&& 1 <= count <= room
            &&& first + count <= last + 1
            &&& last < room ==> first == 0 && count == last + 1
        }),
{
}

/// The columns cells of widths `ws` take together.
pub open spec fn columns_of(ws: Seq<usize>) -> nat
    decreases ws.len(),
{
    if ws.len() == 0 {
        0
    } else {
        columns_of(ws.drop_last()) + ws.last() as nat
    }
}

/// The first cells take no more columns than all of them.
proof fn lemma_columns_of_prefix(ws: Seq<usize>, i: int)
    requires
        0 <= i <= ws.len(),
    ensures
        columns_of(ws.take(i)) <= columns_of(ws),
    decreases ws.len(),
{
    if i < ws.len() {
        assert(ws.drop_last().take(i) =~= ws.take(i));
        lemma_columns_of_prefix(ws.drop_last(), i);
    } else {
        assert(ws.take(i) =~= ws);
    }
}

/// Cells that fit on the first row end where their widths add up to.
proof fn lemma_fitting_end(ws: Seq<usize>, start: nat, width: nat)
    requires
        start + columns_of(ws) <= width,
    ensures
        end_of(ws, start, width) == (0nat, start + columns_of(ws)),
    decreases ws.len(),
{
    if ws.len() > 0 {
        lemma_fitting_end(ws.drop_last(), start, width);
    }
}

/// A request line that fits on the first row stays there: each character
/// sits where the widths before it add up to.
pub proof fn law_fitting_cells_stay_on_the_first_row(ws: Seq<usize>, start: nat, width: nat, i: int)
    requires
        start + columns_of(ws) <= width,
        0 <= i < ws.len(),
    ensures
        cell_at(ws, i, start, width) == (0nat, start + columns_of(ws.take(i))),
{
    lemma_columns_of_prefix(ws, i + 1);
    assert(ws.take(i + 1).drop_last() =~= ws.take(i));
    lemma_columns_of_prefix(ws.take(i + 1), i);
    lemma_fitting_end(ws.take(i), start, width);
}

} // verus!
