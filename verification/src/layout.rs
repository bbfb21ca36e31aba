//! The short form's grid: names packed into columns of equal width, filled
//! column by column, as many columns as the line width allows.

use vstd::prelude::*;
use vstd::string::StringExecFns;

verus! {

/// Blank columns between a name and the next column.
pub const GUTTER: usize = 2;

/// The line width assumed where none can be detected.
pub const DEFAULT_WIDTH: usize = 80;

/// One name placed in the grid: the text written for it, and the number of
/// columns it takes up when shown.
#[derive(Clone, Debug, PartialEq, Eq)]
pub struct Cell {
    /// What is written: the name, with colour codes if any.
    pub text: String,
    /// The width of the name as shown.
    pub width: usize,
}

/// The line width to lay out for: the detected one, or the default.
pub open spec fn line_width(detected: Option<usize>) -> usize {
    match detected {
        Some(width) => width,
        None => DEFAULT_WIDTH,
    }
}

/// The texts of some cells, in order.
pub open spec fn cell_texts(cells: Seq<Cell>) -> Seq<Seq<char>> {
    cells.map_values(|c: Cell| c.text@)
}

/// The widths of some cells, in order.
pub open spec fn cell_widths(cells: Seq<Cell>) -> Seq<nat> {
    cells.map_values(|c: Cell| c.width as nat)
}

/// The largest of some widths; zero where there are none.
pub open spec fn widest(widths: Seq<nat>) -> nat
    decreases widths.len(),
{
    if widths.len() == 0 {
        0
    } else if widths.last() >= widest(widths.drop_last()) {
        widths.last()
    } else {
        widest(widths.drop_last())
    }
}

/// The width of every column: the widest name and the gutter.
pub open spec fn column_width(widths: Seq<nat>) -> nat {
    widest(widths) + GUTTER as nat
}

/// How many columns of the given width fit the line; one at least.
pub open spec fn grid_columns(column: nat, width: nat) -> nat {
    if width / column == 0 {
        1
    } else {
        width / column
    }
}

/// How many rows `count` names take in the given number of columns.
pub open spec fn grid_rows(count: nat, columns: nat) -> nat {
    if count % columns == 0 {
        count / columns
    } else {
        count / columns + 1
    }
}

/// `count` blanks.
pub open spec fn spaces(count: nat) -> Seq<char> {
    Seq::new(count, |i: int| ' ')
}

/// The text of a row from cell `i` on: every `rows`-th cell, each but the
/// last padded with blanks to the column width.
pub open spec fn row_from(
    texts: Seq<Seq<char>>,
    widths: Seq<nat>,
    rows: nat,
    column: nat,
    i: nat,
) -> Seq<char>
    decreases texts.len() - i,
{
    if rows == 0 || i >= texts.len() {
        Seq::empty()
    } else if i + rows >= texts.len() {
        texts[i as int]
    } else {
        texts[i as int] + spaces((column - widths[i as int]) as nat) + row_from(
            texts,
            widths,
            rows,
            column,
            i + rows,
        )
    }
}

/// The lines of the grid for the given texts and widths on a line of the
/// given width. The name at index `i` stands in row `i % rows`, column `i /
/// rows`.
pub open spec fn grid(texts: Seq<Seq<char>>, widths: Seq<nat>, width: nat) -> Seq<Seq<char>> {
    let column = column_width(widths);
    let rows = grid_rows(texts.len(), grid_columns(column, width));
    Seq::new(rows, |r: int| row_from(texts, widths, rows, column, r as nat))
}

/// The line width to lay out for: the detected one, or the default.
pub fn effective_width(detected: Option<usize>) -> (width: usize)
    ensures
        width == line_width(detected),
{
    match detected {
        Some(width) => width,
        None => DEFAULT_WIDTH,
    }
}

/// Appends `count` blanks to `out`.
fn push_spaces(out: &mut String, count: u128)
    ensures
        final(out)@ == old(out)@ + spaces(count as nat),
{
    let mut done: u128 = 0;
    assert(out@ =~= old(out)@ + spaces(0));
    while done < count
        invariant
            done <= count,
            out@ == old(out)@ + spaces(done as nat),
        decreases count - done,
    {
        proof {
            reveal_strlit(" ");
        }
        out.append(" ");
        done += 1;
        assert(out@ =~= old(out)@ + spaces(done as nat));
    }
}

/// The largest width among the cells.
fn widest_cell(cells: &Vec<Cell>) -> (most: usize)
    ensures
        most == widest(cell_widths(cells@)),
        forall|i: int| 0 <= i < cells@.len() ==> (#[trigger] cells@[i]).width <= most,
{
    let mut most: usize = 0;
    let mut i: usize = 0;
    let ghost widths = cell_widths(cells@);
    assert(widths.take(0) =~= Seq::<nat>::empty());
    while i < cells.len()
        invariant
            i <= cells.len(),
            widths == cell_widths(cells@),
            most == widest(widths.take(i as int)),
            forall|k: int| 0 <= k < i ==> (#[trigger] cells@[k]).width <= most,
        decreases cells.len() - i,
    {
        proof {
            assert(widths.take(i + 1).drop_last() =~= widths.take(i as int));
            assert(widths.take(i + 1).last() == cells@[i as int].width as nat);
        }
        if cells[i].width >= most {
            most = cells[i].width;
        }
        i += 1;
    }
    assert(widths.take(cells.len() as int) =~= widths);
    most
}

/// Rows never outnumber the names, and with the columns they hold every name.
pub proof fn lemma_grid_holds_all(count: nat, columns: nat)
    requires
        columns > 0,
    ensures
        grid_rows(count, columns) <= count,
        count > 0 ==> grid_rows(count, columns) > 0,
        grid_rows(count, columns) * columns >= count,
        count > 0 ==> (grid_rows(count, columns) - 1) * columns < count,
{
    let q = count / columns;
    let r = count % columns;
    assert(count == q * columns + r) by {
        vstd::arithmetic::div_mod::lemma_fundamental_div_mod(count as int, columns as int);
        assert(columns * q == q * columns) by (nonlinear_arith);
    }
    assert(q <= q * columns) by (nonlinear_arith)
        requires
            columns > 0,
            q >= 0,
    ;
    if r != 0 {
        assert((q + 1) * columns == q * columns + columns) by (nonlinear_arith);
    } else if count > 0 {
        assert(q > 0) by (nonlinear_arith)
            requires
                count == q * columns + r,
                r == 0,
                count > 0,
        ;
        assert((q - 1) * columns == q * columns - columns) by (nonlinear_arith);
    }
}

/// Every name has its own place in the grid: the name at index `i` stands in
/// row `i % rows` and column `i / rows`, both within the grid, and no other
/// index has that place.
pub proof fn lemma_grid_place(count: nat, columns: nat, i: nat)
    requires
        columns > 0,
        i < count,
    ensures
        ({
            let rows = grid_rows(count, columns);
            &&& rows > 0
            &&& i % rows < rows
            &&& i / rows < columns
            &&& (i / rows) * rows + i % rows == i
        }),
{
    lemma_grid_holds_all(count, columns);
    let rows = grid_rows(count, columns);
    vstd::arithmetic::div_mod::lemma_fundamental_div_mod(i as int, rows as int);
    let c = i / rows;
    assert(rows * c == c * rows) by (nonlinear_arith);
    assert(c < columns) by (nonlinear_arith)
        requires
            c * rows <= i,
            i < rows * columns,
            rows > 0,
    ;
}

/// Lays the cells out as a grid on a line of the given width: one text per
/// row, cells filled in column by column.
pub fn layout(cells: &Vec<Cell>, width: usize) -> (lines: Vec<String>)
    ensures
        lines@.len() == grid(cell_texts(cells@), cell_widths(cells@), width as nat).len(),
        forall|r: int|
            0 <= r < lines@.len() ==> (#[trigger] lines@[r])@ == grid(
                cell_texts(cells@),
                cell_widths(cells@),
                width as nat,
            )[r],
{
    let ghost texts = cell_texts(cells@);
    let ghost widths = cell_widths(cells@);
    let count = cells.len();
    let most = widest_cell(cells);
    let column: u128 = most as u128 + GUTTER as u128;
    let fit: u128 = width as u128 / column;
    let columns: usize = if fit == 0 {
        1
    } else {
        fit as usize
    };
    proof {
        lemma_grid_holds_all(count as nat, columns as nat);
    }
    let rows: usize = if count % columns == 0 {
        count / columns
    } else {
        count / columns + 1
    };
    assert(rows == grid_rows(texts.len(), grid_columns(column_width(widths), width as nat)));
    let mut lines: Vec<String> = Vec::new();
    let mut r: usize = 0;
    while r < rows
        invariant
            r <= rows,
            rows <= count,
            count == cells.len(),
            texts == cell_texts(cells@),
            widths == cell_widths(cells@),
            column == most + GUTTER,
            forall|i: int| 0 <= i < cells@.len() ==> (#[trigger] cells@[i]).width <= most,
            lines@.len() == r,
            forall|k: int|
                0 <= k < r ==> (#[trigger] lines@[k])@ == row_from(
                    texts,
                    widths,
                    rows as nat,
                    column as nat,
                    k as nat,
                ),
        decreases rows - r,
    {
        let mut line = String::new();
        let mut i: usize = r;
        assert(line@ + row_from(texts, widths, rows as nat, column as nat, i as nat) =~= row_from(
            texts,
            widths,
            rows as nat,
            column as nat,
            r as nat,
        ));
        while count - i > rows
            invariant
                i < count,
                0 < rows,
                count == cells.len(),
                texts == cell_texts(cells@),
                widths == cell_widths(cells@),
                column == most + GUTTER,
                forall|k: int| 0 <= k < cells@.len() ==> (#[trigger] cells@[k]).width <= most,
                line@ + row_from(texts, widths, rows as nat, column as nat, i as nat) == row_from(
                    texts,
                    widths,
                    rows as nat,
                    column as nat,
                    r as nat,
                ),
            decreases count - i,
        {
            let ghost before = line@;
            let cell = &cells[i];
            line.append(cell.text.as_str());
            push_spaces(&mut line, column - cell.width as u128);
            proof {
                assert(texts[i as int] == cell.text@);
                assert(widths[i as int] == cell.width as nat);
                assert(line@ + row_from(
                    texts,
                    widths,
                    rows as nat,
                    column as nat,
                    (i + rows) as nat,
                ) =~= before + row_from(texts, widths, rows as nat, column as nat, i as nat));
            }
            i += rows;
        }
        let ghost before = line@;
        line.append(cells[i].text.as_str());
        proof {
            assert(texts[i as int] == cells@[i as int].text@);
            assert(line@ =~= before + row_from(
                texts,
                widths,
                rows as nat,
                column as nat,
                i as nat,
            ));
        }
        lines.push(line);
        r += 1;
    }
    lines
}

} // verus!
