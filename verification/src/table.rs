//! Plain-text tables.

use vstd::prelude::*;

use crate::text::{
    byte_count, chars_of, join_with, joined, lemma_texts_push, texts, utf8_len,
};

verus! {

/// How wide a column is.
#[derive(Clone, Copy, Debug, Eq, PartialEq, Structural)]
pub enum Fit {
    /// As wide as its widest cell, on the left.
    Widest,
    /// Of a fixed width, on the left.
    Left(u128),
    /// Of a fixed width, on the right.
    Right(u128),
    /// As wide as each cell.
    Ragged,
}

/// So many spaces.
pub open spec fn spaces(n: nat) -> Seq<char> {
    Seq::new(n, |i: int| ' ')
}

/// The spaces that bring a cell to a width, counted in characters.
pub open spec fn padding(cell: Seq<char>, width: nat) -> Seq<char> {
    spaces(
        if cell.len() < width {
            (width - cell.len()) as nat
        } else {
            0
        },
    )
}

/// The number of bytes of the widest of some cells, and of a heading.
pub open spec fn widest(heading: Seq<char>, cells: Seq<Seq<char>>) -> nat
    decreases cells.len(),
{
    if cells.len() == 0 {
        utf8_len(heading)
    } else {
        let before = widest(heading, cells.drop_last());
        if before < utf8_len(cells.last()) {
            utf8_len(cells.last())
        } else {
            before
        }
    }
}

/// The cells of a column.
pub open spec fn column(rows: Seq<Seq<Seq<char>>>, k: int) -> Seq<Seq<char>> {
    rows.map_values(|row: Seq<Seq<char>>| row[k])
}

/// A cell as it stands in a column of the given kind and widest cell.
pub open spec fn fitted(cell: Seq<char>, fit: Fit, width: nat) -> Seq<char> {
    match fit {
        Fit::Widest => cell + padding(cell, width),
        Fit::Left(fixed) => cell + padding(cell, fixed as nat),
        Fit::Right(fixed) => padding(cell, fixed as nat) + cell,
        Fit::Ragged => cell,
    }
}

/// A row as a line.
pub open spec fn row_line(
    cells: Seq<Seq<char>>,
    fits: Seq<Fit>,
    headings: Seq<Seq<char>>,
    rows: Seq<Seq<Seq<char>>>,
) -> Seq<char> {
    joined(
        Seq::new(
            cells.len(),
            |k: int| fitted(cells[k], fits[k], widest(headings[k], column(rows, k))),
        ),
        "  "@,
    )
}

/// A table: its headings and its rows as lines.
pub open spec fn table(
    fits: Seq<Fit>,
    headings: Seq<Seq<char>>,
    rows: Seq<Seq<Seq<char>>>,
) -> Seq<Seq<char>> {
    seq![row_line(headings, fits, headings, rows)] + rows.map_values(
        |cells: Seq<Seq<char>>| row_line(cells, fits, headings, rows),
    )
}

/// Rows as text.
pub open spec fn row_texts(rows: Seq<Vec<String>>) -> Seq<Seq<Seq<char>>> {
    rows.map_values(|row: Vec<String>| texts(row@))
}

/// Adds the spaces that bring a cell to a width.
pub fn push_spaces(line: &mut String, cell: &str, width: u128)
    ensures
        final(line)@ == old(line)@ + padding(cell@, width as nat),
{
    let chars: Vec<char> = chars_of(cell);
    let mut n: u128 = chars.len() as u128;
    let ghost before = line@;
    let ghost start = n;
    assert(line@ =~= before + spaces(0));
    while n < width
        invariant
            start <= n,
            start == cell@.len(),
            n <= width || n == start,
            line@ == before + spaces((n - start) as nat),
        decreases width - n,
    {
        line.push(' ');
        n += 1;
        assert(line@ =~= before + spaces((n - start) as nat));
    }
}

fn fit_cell(cell: &str, fit: Fit, width: u128) -> (r: String)
    ensures
        r@ == fitted(cell@, fit, width as nat),
{
    match fit {
        Fit::Widest => {
            let mut r: String = cell.to_owned();
            push_spaces(&mut r, cell, width);
            r
        },
        Fit::Left(fixed) => {
            let mut r: String = cell.to_owned();
            push_spaces(&mut r, cell, fixed);
            r
        },
        Fit::Right(fixed) => {
            let mut r: String = String::new();
            push_spaces(&mut r, cell, fixed);
            assert(r@ =~= padding(cell@, fixed as nat));
            r.append(cell);
            r
        },
        Fit::Ragged => cell.to_owned(),
    }
}

fn widest_of(heading: &str, rows: &Vec<Vec<String>>, k: usize) -> (r: u128)
    requires
        forall|i: int| 0 <= i < rows@.len() ==> k < (#[trigger] rows@[i])@.len(),
    ensures
        r == widest(heading@, column(row_texts(rows@), k as int)),
{
    let ghost cells = column(row_texts(rows@), k as int);
    let mut r: u128 = byte_count(heading);
    let mut i: usize = 0;
    assert(cells.take(0) =~= Seq::<Seq<char>>::empty());
    while i < rows.len()
        invariant
            i <= rows@.len(),
            forall|j: int| 0 <= j < rows@.len() ==> k < (#[trigger] rows@[j])@.len(),
            cells == column(row_texts(rows@), k as int),
            r == widest(heading@, cells.take(i as int)),
        decreases rows@.len() - i,
    {
        let bytes: u128 = byte_count(rows[i][k].as_str());
        proof {
            assert(cells.take(i + 1).drop_last() =~= cells.take(i as int));
            assert(row_texts(rows@)[i as int] == texts(rows@[i as int]@));
            assert(cells.take(i + 1).last() == rows@[i as int]@[k as int]@);
        }
        if r < bytes {
            r = bytes;
        }
        i += 1;
    }
    assert(cells.take(i as int) =~= cells);
    r
}

fn render_row(cells: &Vec<String>, fits: &Vec<Fit>, widths: &Vec<u128>) -> (r: String)
    requires
        cells@.len() == fits@.len() == widths@.len(),
    ensures
        r@ == joined(
            Seq::new(
                cells@.len(),
                |k: int| fitted(cells@[k]@, fits@[k], widths@[k] as nat),
            ),
            "  "@,
        ),
{
    let mut parts: Vec<String> = Vec::new();
    let mut k: usize = 0;
    while k < cells.len()
        invariant
            k <= cells@.len(),
            cells@.len() == fits@.len() == widths@.len(),
            parts@.len() == k,
            forall|j: int|
                0 <= j < k ==> (#[trigger] parts@[j])@ == fitted(
                    cells@[j]@,
                    fits@[j],
                    widths@[j] as nat,
                ),
        decreases cells@.len() - k,
    {
        parts.push(fit_cell(cells[k].as_str(), fits[k], widths[k]));
        k += 1;
    }
    assert(texts(parts@) =~= Seq::new(
        cells@.len(),
        |k: int| fitted(cells@[k]@, fits@[k], widths@[k] as nat),
    ));
    join_with(&parts, "  ")
}

/// The lines of a table. Every row has a cell for every heading.
pub fn render_table(fits: &Vec<Fit>, headings: &Vec<String>, rows: &Vec<Vec<String>>) -> (r: Vec<
    String,
>)
    requires
        fits@.len() == headings@.len(),
        forall|i: int| 0 <= i < rows@.len() ==> (#[trigger] rows@[i])@.len() == headings@.len(),
    ensures
        texts(r@) == table(fits@, texts(headings@), row_texts(rows@)),
{
    let ghost heads = texts(headings@);
    let ghost views = row_texts(rows@);
    let mut widths: Vec<u128> = Vec::new();
    let mut k: usize = 0;
    while k < headings.len()
        invariant
            k <= headings@.len(),
            forall|i: int| 0 <= i < rows@.len() ==> (#[trigger] rows@[i])@.len() == headings@.len(),
            heads == texts(headings@),
            views == row_texts(rows@),
            widths@.len() == k,
            forall|j: int|
                0 <= j < k ==> #[trigger] widths@[j] == widest(heads[j], column(views, j)),
        decreases headings@.len() - k,
    {
        widths.push(widest_of(headings[k].as_str(), rows, k));
        k += 1;
    }
    let mut r: Vec<String> = Vec::new();
    let first: String = render_row(headings, fits, &widths);
    proof {
        assert(Seq::new(
            headings@.len(),
            |k: int| fitted(headings@[k]@, fits@[k], widths@[k] as nat),
        ) =~= Seq::new(
            heads.len(),
            |k: int| fitted(heads[k], fits@[k], widest(heads[k], column(views, k))),
        ));
        assert(first@ == row_line(heads, fits@, heads, views));
    }
    r.push(first);
    let mut i: usize = 0;
    assert(texts(r@) =~= table(fits@, heads, views).take(1));
    while i < rows.len()
        invariant
            i <= rows@.len(),
            fits@.len() == headings@.len() == widths@.len(),
            forall|i: int| 0 <= i < rows@.len() ==> (#[trigger] rows@[i])@.len() == headings@.len(),
            heads == texts(headings@),
            views == row_texts(rows@),
            forall|j: int|
                0 <= j < widths@.len() ==> #[trigger] widths@[j] == widest(
                    heads[j],
                    column(views, j),
                ),
            texts(r@) == table(fits@, heads, views).take(i + 1),
        decreases rows@.len() - i,
    {
        let line: String = render_row(&rows[i], fits, &widths);
        proof {
            let cells = rows@[i as int]@;
            assert(views[i as int] == texts(cells));
            assert(Seq::new(
                cells.len(),
                |k: int| fitted(cells[k]@, fits@[k], widths@[k] as nat),
            ) =~= Seq::new(
                texts(cells).len(),
                |k: int| fitted(texts(cells)[k], fits@[k], widest(heads[k], column(views, k))),
            ));
            lemma_texts_push(r@, line);
            let all = table(fits@, heads, views);
            assert(all[i + 1] == row_line(views[i as int], fits@, heads, views));
            assert(all.take(i + 2) =~= all.take(i + 1).push(line@));
        }
        r.push(line);
        i += 1;
    }
    assert(table(fits@, heads, views).take(i + 1) =~= table(fits@, heads, views));
    r
}

} // verus!
