use vstd::prelude::*;
use vstd::string::StringExecFns;
use crate::error::ZError;
use crate::data::numeric::{is_float_text, is_numeric};
use crate::text::{decimal_of, joined_with, push_decimal, push_joined, text_eq};

verus! {

/// A table read from a CSV or TSV file: a header row and data rows. A row
/// may be shorter or longer than the header row.
#[derive(Debug, Clone)]
pub struct CsvData {
    pub headers: Vec<String>,
    pub rows: Vec<Vec<String>>,
}

/// Rows shown by [`CsvData::summary`] at most.
pub const PREVIEW_ROWS: usize = 3;

/// Index of the first item at or after `from` that is `name`, or
/// `items.len()` if there is none.
pub open spec fn first_named(items: Seq<Seq<char>>, name: Seq<char>, from: int) -> int
    decreases items.len() - from,
{
    if from < 0 || from >= items.len() {
        items.len() as int
    } else if items[from] == name {
        from
    } else {
        first_named(items, name, from + 1)
    }
}

/// The cells of column `index`, top to bottom; a row too short to have the
/// column gives none.
pub open spec fn column_cells(rows: Seq<Seq<Seq<char>>>, index: int) -> Seq<Seq<char>>
    decreases rows.len(),
{
    if rows.len() == 0 {
        Seq::empty()
    } else if 0 <= index < rows.last().len() {
        column_cells(rows.drop_last(), index).push(rows.last()[index])
    } else {
        column_cells(rows.drop_last(), index)
    }
}

/// Number of cells that are not empty.
pub open spec fn filled(cells: Seq<Seq<char>>) -> nat
    decreases cells.len(),
{
    if cells.len() == 0 {
        0
    } else {
        filled(cells.drop_last()) + if cells.last().len() > 0 {
            1nat
        } else {
            0nat
        }
    }
}

/// Number of cells that are not empty and are written as numbers.
pub open spec fn numeric(cells: Seq<Seq<char>>) -> nat
    decreases cells.len(),
{
    if cells.len() == 0 {
        0
    } else {
        numeric(cells.drop_last()) + if cells.last().len() > 0 && is_float_text(cells.last()) {
            1nat
        } else {
            0nat
        }
    }
}

/// True iff the column holds numbers: it has a cell that is not empty, and
/// at least half of such cells are written as numbers.
pub open spec fn is_numeric_column(rows: Seq<Seq<Seq<char>>>, index: int) -> bool {
    let cells = column_cells(rows, index);
    filled(cells) > 0 && 2 * numeric(cells) >= filled(cells)
}

/// The numeric columns among the first `n`, in order.
pub open spec fn numeric_columns(rows: Seq<Seq<Seq<char>>>, n: nat) -> Seq<usize>
    decreases n,
{
    if n == 0 {
        Seq::empty()
    } else if is_numeric_column(rows, n - 1) {
        numeric_columns(rows, (n - 1) as nat).push((n - 1) as usize)
    } else {
        numeric_columns(rows, (n - 1) as nat)
    }
}

/// The headers at the given indices, in that order.
pub open spec fn names_at(headers: Seq<Seq<char>>, indices: Seq<usize>) -> Seq<Seq<char>>
    decreases indices.len(),
{
    if indices.len() == 0 {
        Seq::empty()
    } else if indices.last() < headers.len() {
        names_at(headers, indices.drop_last()).push(headers[indices.last() as int])
    } else {
        names_at(headers, indices.drop_last())
    }
}

/// The first `n` rows as numbered lines: `  1: a, b, c`.
pub open spec fn rows_shown(rows: Seq<Seq<Seq<char>>>, n: nat) -> Seq<char>
    decreases n,
{
    if n == 0 {
        Seq::empty()
    } else {
        rows_shown(rows, (n - 1) as nat) + "  "@ + decimal_of(n) + ": "@ + joined_with(
            rows[n - 1],
            ", "@,
        ) + "\n"@
    }
}

/// The summary of a table: its size, its columns, its numeric columns if
/// it has any, and its first three rows if it has rows.
pub open spec fn table_shown(headers: Seq<Seq<char>>, rows: Seq<Seq<Seq<char>>>) -> Seq<char> {
    let numeric = numeric_columns(rows, headers.len());
    let shown = if rows.len() < PREVIEW_ROWS {
        rows.len()
    } else {
        PREVIEW_ROWS as nat
    };
    "CSV Data: "@ + decimal_of(rows.len()) + " rows x "@ + decimal_of(headers.len())
        + " columns\n"@ + "Columns: "@ + joined_with(headers, ", "@) + "\n"@ + (if numeric.len()
        > 0 {
        "Numeric columns: "@ + joined_with(names_at(headers, numeric), ", "@) + "\n"@
    } else {
        Seq::empty()
    }) + (if shown > 0 {
        "\nFirst "@ + decimal_of(shown) + " rows:\n"@ + rows_shown(rows, shown)
    } else {
        Seq::empty()
    })
}

/// True iff the row has a number in each of the columns.
pub open spec fn row_complete(row: Seq<Seq<char>>, columns: Seq<usize>) -> bool {
    forall|k: int|
        0 <= k < columns.len() ==> (#[trigger] columns[k]) < row.len() && is_float_text(
            row[columns[k] as int],
        )
}

/// The rows among the first `n` that have a number in each of the
/// columns, in order.
pub open spec fn complete_rows(rows: Seq<Seq<Seq<char>>>, columns: Seq<usize>, n: nat) -> Seq<
    usize,
>
    decreases n,
{
    if n == 0 {
        Seq::empty()
    } else if row_complete(rows[n - 1], columns) {
        complete_rows(rows, columns, (n - 1) as nat).push((n - 1) as usize)
    } else {
        complete_rows(rows, columns, (n - 1) as nat)
    }
}

impl CsvData {
    /// True iff row `index` has a number in each of the columns.
    pub fn row_is_complete(&self, index: usize, columns: &Vec<usize>) -> (r: bool)
        requires
            index < self.rows.len(),
        ensures
            r == row_complete(self.rows.deep_view()[index as int], columns@),
    {
        let row = &self.rows[index];
        let ghost cells = self.rows.deep_view()[index as int];
        assert(cells == row.deep_view());
        let mut k: usize = 0;
        while k < columns.len()
            invariant
                k <= columns.len(),
                index < self.rows.len(),
                cells == row.deep_view(),
                cells == self.rows.deep_view()[index as int],
                forall|j: int|
                    0 <= j < k ==> (#[trigger] columns[j]) < row.len() && is_float_text(
                        cells[columns[j] as int],
                    ),
            decreases columns.len() - k,
        {
            let at = columns[k];
            if at >= row.len() {
                assert(!(columns@[k as int] < cells.len()));
                return false;
            }
            assert(cells[at as int] == row[at as int]@);
            if !is_numeric(row[at].as_str()) {
                assert(!is_float_text(cells[columns@[k as int] as int]));
                return false;
            }
            k += 1;
        }
        true
    }

    /// The columns and the rows that an analysis works on: the numeric
    /// columns, and the rows that have a number in each of them. A table
    /// without numeric columns, or without such a row, is an error.
    pub fn feature_rows(&self) -> (r: Result<(Vec<usize>, Vec<usize>), ZError>)
        ensures
            match r {
                Ok((columns, rows)) => {
                    &&& columns@ == numeric_columns(
                        self.rows.deep_view(),
                        self.headers.len() as nat,
                    )
                    &&& rows@ == complete_rows(
                        self.rows.deep_view(),
                        columns@,
                        self.rows.len() as nat,
                    )
                    &&& columns.len() > 0
                    &&& rows.len() > 0
                },
                Err(e) => {
                    let columns = numeric_columns(self.rows.deep_view(), self.headers.len() as nat);
                    e is Ml && if columns.len() == 0 {
                        e->Ml_0@ == "No numeric columns found"@
                    } else {
                        complete_rows(self.rows.deep_view(), columns, self.rows.len() as nat).len()
                            == 0 && e->Ml_0@ == "No complete rows with numeric data"@
                    }
                },
            },
    {
        let columns = self.numeric_column_indices();
        if columns.len() == 0 {
            return Err(ZError::Ml(String::from_str("No numeric columns found")));
        }
        let mut rows: Vec<usize> = Vec::new();
        let mut i: usize = 0;
        while i < self.rows.len()
            invariant
                i <= self.rows.len(),
                rows@ == complete_rows(self.rows.deep_view(), columns@, i as nat),
            decreases self.rows.len() - i,
        {
            if self.row_is_complete(i, &columns) {
                rows.push(i);
            }
            i += 1;
        }
        if rows.len() == 0 {
            return Err(ZError::Ml(String::from_str("No complete rows with numeric data")));
        }
        Ok((columns, rows))
    }

    /// Number of data rows.
    pub fn row_count(&self) -> (n: usize)
        ensures
            n == self.rows.len(),
    {
        self.rows.len()
    }

    /// Number of columns, which is the number of headers.
    pub fn col_count(&self) -> (n: usize)
        ensures
            n == self.headers.len(),
    {
        self.headers.len()
    }

    /// Index of the first column with the given header.
    pub fn column_index(&self, name: &str) -> (r: Option<usize>)
        ensures
            match r {
                Some(i) => i < self.headers.len() && i == first_named(
                    self.headers.deep_view(),
                    name@,
                    0,
                ),
                None => first_named(self.headers.deep_view(), name@, 0) == self.headers.len(),
            },
    {
        let mut i: usize = 0;
        while i < self.headers.len()
            invariant
                i <= self.headers.len(),
                first_named(self.headers.deep_view(), name@, 0) == first_named(
                    self.headers.deep_view(),
                    name@,
                    i as int,
                ),
            decreases self.headers.len() - i,
        {
            assert(self.headers.deep_view()[i as int] == self.headers[i as int]@);
            if text_eq(self.headers[i].as_str(), name) {
                return Some(i);
            }
            i += 1;
        }
        None
    }

    /// The cells of column `index`, top to bottom, or `None` if the table
    /// has no such column. A row too short to have the column is skipped.
    pub fn column(&self, index: usize) -> (r: Option<Vec<&str>>)
        ensures
            r.deep_view() == if index < self.headers.len() {
                Some(column_cells(self.rows.deep_view(), index as int))
            } else {
                None
            },
    {
        if index >= self.headers.len() {
            return None;
        }
        let ghost all = self.rows.deep_view();
        let mut cells: Vec<&str> = Vec::new();
        let mut i: usize = 0;
        while i < self.rows.len()
            invariant
                i <= self.rows.len(),
                all == self.rows.deep_view(),
                cells.deep_view() == column_cells(all.take(i as int), index as int),
            decreases self.rows.len() - i,
        {
            assert(all.take(i + 1).drop_last() == all.take(i as int));
            assert(all.take(i + 1).last() == self.rows[i as int].deep_view());
            let row = &self.rows[i];
            if index < row.len() {
                let ghost before = cells.deep_view();
                let cell = row[index].as_str();
                cells.push(cell);
                assert(cells.deep_view() == before.push(cell@));
                assert(row.deep_view()[index as int] == row[index as int]@);
            }
            i += 1;
        }
        assert(all.take(self.rows.len() as int) == all);
        Some(cells)
    }

    /// True iff column `index` holds numbers.
    pub fn column_is_numeric(&self, index: usize) -> (r: bool)
        ensures
            r == is_numeric_column(self.rows.deep_view(), index as int),
    {
        let ghost all = self.rows.deep_view();
        let ghost cells = column_cells(all, index as int);
        let mut some: usize = 0;
        let mut good: usize = 0;
        let mut i: usize = 0;
        while i < self.rows.len()
            invariant
                i <= self.rows.len(),
                all == self.rows.deep_view(),
                some == filled(column_cells(all.take(i as int), index as int)),
                good == numeric(column_cells(all.take(i as int), index as int)),
                good <= some <= i,
            decreases self.rows.len() - i,
        {
            assert(all.take(i + 1).drop_last() == all.take(i as int));
            assert(all.take(i + 1).last() == self.rows[i as int].deep_view());
            let row = &self.rows[i];
            if index < row.len() {
                let ghost before = column_cells(all.take(i as int), index as int);
                assert(row.deep_view()[index as int] == row[index as int]@);
                assert(before.push(row[index as int]@).drop_last() == before);
                let cell = row[index].as_str();
                if !cell.is_empty() {
                    some += 1;
                    if is_numeric(cell) {
                        good += 1;
                    }
                }
            }
            i += 1;
        }
        assert(all.take(self.rows.len() as int) == all);
        some > 0 && good >= some - good
    }

    /// The columns that hold numbers, in order.
    pub fn numeric_column_indices(&self) -> (r: Vec<usize>)
        ensures
            r@ == numeric_columns(self.rows.deep_view(), self.headers.len() as nat),
    {
        let mut r: Vec<usize> = Vec::new();
        let mut i: usize = 0;
        while i < self.headers.len()
            invariant
                i <= self.headers.len(),
                r@ == numeric_columns(self.rows.deep_view(), i as nat),
            decreases self.headers.len() - i,
        {
            if self.column_is_numeric(i) {
                r.push(i);
            }
            i += 1;
        }
        r
    }

    /// Row `index`, if the table has it.
    pub fn row(&self, index: usize) -> (r: Option<&Vec<String>>)
        ensures
            r == if index < self.rows.len() {
                Some(&self.rows[index as int])
            } else {
                None
            },
    {
        if index < self.rows.len() {
            Some(&self.rows[index])
        } else {
            None
        }
    }

    /// A summary of the table for a reader.
    pub fn summary(&self) -> (s: String)
        ensures
            s@ == table_shown(self.headers.deep_view(), self.rows.deep_view()),
    {
        let ghost headers = self.headers.deep_view();
        let ghost rows = self.rows.deep_view();
        let mut out = String::from_str("CSV Data: ");
        push_decimal(&mut out, self.rows.len() as u64);
        out.append(" rows x ");
        push_decimal(&mut out, self.headers.len() as u64);
        out.append(" columns\n");
        out.append("Columns: ");
        push_joined(&mut out, &self.headers, ", ");
        out.append("\n");
        let ghost head = out@;
        let numeric = self.numeric_column_indices();
        if numeric.len() > 0 {
            let mut names: Vec<String> = Vec::new();
            let mut i: usize = 0;
            while i < numeric.len()
                invariant
                    i <= numeric.len(),
                    headers == self.headers.deep_view(),
                    names.deep_view() == names_at(headers, numeric@.take(i as int)),
                decreases numeric.len() - i,
            {
                assert(numeric@.take(i + 1).drop_last() == numeric@.take(i as int));
                let at = numeric[i];
                if at < self.headers.len() {
                    let ghost before = names.deep_view();
                    names.push(self.headers[at].clone());
                    assert(names.deep_view() == before.push(self.headers[at as int]@));
                    assert(headers[at as int] == self.headers[at as int]@);
                }
                i += 1;
            }
            assert(numeric@.take(numeric.len() as int) == numeric@);
            out.append("Numeric columns: ");
            push_joined(&mut out, &names, ", ");
            out.append("\n");
        }
        let ghost middle = out@;
        let shown = if self.rows.len() < PREVIEW_ROWS {
            self.rows.len()
        } else {
            PREVIEW_ROWS
        };
        if shown > 0 {
            out.append("\nFirst ");
            push_decimal(&mut out, shown as u64);
            out.append(" rows:\n");
            let ghost start = out@;
            let mut i: usize = 0;
            while i < shown
                invariant
                    i <= shown <= self.rows.len(),
                    rows == self.rows.deep_view(),
                    out@ == start + rows_shown(rows, i as nat),
                decreases shown - i,
            {
                let ghost before = rows_shown(rows, i as nat);
                out.append("  ");
                push_decimal(&mut out, (i + 1) as u64);
                out.append(": ");
                push_joined(&mut out, &self.rows[i], ", ");
                out.append("\n");
                assert(rows[i as int] == self.rows[i as int].deep_view());
                assert(out@ == start + (before + "  "@ + decimal_of((i + 1) as nat) + ": "@
                    + joined_with(rows[i as int], ", "@) + "\n"@));
                i += 1;
            }
        }
        out
    }
}

} // verus!
