//! The plain-text table of the listing commands: each column padded to its
//! widest cell, four spaces between columns, one dash-rule under the header.

use vstd::prelude::*;

verus! {

pub open spec fn max2(a: int, b: int) -> int {
    if a >= b {
        a
    } else {
        b
    }
}

pub open spec fn spaces(n: int) -> Seq<char>
    decreases n,
{
    if n <= 0 {
        Seq::empty()
    } else {
        spaces(n - 1).push(' ')
    }
}

pub open spec fn dashes(n: int) -> Seq<char>
    decreases n,
{
    if n <= 0 {
        Seq::empty()
    } else {
        dashes(n - 1).push('-')
    }
}

/// `s` padded with spaces on the right up to width `w`; a longer `s` is
/// kept whole.
pub open spec fn pad_to(s: Seq<char>, w: int) -> Seq<char> {
    s + spaces(w - s.len())
}

/// The widest cell of column `c` over the rows from `r` on.
pub open spec fn max_cell_len(rows: Seq<Seq<Seq<char>>>, c: int, r: int) -> int
    decreases rows.len() - r,
{
    if r < 0 || r >= rows.len() {
        0
    } else {
        max2(rows[r][c].len() as int, max_cell_len(rows, c, r + 1))
    }
}

/// The width of column `c`: its widest cell, the header included.
pub open spec fn col_width(headers: Seq<Seq<char>>, rows: Seq<Seq<Seq<char>>>, c: int) -> int {
    max2(headers[c].len() as int, max_cell_len(rows, c, 0))
}

/// One formatted line from column `c` on: each cell padded to its column's
/// width, four spaces after it, a line break after the last.
pub open spec fn row_line(
    headers: Seq<Seq<char>>,
    rows: Seq<Seq<Seq<char>>>,
    row: Seq<Seq<char>>,
    c: int,
) -> Seq<char>
    decreases headers.len() - c,
{
    if c < 0 || c >= headers.len() {
        Seq::empty()
    } else {
        let delim: Seq<char> = if c == headers.len() - 1 {
            "\n"@
        } else {
            "    "@
        };
        pad_to(row[c], col_width(headers, rows, c)) + delim + row_line(headers, rows, row, c + 1)
    }
}

/// The formatted lines of the rows from `r` on.
pub open spec fn data_lines(headers: Seq<Seq<char>>, rows: Seq<Seq<Seq<char>>>, r: int) -> Seq<
    char,
>
    decreases rows.len() - r,
{
    if r < 0 || r >= rows.len() {
        Seq::empty()
    } else {
        row_line(headers, rows, rows[r], 0) + data_lines(headers, rows, r + 1)
    }
}

/// The column widths from `c` on, added up.
pub open spec fn sum_col_widths(headers: Seq<Seq<char>>, rows: Seq<Seq<Seq<char>>>, c: int) -> int
    decreases headers.len() - c,
{
    if c < 0 || c >= headers.len() {
        0
    } else {
        col_width(headers, rows, c) + sum_col_widths(headers, rows, c + 1)
    }
}

/// The whole table: the header line, a dash rule as wide as one data line,
/// a line break, then every row's line.
pub open spec fn table_spec(headers: Seq<Seq<char>>, rows: Seq<Seq<Seq<char>>>) -> Seq<char> {
    row_line(headers, rows, headers, 0) + dashes(
        4 * (headers.len() - 1) + sum_col_widths(headers, rows, 0),
    ) + "\n"@ + data_lines(headers, rows, 0)
}

proof fn lemma_sum_col_widths_bounds(headers: Seq<Seq<char>>, rows: Seq<Seq<Seq<char>>>, c: int)
    requires
        0 <= c <= headers.len(),
    ensures
        sum_col_widths(headers, rows, c) >= 0,
        forall|d: int|
            c <= d < headers.len() ==> #[trigger] col_width(headers, rows, d) >= 0
                && col_width(headers, rows, d) + sum_col_widths(headers, rows, d + 1)
                <= sum_col_widths(headers, rows, c),
    decreases headers.len() - c,
{
    if c < headers.len() {
        lemma_sum_col_widths_bounds(headers, rows, c + 1);
    }
}

/// Formats headers and rows as the aligned table string, every row as wide
/// as the headers.
pub fn generate_table_string(column_headers: &Vec<String>, rows: &Vec<Vec<String>>) -> (r: String)
    requires
        column_headers.len() > 0,
        forall|i: int|
            0 <= i < rows.deep_view().len() ==> (#[trigger] rows.deep_view()[i]).len()
                == column_headers.deep_view().len(),
        4 * (column_headers.deep_view().len() - 1) + sum_col_widths(
            column_headers.deep_view(),
            rows.deep_view(),
            0,
        ) <= usize::MAX,
    ensures
        r@ == table_spec(column_headers.deep_view(), rows.deep_view()),
{
    let ghost hdv = column_headers.deep_view();
    let ghost rdv = rows.deep_view();
    let ncols = column_headers.len();
    let nrows = rows.len();

    // the width of each column
    let mut widths: Vec<usize> = Vec::new();
    let mut c: usize = 0;
    while c < ncols
        invariant
            ncols == column_headers.len(),
            nrows == rows.len(),
            hdv == column_headers.deep_view(),
            rdv == rows.deep_view(),
            forall|i: int| 0 <= i < rdv.len() ==> (#[trigger] rdv[i]).len() == hdv.len(),
            c <= ncols,
            widths.len() == c,
            forall|d: int| 0 <= d < c ==> widths[d] as int == col_width(hdv, rdv, d),
        decreases ncols - c,
    {
        let mut w: usize = column_headers[c].unicode_len();
        let mut r: usize = 0;
        while r < nrows
            invariant
                ncols == column_headers.len(),
                nrows == rows.len(),
                hdv == column_headers.deep_view(),
                rdv == rows.deep_view(),
                forall|i: int| 0 <= i < rdv.len() ==> (#[trigger] rdv[i]).len() == hdv.len(),
                c < ncols,
                r <= nrows,
                col_width(hdv, rdv, c as int) == max2(w as int, max_cell_len(rdv, c as int, r as int)),
            decreases nrows - r,
        {
            let cell_len = rows[r][c].unicode_len();
            if cell_len > w {
                w = cell_len;
            }
            r += 1;
        }
        widths.push(w);
        c += 1;
    }

    // the length of the dash rule
    proof {
        lemma_sum_col_widths_bounds(hdv, rdv, 0);
    }
    let mut sum: usize = 0;
    let mut c2: usize = 0;
    while c2 < ncols
        invariant
            ncols == column_headers.len(),
            hdv == column_headers.deep_view(),
            rdv == rows.deep_view(),
            widths.len() == ncols,
            forall|d: int| 0 <= d < ncols ==> widths[d] as int == col_width(hdv, rdv, d),
            c2 <= ncols,
            sum_col_widths(hdv, rdv, 0) <= usize::MAX,
            sum as int + sum_col_widths(hdv, rdv, c2 as int) == sum_col_widths(hdv, rdv, 0),
        decreases ncols - c2,
    {
        proof {
            lemma_sum_col_widths_bounds(hdv, rdv, 0);
            lemma_sum_col_widths_bounds(hdv, rdv, c2 + 1);
        }
        sum = sum + widths[c2];
        c2 += 1;
    }
    let sep_len: usize = 4 * (ncols - 1) + sum;

    let mut out = String::new();
    append_row_line(&mut out, column_headers, &widths, Ghost(hdv), Ghost(rdv), Ghost(hdv));
    // the dash rule
    let mut k: usize = 0;
    while k < sep_len
        invariant
            k <= sep_len,
            out@ == row_line(hdv, rdv, hdv, 0) + dashes(k as int),
        decreases sep_len - k,
    {
        out.push('-');
        k += 1;
    }
    proof {
        assert(sep_len as int == 4 * (hdv.len() - 1) + sum_col_widths(hdv, rdv, 0));
    }
    out.append("\n");
    // the data lines
    let ghost head_part = row_line(hdv, rdv, hdv, 0) + dashes(
        4 * (hdv.len() - 1) + sum_col_widths(hdv, rdv, 0),
    ) + "\n"@;
    proof {
        assert(out@ =~= head_part);
        assert(head_part + Seq::<char>::empty() =~= head_part);
    }
    let mut r2: usize = 0;
    while r2 < nrows
        invariant
            0 < ncols == column_headers.len(),
            nrows == rows.len(),
            hdv == column_headers.deep_view(),
            rdv == rows.deep_view(),
            forall|i: int| 0 <= i < rdv.len() ==> (#[trigger] rdv[i]).len() == hdv.len(),
            widths.len() == ncols,
            forall|d: int| 0 <= d < ncols ==> widths[d] as int == col_width(hdv, rdv, d),
            r2 <= nrows,
            head_part + data_lines(hdv, rdv, 0) == out@ + data_lines(hdv, rdv, r2 as int),
        decreases nrows - r2,
    {
        let ghost prev = out@;
        append_row_line(&mut out, &rows[r2], &widths, Ghost(hdv), Ghost(rdv), Ghost(rdv[r2 as int]));
        proof {
            assert((prev + row_line(hdv, rdv, rdv[r2 as int], 0)) + data_lines(hdv, rdv, r2 + 1)
                =~= prev + (row_line(hdv, rdv, rdv[r2 as int], 0) + data_lines(hdv, rdv, r2 + 1)));
        }
        r2 += 1;
    }
    proof {
        assert(data_lines(hdv, rdv, nrows as int) =~= Seq::<char>::empty());
        assert(out@ + Seq::<char>::empty() =~= out@);
        assert(out@ == head_part + data_lines(hdv, rdv, 0));
        assert(head_part + data_lines(hdv, rdv, 0) =~= table_spec(hdv, rdv));
    }
    out
}

/// Appends one formatted line: each cell padded to its column width, four
/// spaces between columns, a line break at the end.
fn append_row_line(
    out: &mut String,
    row: &Vec<String>,
    widths: &Vec<usize>,
    Ghost(hdv): Ghost<Seq<Seq<char>>>,
    Ghost(rdv): Ghost<Seq<Seq<Seq<char>>>>,
    Ghost(rowdv): Ghost<Seq<Seq<char>>>,
)
    requires
        row.deep_view() == rowdv,
        rowdv.len() == hdv.len(),
        hdv.len() > 0,
        widths.len() == hdv.len(),
        forall|d: int| 0 <= d < hdv.len() ==> widths[d] as int == col_width(hdv, rdv, d),
    ensures
        final(out)@ == old(out)@ + row_line(hdv, rdv, rowdv, 0),
{
    let ncols = row.len();
    let mut c: usize = 0;
    proof {
        assert(old(out)@ + Seq::<char>::empty() =~= old(out)@);
    }
    while c < ncols
        invariant
            ncols == row.len(),
            row.deep_view() == rowdv,
            rowdv.len() == hdv.len(),
            widths.len() == hdv.len(),
            forall|d: int| 0 <= d < hdv.len() ==> widths[d] as int == col_width(hdv, rdv, d),
            c <= ncols,
            old(out)@ + row_line(hdv, rdv, rowdv, 0) == out@ + row_line(hdv, rdv, rowdv, c as int),
        decreases ncols - c,
    {
        let ghost before_cell = out@;
        let cell = &row[c];
        let cell_len = cell.unicode_len();
        out.append(cell.as_str());
        let w = widths[c];
        let mut k: usize = cell_len;
        proof {
            assert(out@ =~= before_cell + rowdv[c as int] + spaces(0));
        }
        while k < w
            invariant
                k >= cell_len,
                k <= w || k == cell_len,
                cell_len == rowdv[c as int].len(),
                c < widths.len(),
                w as int == col_width(hdv, rdv, c as int),
                out@ == before_cell + rowdv[c as int] + spaces(k - cell_len),
            decreases w - k,
        {
            out.push(' ');
            proof {
                assert(before_cell + rowdv[c as int] + spaces(k - cell_len + 1) =~= (before_cell
                    + rowdv[c as int] + spaces(k - cell_len)).push(' '));
            }
            k += 1;
        }
        proof {
            let cw = col_width(hdv, rdv, c as int);
            if cell_len < w {
                assert(out@ =~= before_cell + (rowdv[c as int] + spaces(cw - cell_len)));
            } else {
                assert(spaces(cw - cell_len) =~= Seq::<char>::empty());
                assert(out@ =~= before_cell + (rowdv[c as int] + spaces(cw - cell_len)));
            }
            assert(out@ == before_cell + pad_to(rowdv[c as int], cw));
        }
        if c == ncols - 1 {
            out.append("\n");
        } else {
            out.append("    ");
        }
        proof {
            let cw = col_width(hdv, rdv, c as int);
            let delim: Seq<char> = if c as int == hdv.len() - 1 {
                "\n"@
            } else {
                "    "@
            };
            assert(out@ =~= before_cell + (pad_to(rowdv[c as int], cw) + delim));
            assert(row_line(hdv, rdv, rowdv, c as int) == pad_to(rowdv[c as int], cw) + delim
                + row_line(hdv, rdv, rowdv, c + 1));
            assert(out@ + row_line(hdv, rdv, rowdv, c + 1) =~= before_cell + row_line(
                hdv,
                rdv,
                rowdv,
                c as int,
            ));
        }
        c += 1;
    }
    proof {
        assert(row_line(hdv, rdv, rowdv, ncols as int) =~= Seq::<char>::empty());
        assert(out@ + Seq::<char>::empty() =~= out@);
    }
}

} // verus!
