//! Column-aligned text tables: every cell is padded with spaces to the width
//! of the widest cell of its column and followed by a tab. The table's shape
//! is specified over the character sequences of its cells, so callers can
//! state exactly which lines they will print.

use vstd::prelude::*;
use vstd::string::*;
use crate::digits::push_char;

verus! {

/// `n` spaces.
pub open spec fn spaces(n: int) -> Seq<char>
    decreases n,
{
    if n <= 0 {
        Seq::empty()
    } else {
        spaces(n - 1).push(' ')
    }
}

/// The width of column `j`: the length of the longest cell the column holds.
pub open spec fn col_width(rows: Seq<Seq<Seq<char>>>, j: int) -> int
    decreases rows.len(),
{
    if rows.len() == 0 {
        0
    } else {
        let prev = col_width(rows.drop_last(), j);
        let cur = rows.last()[j].len() as int;
        if cur > prev {
            cur
        } else {
            prev
        }
    }
}

/// The first `j` cells of row `i`, each padded to its column's width and
/// followed by a tab.
pub open spec fn line_upto(rows: Seq<Seq<Seq<char>>>, i: int, j: int) -> Seq<char>
    decreases j,
{
    if j <= 0 {
        Seq::empty()
    } else {
        line_upto(rows, i, j - 1) + rows[i][j - 1] + spaces(
            col_width(rows, j - 1) - rows[i][j - 1].len(),
        ) + seq!['\t']
    }
}

/// The rendered line of row `i`.
pub open spec fn spec_line(rows: Seq<Seq<Seq<char>>>, i: int) -> Seq<char> {
    line_upto(rows, i, rows[i].len() as int)
}

/// The cells of a table, as the character sequences the specification
/// speaks of.
pub open spec fn table_views(list: Seq<Vec<String>>) -> Seq<Seq<Seq<char>>> {
    list.map_values(|row: Vec<String>| row@.map_values(|s: String| s@))
}

/// No cell is wider than its column.
proof fn lemma_col_width_bound(rows: Seq<Seq<Seq<char>>>, i: int, j: int)
    requires
        0 <= i < rows.len(),
    ensures
        rows[i][j].len() <= col_width(rows, j),
    decreases rows.len(),
{
    if i < rows.len() - 1 {
        assert(rows.drop_last()[i] == rows[i]);
        lemma_col_width_bound(rows.drop_last(), i, j);
    }
}

/// Appends `n` spaces.
fn push_spaces(s: &mut String, n: usize)
    ensures
        final(s)@ == old(s)@ + spaces(n as int),
{
    let mut k: usize = 0;
    proof {
        assert(old(s)@ + spaces(0) =~= old(s)@);
    }
    while k < n
        invariant
            k <= n,
            s@ == old(s)@ + spaces(k as int),
        decreases n - k,
    {
        push_char(s, ' ');
        proof {
            assert(old(s)@ + spaces(k as int + 1) =~= (old(s)@ + spaces(k as int)).push(' '));
        }
        k = k + 1;
    }
}

/// Renders the table as its lines, one per row, cells padded to their
/// column's width. Every row must have as many cells as the first.
pub fn render_rows(list: &Vec<Vec<String>>) -> (r: Vec<String>)
    requires
        forall|i: int| 0 <= i < list@.len() ==> (#[trigger] list@[i])@.len() == list@[0]@.len(),
    ensures
        r@.len() == list@.len(),
        forall|i: int| 0 <= i < r@.len() ==> (#[trigger] r@[i])@ == spec_line(table_views(list@), i),
{
    let ghost rows = table_views(list@);
    let mut out: Vec<String> = Vec::new();
    if list.len() == 0 {
        return out;
    }
    let ncols: usize = list[0].len();
    let nrows: usize = list.len();

    // first pass: the widths of the columns
    let mut widths: Vec<usize> = Vec::new();
    let mut j: usize = 0;
    while j < ncols
        invariant
            j <= ncols,
            widths@.len() == j,
            forall|t: int| 0 <= t < j ==> widths@[t] == 0,
        decreases ncols - j,
    {
        widths.push(0);
        j = j + 1;
    }
    let mut i: usize = 0;
    proof {
        assert(rows.take(0) =~= Seq::<Seq<Seq<char>>>::empty());
    }
    while i < nrows
        invariant
            i <= nrows,
            nrows == list@.len(),
            rows == table_views(list@),
            rows.len() == nrows,
            forall|t: int| 0 <= t < nrows ==> (#[trigger] list@[t])@.len() == list@[0]@.len(),
            ncols == list@[0]@.len(),
            forall|t: int| 0 <= t < nrows ==> (#[trigger] rows[t]).len() == ncols,
            widths@.len() == ncols,
            forall|t: int| 0 <= t < ncols ==> widths@[t] == col_width(rows.take(i as int), t),
        decreases nrows - i,
    {
        let row = &list[i];
        proof {
            assert(list@[i as int]@.len() == list@[0]@.len());
        }
        let mut jj: usize = 0;
        while jj < ncols
            invariant
                jj <= ncols,
                i < nrows,
                nrows == list@.len(),
                rows == table_views(list@),
                rows.len() == nrows,
                forall|t: int| 0 <= t < nrows ==> (#[trigger] rows[t]).len() == ncols,
                row@ == list@[i as int]@,
                row@.len() == ncols,
                widths@.len() == ncols,
                forall|t: int| jj <= t < ncols ==> widths@[t] == col_width(rows.take(i as int), t),
                forall|t: int|
                    0 <= t < jj ==> widths@[t] == col_width(rows.take(i as int + 1), t),
            decreases ncols - jj,
        {
            let l: usize = row[jj].as_str().unicode_len();
            proof {
                assert(rows.take(i as int + 1).drop_last() =~= rows.take(i as int));
                assert(rows.take(i as int + 1).last() == rows[i as int]);
                assert(rows[i as int][jj as int] == row@[jj as int]@);
            }
            if widths[jj] < l {
                widths.set(jj, l);
            }
            jj = jj + 1;
        }
        i = i + 1;
    }
    proof {
        assert(rows.take(nrows as int) =~= rows);
    }

    // second pass: the lines
    let mut i2: usize = 0;
    while i2 < nrows
        invariant
            i2 <= nrows,
            nrows == list@.len(),
            rows == table_views(list@),
            rows.len() == nrows,
            forall|t: int| 0 <= t < nrows ==> (#[trigger] list@[t])@.len() == list@[0]@.len(),
            ncols == list@[0]@.len(),
            forall|t: int| 0 <= t < nrows ==> (#[trigger] rows[t]).len() == ncols,
            widths@.len() == ncols,
            forall|t: int| 0 <= t < ncols ==> widths@[t] == col_width(rows, t),
            out@.len() == i2,
            forall|t: int| 0 <= t < i2 ==> (#[trigger] out@[t])@ == spec_line(rows, t),
        decreases nrows - i2,
    {
        let row = &list[i2];
        proof {
            assert(list@[i2 as int]@.len() == list@[0]@.len());
        }
        let mut line = String::new();
        let mut jj: usize = 0;
        proof {
            assert(line_upto(rows, i2 as int, 0) =~= Seq::<char>::empty());
            assert(line@ =~= line_upto(rows, i2 as int, 0));
        }
        while jj < ncols
            invariant
                jj <= ncols,
                i2 < nrows,
                nrows == list@.len(),
                rows == table_views(list@),
                rows.len() == nrows,
                forall|t: int| 0 <= t < nrows ==> (#[trigger] rows[t]).len() == ncols,
                row@ == list@[i2 as int]@,
                row@.len() == ncols,
                widths@.len() == ncols,
                forall|t: int| 0 <= t < ncols ==> widths@[t] == col_width(rows, t),
                line@ == line_upto(rows, i2 as int, jj as int),
            decreases ncols - jj,
        {
            let cell = &row[jj];
            let l: usize = cell.as_str().unicode_len();
            proof {
                assert(rows[i2 as int][jj as int] == row@[jj as int]@);
                lemma_col_width_bound(rows, i2 as int, jj as int);
            }
            line.append(cell.as_str());
            push_spaces(&mut line, widths[jj] - l);
            push_char(&mut line, '\t');
            proof {
                assert(line@ =~= line_upto(rows, i2 as int, jj as int + 1));
            }
            jj = jj + 1;
        }
        out.push(line);
        i2 = i2 + 1;
    }
    out
}

} // verus!
