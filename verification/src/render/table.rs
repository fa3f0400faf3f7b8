//! Tables: cells trimmed, columns padded to a common width of at least three,
//! the head set off by a rule of dashes.

use vstd::prelude::*;
use crate::style::{
    Style, StyledText, StyledView, chars_of, extends, lemma_extends_trans, lemma_write_runs, plain,
};
use crate::text::{
    is_white_space, is_whitespace, lemma_trim_end, lemma_trim_end_prefix, lemma_trim_start,
    lemma_trim_start_suffix, repeat, trim, trim_end, trim_start, push_repeat,
};

verus! {

/// What a row of cells holds: each cell's characters with their styles.
pub open spec fn cells_view(row: Seq<Vec<(Style, char)>>) -> Seq<Seq<(Style, char)>> {
    row.map_values(|c: Vec<(Style, char)>| c@)
}

/// What a sequence of rows holds.
pub open spec fn rows_view(rows: Seq<Vec<Vec<(Style, char)>>>) -> Seq<Seq<Seq<(Style, char)>>> {
    rows.map_values(|r: Vec<Vec<(Style, char)>>| cells_view(r@))
}

/// The text of each cell of `row`, without styles.
pub open spec fn plain_row(row: Seq<Seq<(Style, char)>>) -> Seq<Seq<char>> {
    row.map_values(|c: Seq<(Style, char)>| chars_of(c))
}

/// The text of each cell of each row, without styles.
pub open spec fn plain_rows(rows: Seq<Seq<Seq<(Style, char)>>>) -> Seq<Seq<Seq<char>>> {
    rows.map_values(|r: Seq<Seq<(Style, char)>>| plain_row(r))
}

/// A cell with white space removed at both ends; the characters left keep
/// their styles.
pub open spec fn trim_cell(c: Seq<(Style, char)>) -> Seq<(Style, char)> {
    let t = chars_of(c);
    let a = t.len() - trim_start(t).len();
    c.subrange(a, a + trim(t).len())
}

/// Trimming a cell trims its text.
pub proof fn lemma_trim_cell(c: Seq<(Style, char)>)
    ensures
        chars_of(trim_cell(c)) == trim(chars_of(c)),
{
    let t = chars_of(c);
    lemma_trim_start_suffix(t);
    let u = trim_start(t);
    lemma_trim_end_prefix(u);
    let a = t.len() - u.len();
    assert(chars_of(trim_cell(c)) =~= t.skip(a).take(trim(t).len() as int));
}

/// Cell `i` of `row`, trimmed, in its styles; empty when the row is shorter.
pub open spec fn styled_cell(row: Seq<Seq<(Style, char)>>, i: int) -> Seq<(Style, char)> {
    if 0 <= i < row.len() {
        trim_cell(row[i])
    } else {
        Seq::empty()
    }
}

/// The number of columns: the length of the longest row.
pub open spec fn column_count(rows: Seq<Seq<Seq<char>>>) -> nat
    decreases rows.len(),
{
    if rows.len() == 0 {
        0
    } else {
        let w = column_count(rows.drop_last());
        if rows.last().len() > w {
            rows.last().len()
        } else {
            w
        }
    }
}

/// The text of cell `i` of `row`, trimmed; empty when the row is shorter.
pub open spec fn cell_text(row: Seq<Seq<char>>, i: int) -> Seq<char> {
    if 0 <= i < row.len() {
        trim(row[i])
    } else {
        Seq::empty()
    }
}

/// The length of the longest trimmed cell of column `i`.
pub open spec fn widest_cell(rows: Seq<Seq<Seq<char>>>, i: int) -> nat
    decreases rows.len(),
{
    if rows.len() == 0 {
        0
    } else {
        let w = widest_cell(rows.drop_last(), i);
        let c = cell_text(rows.last(), i).len();
        if c > w {
            c
        } else {
            w
        }
    }
}

/// The width of each column: its widest trimmed cell, and at least three.
pub open spec fn column_widths(rows: Seq<Seq<Seq<char>>>) -> Seq<nat> {
    Seq::new(
        column_count(rows),
        |i: int|
            if widest_cell(rows, i) > 3 {
                widest_cell(rows, i)
            } else {
                3nat
            },
    )
}

/// `s` padded with spaces on the right to `w` characters (as `{:<w$}` pads).
pub open spec fn pad(s: Seq<char>, w: nat) -> Seq<char> {
    if s.len() < w {
        s + repeat(' ', (w - s.len()) as nat)
    } else {
        s
    }
}

/// The parts joined with `|` between each two.
pub open spec fn joined(parts: Seq<Seq<char>>) -> Seq<char>
    decreases parts.len(),
{
    if parts.len() == 0 {
        Seq::empty()
    } else if parts.len() == 1 {
        parts[0]
    } else {
        joined(parts.drop_last()) + seq!['|'] + parts.last()
    }
}

/// A line of the table between bars: the parts joined by bars.
pub open spec fn bar_line(parts: Seq<Seq<char>>) -> Seq<char> {
    seq!['|'] + joined(parts) + seq!['|', '\n']
}

/// The columns of the line of `row`: each cell padded to its column's width,
/// with a space on each side.
pub open spec fn row_parts(row: Seq<Seq<char>>, widths: Seq<nat>) -> Seq<Seq<char>> {
    Seq::new(widths.len(), |i: int| seq![' '] + pad(cell_text(row, i), widths[i]) + seq![' '])
}

/// The line of `row`.
pub open spec fn row_line(row: Seq<Seq<char>>, widths: Seq<nat>) -> Seq<char> {
    bar_line(row_parts(row, widths))
}

/// The columns of the rule under the head: dashes as wide as each column,
/// with a space on each side.
pub open spec fn rule_parts(widths: Seq<nat>) -> Seq<Seq<char>> {
    Seq::new(widths.len(), |i: int| seq![' '] + repeat('-', widths[i]) + seq![' '])
}

/// The rule under the head.
pub open spec fn rule_line(widths: Seq<nat>) -> Seq<char> {
    bar_line(rule_parts(widths))
}

/// The lines of the first `k` rows, with the rule after the last row of the
/// head.
pub open spec fn table_lines(
    rows: Seq<Seq<Seq<char>>>,
    widths: Seq<nat>,
    header_count: usize,
    k: int,
) -> Seq<char>
    decreases k,
{
    if k <= 0 {
        Seq::empty()
    } else {
        let before = table_lines(rows, widths, header_count, k - 1) + row_line(
            rows[k - 1],
            widths,
        );
        if header_count > 0 && k == header_count {
            before + rule_line(widths)
        } else {
            before
        }
    }
}

/// The text of a table with rows `rows` of which the first `header_count`
/// form its head; nothing for a table without rows.
pub open spec fn table_text(rows: Seq<Seq<Seq<char>>>, header_count: usize) -> Seq<char> {
    if rows.len() == 0 {
        Seq::empty()
    } else {
        table_lines(rows, column_widths(rows), header_count, rows.len() as int)
    }
}

/// The widths as natural numbers.
pub open spec fn nat_widths(widths: Seq<usize>) -> Seq<nat> {
    Seq::new(widths.len(), |i: int| widths[i] as nat)
}

/// Spaces that pad a cell of `n` characters to `w` characters.
pub open spec fn pad_spaces(n: nat, w: nat) -> Seq<char> {
    if n < w {
        repeat(' ', (w - n) as nat)
    } else {
        Seq::empty()
    }
}

/// The first `k` columns of the line of `row` written after `o`: each cell
/// trimmed and written in its styles, padded with spaces to its column's
/// width, with a space on each side and a bar between each two columns.
pub open spec fn row_cells_view(
    o: StyledView,
    row: Seq<Seq<(Style, char)>>,
    widths: Seq<nat>,
    k: int,
) -> StyledView
    decreases k,
{
    if k <= 0 {
        o
    } else {
        let p = row_cells_view(o, row, widths, k - 1);
        let p = if k > 1 {
            p.write(seq!['|'])
        } else {
            p
        };
        let cell = styled_cell(row, k - 1);
        p.write(seq![' ']).write_styled(cell).write(pad_spaces(cell.len(), widths[k - 1])).write(
            seq![' '],
        )
    }
}

/// The line of `row` written after `o`, between bars.
pub open spec fn row_view(o: StyledView, row: Seq<Seq<(Style, char)>>, widths: Seq<nat>) -> StyledView {
    row_cells_view(o.write(seq!['|']), row, widths, widths.len() as int).write(seq!['|', '\n'])
}

/// The lines of the first `k` rows written after `o`, with the rule after the
/// last row of the head.
pub open spec fn table_view_lines(
    o: StyledView,
    rows: Seq<Seq<Seq<(Style, char)>>>,
    widths: Seq<nat>,
    header_count: usize,
    k: int,
) -> StyledView
    decreases k,
{
    if k <= 0 {
        o
    } else {
        let p = row_view(table_view_lines(o, rows, widths, header_count, k - 1), rows[k - 1], widths);
        if header_count > 0 && k == header_count {
            p.write(rule_line(widths))
        } else {
            p
        }
    }
}

/// The table with rows `rows`, of which the first `header_count` form its
/// head, written after `o`; nothing for a table without rows. Its text is
/// `table_text` of the cells' text, and each cell's characters keep their
/// styles.
pub open spec fn table_view(o: StyledView, rows: Seq<Seq<Seq<(Style, char)>>>, header_count: usize) -> StyledView {
    if rows.len() == 0 {
        o
    } else {
        table_view_lines(o, rows, column_widths(plain_rows(rows)), header_count, rows.len() as int)
    }
}

/// The text of a trimmed styled cell is the trimmed text of the cell.
proof fn lemma_styled_cell(row: Seq<Seq<(Style, char)>>, i: int)
    ensures
        chars_of(styled_cell(row, i)) == cell_text(plain_row(row), i),
        styled_cell(row, i).len() == cell_text(plain_row(row), i).len(),
{
    if 0 <= i < row.len() {
        lemma_trim_cell(row[i]);
        assert(plain_row(row)[i] == chars_of(row[i]));
    } else {
        assert(chars_of(styled_cell(row, i)) =~= Seq::<char>::empty());
    }
}

proof fn lemma_row_cells_view(o: StyledView, row: Seq<Seq<(Style, char)>>, widths: Seq<nat>, k: int)
    requires
        0 <= k <= widths.len(),
    ensures
        row_cells_view(o, row, widths, k).text == o.text + joined(
            row_parts(plain_row(row), widths).take(k),
        ),
        extends(o, row_cells_view(o, row, widths, k)),
    decreases k,
{
    let parts = row_parts(plain_row(row), widths);
    if k == 0 {
        assert(o.text + joined(parts.take(0)) =~= o.text);
    } else {
        let p0 = row_cells_view(o, row, widths, k - 1);
        lemma_row_cells_view(o, row, widths, k - 1);
        let p1 = if k > 1 {
            p0.write(seq!['|'])
        } else {
            p0
        };
        let cell = styled_cell(row, k - 1);
        let q = p1.write(seq![' ']);
        lemma_write_runs(q, plain(), cell);
        lemma_styled_cell(row, k - 1);
        let r = q.write_styled(cell);
        let sp = pad_spaces(cell.len(), widths[k - 1]);
        let res = r.write(sp).write(seq![' ']);
        assert(res == row_cells_view(o, row, widths, k));
        let c = cell_text(plain_row(row), k - 1);
        assert(parts[k - 1] == seq![' '] + pad(c, widths[k - 1]) + seq![' ']);
        assert(pad(c, widths[k - 1]) =~= c + sp);
        assert(parts.take(k).drop_last() =~= parts.take(k - 1));
        if k > 1 {
            assert(res.text =~= o.text + joined(parts.take(k - 1)) + seq!['|'] + parts[k - 1]);
        } else {
            assert(res.text =~= o.text + parts[0]);
        }
        assert(extends(p0, p1));
        assert(extends(p1, q));
        assert(extends(r, res));
        lemma_extends_trans(o, p0, p1);
        lemma_extends_trans(o, p1, q);
        lemma_extends_trans(o, q, r);
        lemma_extends_trans(o, r, res);
    }
}

proof fn lemma_row_view(o: StyledView, row: Seq<Seq<(Style, char)>>, widths: Seq<nat>)
    ensures
        row_view(o, row, widths).text == o.text + row_line(plain_row(row), widths),
        extends(o, row_view(o, row, widths)),
{
    let o1 = o.write(seq!['|']);
    let n = widths.len() as int;
    lemma_row_cells_view(o1, row, widths, n);
    let parts = row_parts(plain_row(row), widths);
    assert(parts.take(n) =~= parts);
    let p = row_cells_view(o1, row, widths, n);
    assert(row_view(o, row, widths).text =~= o.text + row_line(plain_row(row), widths));
    assert(extends(o, o1));
    lemma_extends_trans(o, o1, p);
    lemma_extends_trans(o, p, p.write(seq!['|', '\n']));
}

proof fn lemma_table_view_lines(
    o: StyledView,
    rows: Seq<Seq<Seq<(Style, char)>>>,
    widths: Seq<nat>,
    header_count: usize,
    k: int,
)
    requires
        0 <= k <= rows.len(),
    ensures
        table_view_lines(o, rows, widths, header_count, k).text == o.text + table_lines(
            plain_rows(rows),
            widths,
            header_count,
            k,
        ),
        extends(o, table_view_lines(o, rows, widths, header_count, k)),
    decreases k,
{
    if k == 0 {
        assert(o.text + Seq::<char>::empty() =~= o.text);
    } else {
        let p0 = table_view_lines(o, rows, widths, header_count, k - 1);
        lemma_table_view_lines(o, rows, widths, header_count, k - 1);
        lemma_row_view(p0, rows[k - 1], widths);
        assert(plain_rows(rows)[k - 1] == plain_row(rows[k - 1]));
        let p = row_view(p0, rows[k - 1], widths);
        lemma_extends_trans(o, p0, p);
        if header_count > 0 && k == header_count {
            lemma_extends_trans(o, p, p.write(rule_line(widths)));
        }
    }
}

/// The text of a written table is `table_text` of its cells' text, and the
/// table only adds to what was written before.
pub proof fn lemma_table_view(o: StyledView, rows: Seq<Seq<Seq<(Style, char)>>>, header_count: usize)
    ensures
        table_view(o, rows, header_count).text == o.text + table_text(plain_rows(rows), header_count),
        extends(o, table_view(o, rows, header_count)),
{
    if rows.len() == 0 {
        assert(o.text + Seq::<char>::empty() =~= o.text);
    } else {
        lemma_table_view_lines(o, rows, column_widths(plain_rows(rows)), header_count, rows.len() as int);
    }
}

/// The cell `c` trimmed.
pub fn trimmed_cell(c: &[(Style, char)]) -> (r: Vec<(Style, char)>)
    ensures
        r@ == trim_cell(c@),
{
    let ghost t = chars_of(c@);
    let n = c.len();
    let mut a: usize = 0;
    while a < n && is_whitespace(c[a].1)
        invariant
            n == c@.len(),
            t == chars_of(c@),
            a <= n,
            forall|i: int| 0 <= i < a ==> is_white_space(#[trigger] t[i]),
        decreases n - a,
    {
        assert(t[a as int] == c@[a as int].1);
        a = a + 1;
    }
    if a < n {
        assert(t[a as int] == c@[a as int].1);
    }
    let mut b = n;
    while b > a && is_whitespace(c[b - 1].1)
        invariant
            n == c@.len(),
            t == chars_of(c@),
            a <= b <= n,
            forall|i: int| b <= i < n ==> is_white_space(#[trigger] t[i]),
        decreases b,
    {
        assert(t[b - 1] == c@[b - 1].1);
        b = b - 1;
    }
    if b > a {
        assert(t[b - 1] == c@[b - 1].1);
    }
    proof {
        lemma_trim_start(t, a as int);
        let u = t.skip(a as int);
        assert forall|i: int| b - a <= i < u.len() implies is_white_space(#[trigger] u[i]) by {
            assert(u[i] == t[i + a]);
        }
        if b > a {
            assert(u[b - a - 1] == t[b - 1]);
        }
        lemma_trim_end(u, b - a);
    }
    let mut r: Vec<(Style, char)> = Vec::new();
    let mut i = a;
    while i < b
        invariant
            n == c@.len(),
            a <= i <= b <= n,
            r@ == c@.subrange(a as int, i as int),
        decreases b - i,
    {
        r.push(c[i]);
        i = i + 1;
        assert(c@.subrange(a as int, i as int) =~= c@.subrange(a as int, i - 1).push(c@[i - 1]));
    }
    r
}

/// Writes the line of `row` for columns of widths `widths`.
fn write_row(out: &mut StyledText, row: &Vec<Vec<(Style, char)>>, widths: &Vec<usize>)
    ensures
        final(out)@ == row_view(old(out)@, cells_view(row@), nat_widths(widths@)),
{
    let ghost rv = cells_view(row@);
    let ghost w = nat_widths(widths@);
    out.write_char('|');
    let ghost o1 = out@;
    let n = widths.len();
    let mut i: usize = 0;
    while i < n
        invariant
            n == widths@.len(),
            w == nat_widths(widths@),
            rv == cells_view(row@),
            i <= n,
            out@ == row_cells_view(o1, rv, w, i as int),
        decreases n - i,
    {
        if i > 0 {
            out.write_char('|');
        }
        out.write_char(' ');
        let cell = if i < row.len() {
            trimmed_cell(row[i].as_slice())
        } else {
            Vec::new()
        };
        proof {
            if i < row@.len() {
                assert(rv[i as int] == row@[i as int]@);
            }
            assert(cell@ == styled_cell(rv, i as int));
        }
        out.write_styled(cell.as_slice());
        if cell.len() < widths[i] {
            out.write_repeat(' ', widths[i] - cell.len());
        } else {
            assert(out@.write(Seq::empty()) =~= out@);
        }
        out.write_char(' ');
        i = i + 1;
    }
    let ghost before = out@;
    out.write_char('|');
    out.write_char('\n');
    assert(out@ =~= before.write(seq!['|', '\n']));
}

/// Appends the rule for columns of widths `widths`.
fn push_rule_line(line: &mut Vec<char>, widths: &Vec<usize>)
    ensures
        final(line)@ == old(line)@ + rule_line(nat_widths(widths@)),
{
    let ghost parts = Seq::new(
        widths@.len(),
        |i: int| seq![' '] + repeat('-', widths@[i] as nat) + seq![' '],
    );
    let ghost base = old(line)@;
    line.push('|');
    let n = widths.len();
    let mut i: usize = 0;
    assert(parts.take(0) =~= Seq::<Seq<char>>::empty());
    while i < n
        invariant
            n == widths@.len(),
            i <= n,
            parts.len() == n,
            forall|j: int|
                0 <= j < n ==> #[trigger] parts[j] == seq![' '] + repeat('-', widths@[j] as nat)
                    + seq![' '],
            line@ == base + seq!['|'] + joined(parts.take(i as int)),
        decreases n - i,
    {
        let ghost before = line@;
        if i > 0 {
            line.push('|');
        }
        line.push(' ');
        push_repeat(line, '-', widths[i]);
        line.push(' ');
        proof {
            let p = parts[i as int];
            assert(parts.take(i + 1).drop_last() =~= parts.take(i as int));
            assert(parts.take(i + 1).last() == p);
            if i == 0 {
                assert(line@ =~= before + p);
                assert(joined(parts.take(1)) == p);
            } else {
                assert(line@ =~= before + seq!['|'] + p);
            }
        }
        i = i + 1;
    }
    line.push('|');
    line.push('\n');
    assert(parts.take(n as int) =~= parts);
    assert(rule_parts(nat_widths(widths@)) =~= parts);
}

proof fn lemma_column_count(rows: Seq<Seq<Seq<char>>>, k: int)
    requires
        0 <= k < rows.len(),
    ensures
        rows[k].len() <= column_count(rows),
    decreases rows.len(),
{
    if k < rows.len() - 1 {
        lemma_column_count(rows.drop_last(), k);
        assert(rows.drop_last()[k] == rows[k]);
    }
}

/// The number of columns of `rows`.
fn count_columns(rows: &Vec<Vec<Vec<(Style, char)>>>) -> (cols: usize)
    ensures
        cols == column_count(plain_rows(rows_view(rows@))),
{
    let ghost rv = plain_rows(rows_view(rows@));
    let n = rows.len();
    let mut cols: usize = 0;
    let mut r: usize = 0;
    assert(rv.take(0) =~= Seq::<Seq<Seq<char>>>::empty());
    while r < n
        invariant
            n == rows@.len(),
            rv == plain_rows(rows_view(rows@)),
            r <= n,
            cols == column_count(rv.take(r as int)),
        decreases n - r,
    {
        assert(rv.take(r + 1).drop_last() =~= rv.take(r as int));
        assert(rv.take(r + 1).last() == rv[r as int]);
        assert(rows_view(rows@)[r as int] == cells_view(rows@[r as int]@));
        assert(rv[r as int] == plain_row(rows_view(rows@)[r as int]));
        assert(rv[r as int].len() == rows@[r as int]@.len());
        if rows[r].len() > cols {
            cols = rows[r].len();
        }
        r = r + 1;
    }
    assert(rv.take(n as int) =~= rv);
    cols
}

/// The width of each of the `cols` columns of `rows`.
fn measure_columns(rows: &Vec<Vec<Vec<(Style, char)>>>, cols: usize) -> (widths: Vec<usize>)
    requires
        cols == column_count(plain_rows(rows_view(rows@))),
    ensures
        nat_widths(widths@) == column_widths(plain_rows(rows_view(rows@))),
{
    let ghost rv = plain_rows(rows_view(rows@));
    let mut widths: Vec<usize> = Vec::new();
    let mut i: usize = 0;
    while i < cols
        invariant
            i <= cols,
            widths@.len() == i,
            forall|j: int| 0 <= j < i ==> #[trigger] widths@[j] == 0,
        decreases cols - i,
    {
        widths.push(0);
        i = i + 1;
    }
    let n = rows.len();
    let mut r: usize = 0;
    assert(rv.take(0) =~= Seq::<Seq<Seq<char>>>::empty());
    while r < n
        invariant
            n == rows@.len(),
            rv == plain_rows(rows_view(rows@)),
            cols == column_count(rv),
            r <= n,
            widths@.len() == cols,
            forall|j: int| 0 <= j < cols ==> #[trigger] widths@[j] == widest_cell(rv.take(r as int), j),
        decreases n - r,
    {
        let ghost prev = rv.take(r as int);
        let ghost next = rv.take(r + 1);
        assert(next.drop_last() =~= prev);
        assert(next.last() == rv[r as int]);
        proof {
            lemma_column_count(rv, r as int);
        }
        let row = &rows[r];
        assert(rows_view(rows@)[r as int] == cells_view(row@));
        assert(rv[r as int] == plain_row(cells_view(row@)));
        let m = row.len();
        let mut i: usize = 0;
        while i < m
            invariant
                m == row@.len(),
                m <= cols,
                r < n,
                n == rows@.len(),
                rv == plain_rows(rows_view(rows@)),
                next.len() > 0,
                rv[r as int] == plain_row(cells_view(row@)),
                next.last() == rv[r as int],
                next.drop_last() == prev,
                i <= m,
                widths@.len() == cols,
                forall|j: int| 0 <= j < i ==> #[trigger] widths@[j] == widest_cell(next, j),
                forall|j: int| i <= j < cols ==> #[trigger] widths@[j] == widest_cell(prev, j),
            decreases m - i,
        {
            let cell = trimmed_cell(row[i].as_slice());
            proof {
                lemma_trim_cell(row@[i as int]@);
                assert(cells_view(row@)[i as int] == row@[i as int]@);
                assert(rv[r as int][i as int] == chars_of(row@[i as int]@));
                assert(cell@.len() == chars_of(cell@).len());
                assert(cell@.len() == cell_text(rv[r as int], i as int).len());
            }
            assert(widest_cell(next, i as int) == if cell_text(next.last(), i as int).len()
                > widest_cell(prev, i as int) {
                cell_text(next.last(), i as int).len()
            } else {
                widest_cell(prev, i as int)
            });
            if cell.len() > widths[i] {
                widths.set(i, cell.len());
            }
            i = i + 1;
        }
        assert forall|j: int| m <= j < cols implies #[trigger] widths@[j] == widest_cell(next, j) by {
            assert(cell_text(next.last(), j) =~= Seq::<char>::empty());
        }
        r = r + 1;
    }
    assert(rv.take(n as int) =~= rv);
    let mut i: usize = 0;
    while i < cols
        invariant
            i <= cols,
            widths@.len() == cols,
            cols == column_count(rv),
            forall|j: int| 0 <= j < i ==> #[trigger] widths@[j] as nat == column_widths(rv)[j],
            forall|j: int| i <= j < cols ==> #[trigger] widths@[j] == widest_cell(rv, j),
        decreases cols - i,
    {
        if widths[i] < 3 {
            widths.set(i, 3);
        }
        i = i + 1;
    }
    assert(nat_widths(widths@) =~= column_widths(rv));
    widths
}

/// Writes the table with rows `rows`, of which the first `header_count` form
/// its head: one line per row, each cell trimmed, written in its styles and
/// padded to its column's width, and a rule of dashes after the head.
pub fn render_table(out: &mut StyledText, rows: &Vec<Vec<Vec<(Style, char)>>>, header_count: usize)
    ensures
        final(out)@ == table_view(old(out)@, rows_view(rows@), header_count),
        final(out)@.text == old(out)@.text + table_text(plain_rows(rows_view(rows@)), header_count),
{
    let ghost rv = rows_view(rows@);
    let ghost start = out@;
    proof {
        lemma_table_view(start, rv, header_count);
    }
    if rows.len() == 0 {
        return;
    }
    let cols = count_columns(rows);
    let widths = measure_columns(rows, cols);
    let ghost w = column_widths(plain_rows(rv));
    let n = rows.len();
    let mut r: usize = 0;
    while r < n
        invariant
            n == rows@.len(),
            rv == rows_view(rows@),
            nat_widths(widths@) == w,
            r <= n,
            out@ == table_view_lines(start, rv, w, header_count, r as int),
        decreases n - r,
    {
        assert(rv[r as int] == cells_view(rows@[r as int]@));
        write_row(out, &rows[r], &widths);
        if header_count > 0 && r + 1 == header_count {
            let mut line: Vec<char> = Vec::new();
            push_rule_line(&mut line, &widths);
            assert(line@ =~= rule_line(w));
            out.write_chars(line.as_slice());
        }
        r = r + 1;
    }
}

proof fn lemma_widest_cell(rows: Seq<Seq<Seq<char>>>, k: int, i: int)
    requires
        0 <= k < rows.len(),
    ensures
        cell_text(rows[k], i).len() <= widest_cell(rows, i),
    decreases rows.len(),
{
    if k < rows.len() - 1 {
        lemma_widest_cell(rows.drop_last(), k, i);
        assert(rows.drop_last()[k] == rows[k]);
    }
}

proof fn lemma_joined_len(p: Seq<Seq<char>>, q: Seq<Seq<char>>)
    requires
        p.len() == q.len(),
        forall|i: int| 0 <= i < p.len() ==> #[trigger] p[i].len() == q[i].len(),
    ensures
        joined(p).len() == joined(q).len(),
    decreases p.len(),
{
    if p.len() > 1 {
        lemma_joined_len(p.drop_last(), q.drop_last());
        assert(p.last().len() == q.last().len());
    }
}

/// The columns of a rendered table line up: every column is at least three
/// characters wide; in every row, column `i` holds the cell trimmed and
/// padded with spaces to the column's width, with a space on each side, so
/// that it takes exactly the width plus two characters, as the rule under the
/// head does; and every row's line is as long as the rule.
pub proof fn law_table_columns_aligned(rows: Seq<Seq<Seq<char>>>, k: int)
    requires
        0 <= k < rows.len(),
    ensures
        forall|i: int|
            0 <= i < column_widths(rows).len() ==> #[trigger] row_parts(rows[k], column_widths(rows))[i].len()
                == column_widths(rows)[i] + 2,
        forall|i: int|
            0 <= i < column_widths(rows).len() ==> #[trigger] rule_parts(column_widths(rows))[i].len()
                == column_widths(rows)[i] + 2,
        row_line(rows[k], column_widths(rows)).len() == rule_line(column_widths(rows)).len(),
        forall|i: int|
            0 <= i < column_widths(rows).len() ==> 3 <= #[trigger] column_widths(rows)[i],
        forall|i: int|
            0 <= i < rows[k].len() ==> #[trigger] row_parts(rows[k], column_widths(rows))[i]
                == seq![' '] + trim(rows[k][i]) + repeat(
                ' ',
                (column_widths(rows)[i] - trim(rows[k][i]).len()) as nat,
            ) + seq![' '],
{
    let w = column_widths(rows);
    let p = row_parts(rows[k], w);
    let q = rule_parts(w);
    assert forall|i: int| 0 <= i < w.len() implies #[trigger] p[i].len() == w[i] + 2 by {
        lemma_widest_cell(rows, k, i);
        assert(cell_text(rows[k], i).len() <= w[i]);
    }
    assert forall|i: int| 0 <= i < w.len() implies #[trigger] q[i].len() == w[i] + 2 by {
    }
    assert forall|i: int| 0 <= i < p.len() implies #[trigger] p[i].len() == q[i].len() by {
        assert(p[i].len() == w[i] + 2);
        assert(q[i].len() == w[i] + 2);
    }
    lemma_joined_len(p, q);
    assert forall|i: int| 0 <= i < rows[k].len() implies #[trigger] p[i] == seq![' '] + trim(
        rows[k][i],
    ) + repeat(' ', (w[i] - trim(rows[k][i]).len()) as nat) + seq![' '] by {
        lemma_column_count(rows, k);
        lemma_widest_cell(rows, k, i);
        let c = trim(rows[k][i]);
        assert(cell_text(rows[k], i) == c);
        assert(pad(c, w[i]) =~= c + repeat(' ', (w[i] - c.len()) as nat));
    }
}

} // verus!
