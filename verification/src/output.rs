//! What the program shows: status lines, tables, and the choice between
//! plain text and JSON.

use vstd::prelude::*;
use vstd::utf8::encode_utf8;
use crate::text::{from_chars, lowercase, same, to_chars, to_lowercase, trim, trimmed};

verus! {

/// How a status line is marked.
#[derive(Debug, Clone, Copy, PartialEq, Eq, Structural)]
pub enum LineStatus {
    Okay,
    Warning,
    Error,
}

/// A key with its value, and optionally a mark.
#[derive(Debug)]
pub struct StatusLine {
    pub key: String,
    pub value: String,
    pub status: Option<LineStatus>,
}

/// Status lines, shown one below the other.
#[derive(Debug)]
pub struct StatusReport {
    pub lines: Vec<StatusLine>,
}

/// The sign that stands for a mark; a blank where there is none.
pub open spec fn indicator(status: Option<LineStatus>) -> Seq<char> {
    match status {
        Some(LineStatus::Okay) => "✓"@,
        Some(LineStatus::Warning) => "!"@,
        Some(LineStatus::Error) => "✗"@,
        None => " "@,
    }
}

impl StatusLine {
    /// The line as text: sign, key, colon, value.
    pub open spec fn rendered(&self) -> Seq<char> {
        indicator(self.status) + " "@ + self.key@ + ": "@ + self.value@
    }

    /// The line as text.
    pub fn render(&self) -> (r: String)
        ensures
            r@ == self.rendered(),
    {
        let mut out = match self.status {
            Some(LineStatus::Okay) => String::from_str("✓"),
            Some(LineStatus::Warning) => String::from_str("!"),
            Some(LineStatus::Error) => String::from_str("✗"),
            None => String::from_str(" "),
        };
        out.append(" ");
        out.append(self.key.as_str());
        out.append(": ");
        out.append(self.value.as_str());
        out
    }
}

/// The lines `lines` as text, each followed by a line feed.
pub open spec fn rendered_lines(lines: Seq<StatusLine>) -> Seq<char>
    decreases lines.len(),
{
    if lines.len() == 0 {
        Seq::empty()
    } else {
        rendered_lines(lines.drop_last()) + lines.last().rendered() + "\n"@
    }
}

impl StatusReport {
    /// The report as text.
    pub open spec fn rendered(&self) -> Seq<char> {
        rendered_lines(self.lines@)
    }

    /// The report as text.
    pub fn render(&self) -> (r: String)
        ensures
            r@ == self.rendered(),
    {
        let mut out = String::new();
        let mut i: usize = 0;
        assert(self.lines@.take(0) =~= Seq::<StatusLine>::empty());
        while i < self.lines.len()
            invariant
                i <= self.lines.len(),
                out@ == rendered_lines(self.lines@.take(i as int)),
            decreases self.lines.len() - i,
        {
            assert(self.lines@.take(i + 1).drop_last() =~= self.lines@.take(i as int));
            let line = self.lines[i].render();
            out.append(line.as_str());
            out.append("\n");
            i += 1;
        }
        assert(self.lines@.take(i as int) =~= self.lines@);
        out
    }
}

/// What can stand as a row of a table.
pub trait TableRow {
    /// The cells of the row, in the order of the columns.
    spec fn cells_of(&self) -> Seq<Seq<char>>;

    /// The cells of the row, in the order of the columns.
    fn cells(&self) -> (r: Vec<String>)
        ensures
            r.deep_view() == self.cells_of(),
    ;
}

/// Rows under column headers.
#[derive(Debug)]
pub struct TableOutput<T> {
    pub headers: Vec<String>,
    pub rows: Vec<T>,
}

/// How many bytes the text `s` takes in UTF-8.
pub open spec fn byte_len(s: Seq<char>) -> nat {
    encode_utf8(s).len()
}

/// The width of column `i`: the largest byte length among its header and
/// the cells that the rows `rows` have in it.
pub open spec fn column_width(header: Seq<char>, rows: Seq<Seq<Seq<char>>>, i: int) -> nat
    decreases rows.len(),
{
    if rows.len() == 0 {
        byte_len(header)
    } else {
        let w = column_width(header, rows.drop_last(), i);
        let row = rows.last();
        if 0 <= i < row.len() && byte_len(row[i]) > w {
            byte_len(row[i])
        } else {
            w
        }
    }
}

/// The widths of the columns of a table.
pub open spec fn column_widths(headers: Seq<Seq<char>>, rows: Seq<Seq<Seq<char>>>) -> Seq<nat> {
    Seq::new(headers.len(), |i: int| column_width(headers[i], rows, i))
}

/// `n` times the character `c`.
pub open spec fn repeated(c: char, n: nat) -> Seq<char> {
    Seq::new(n, |i: int| c)
}

/// `s` filled up with blanks at its end to `width` characters; a longer `s`
/// stays as it is.
pub open spec fn padded(s: Seq<char>, width: nat) -> Seq<char> {
    if s.len() >= width {
        s
    } else {
        s + repeated(' ', (width - s.len()) as nat)
    }
}

/// The first `n` of `cells` in a line: two blanks between each two, each
/// cell padded to its column's width. A cell beyond the last column is left
/// out, but not the blanks before it.
pub open spec fn cells_line(cells: Seq<Seq<char>>, widths: Seq<nat>, n: int) -> Seq<char>
    decreases n,
{
    if n <= 0 {
        Seq::empty()
    } else {
        cells_line(cells, widths, n - 1) + (if n - 1 > 0 {
            "  "@
        } else {
            Seq::empty()
        }) + (if n - 1 < widths.len() {
            padded(cells[n - 1], widths[n - 1])
        } else {
            Seq::empty()
        })
    }
}

/// The rule under the headers, up to column `n`: for each column as many
/// dashes as it is wide, two blanks between each two.
pub open spec fn rule_line(widths: Seq<nat>, n: int) -> Seq<char>
    decreases n,
{
    if n <= 0 {
        Seq::empty()
    } else {
        rule_line(widths, n - 1) + (if n - 1 > 0 {
            "  "@
        } else {
            Seq::empty()
        }) + repeated('-', widths[n - 1])
    }
}

/// The rows `rows` as lines.
pub open spec fn row_lines(rows: Seq<Seq<Seq<char>>>, widths: Seq<nat>) -> Seq<char>
    decreases rows.len(),
{
    if rows.len() == 0 {
        Seq::empty()
    } else {
        row_lines(rows.drop_last(), widths) + cells_line(
            rows.last(),
            widths,
            rows.last().len() as int,
        ) + "\n"@
    }
}

/// A table as text: the headers, a rule, then the rows, each on a line.
pub open spec fn table_text(headers: Seq<Seq<char>>, rows: Seq<Seq<Seq<char>>>) -> Seq<char> {
    let widths = column_widths(headers, rows);
    cells_line(headers, widths, headers.len() as int) + "\n"@ + rule_line(
        widths,
        widths.len() as int,
    ) + "\n"@ + row_lines(rows, widths)
}

/// What `widths` says as a sequence of natural numbers.
pub open spec fn as_nats(widths: Seq<usize>) -> Seq<nat> {
    Seq::new(widths.len(), |i: int| widths[i] as nat)
}

/// Appends `n` times the character `c` to `out`.
pub fn push_repeated(out: &mut String, c: char, n: usize)
    ensures
        final(out)@ == old(out)@ + repeated(c, n as nat),
{
    let mut i: usize = 0;
    assert(out@ =~= old(out)@ + repeated(c, 0));
    while i < n
        invariant
            i <= n,
            out@ == old(out)@ + repeated(c, i as nat),
        decreases n - i,
    {
        out.push(c);
        assert(out@ =~= old(out)@ + repeated(c, (i + 1) as nat));
        i += 1;
    }
}

/// Appends `s`, padded to `width` characters, to `out`.
pub fn push_padded(out: &mut String, s: &str, width: usize)
    ensures
        final(out)@ == old(out)@ + padded(s@, width as nat),
{
    out.append(s);
    let n = s.unicode_len();
    if n < width {
        push_repeated(out, ' ', width - n);
        assert(out@ =~= old(out)@ + padded(s@, width as nat));
    }
}

/// Appends the cells `cells` as a line, without the line feed, to `out`.
pub fn push_cells(out: &mut String, cells: &Vec<String>, widths: &Vec<usize>)
    ensures
        final(out)@ == old(out)@ + cells_line(
            cells.deep_view(),
            as_nats(widths@),
            cells.len() as int,
        ),
{
    let ghost cs = cells.deep_view();
    let ghost ws = as_nats(widths@);
    let mut i: usize = 0;
    assert(out@ =~= old(out)@ + cells_line(cs, ws, 0));
    while i < cells.len()
        invariant
            i <= cells.len(),
            cs == cells.deep_view(),
            ws == as_nats(widths@),
            out@ == old(out)@ + cells_line(cs, ws, i as int),
        decreases cells.len() - i,
    {
        let ghost before = out@;
        if i > 0 {
            out.append("  ");
        }
        let ghost mid = out@;
        if i < widths.len() {
            assert(cs[i as int] == cells@[i as int]@);
            assert(ws[i as int] == widths@[i as int] as nat);
            push_padded(out, cells[i].as_str(), widths[i]);
        }
        assert(out@ =~= old(out)@ + cells_line(cs, ws, i + 1)) by {
            assert(mid =~= before + (if i > 0 {
                "  "@
            } else {
                Seq::<char>::empty()
            }));
        }
        i += 1;
    }
}

impl<T: TableRow> TableOutput<T> {
    /// The cells of the rows.
    pub open spec fn row_cells(&self) -> Seq<Seq<Seq<char>>> {
        Seq::new(self.rows@.len(), |i: int| self.rows@[i].cells_of())
    }

    /// The table as text.
    pub open spec fn rendered(&self) -> Seq<char> {
        table_text(self.headers.deep_view(), self.row_cells())
    }

    /// The widths of the columns.
    pub fn widths(&self) -> (r: Vec<usize>)
        ensures
            as_nats(r@) == column_widths(self.headers.deep_view(), self.row_cells()),
    {
        let ghost hs = self.headers.deep_view();
        let ghost all = self.row_cells();
        let mut widths: Vec<usize> = Vec::new();
        let mut i: usize = 0;
        while i < self.headers.len()
            invariant
                i <= self.headers.len(),
                hs == self.headers.deep_view(),
                widths.len() == i,
                forall|k: int|
                    0 <= k < i ==> #[trigger] widths@[k] as nat == column_width(
                        hs[k],
                        Seq::empty(),
                        k,
                    ),
            decreases self.headers.len() - i,
        {
            assert(hs[i as int] == self.headers@[i as int]@);
            widths.push(self.headers[i].as_str().as_bytes().len());
            i += 1;
        }
        let mut j: usize = 0;
        assert(all.take(0) =~= Seq::<Seq<Seq<char>>>::empty());
        while j < self.rows.len()
            invariant
                j <= self.rows.len(),
                hs == self.headers.deep_view(),
                all == self.row_cells(),
                widths.len() == self.headers.len(),
                forall|k: int|
                    0 <= k < widths.len() ==> #[trigger] widths@[k] as nat == column_width(
                        hs[k],
                        all.take(j as int),
                        k,
                    ),
            decreases self.rows.len() - j,
        {
            let cells = self.rows[j].cells();
            assert(all.take(j + 1).drop_last() =~= all.take(j as int));
            assert(all.take(j + 1).last() == cells.deep_view());
            let ghost old_widths = widths@;
            let mut k: usize = 0;
            while k < cells.len()
                invariant
                    k <= cells.len(),
                    widths.len() == old_widths.len(),
                    forall|m: int|
                        0 <= m < widths.len() && m < k ==> #[trigger] widths@[m] as nat == (if byte_len(
                            cells.deep_view()[m],
                        ) > old_widths[m] as nat {
                            byte_len(cells.deep_view()[m])
                        } else {
                            old_widths[m] as nat
                        }),
                    forall|m: int|
                        0 <= m < widths.len() && m >= k ==> #[trigger] widths@[m] == old_widths[m],
                decreases cells.len() - k,
            {
                if k < widths.len() {
                    assert(cells.deep_view()[k as int] == cells@[k as int]@);
                    let n = cells[k].as_str().as_bytes().len();
                    if n > widths[k] {
                        widths.set(k, n);
                    }
                }
                k += 1;
            }
            j += 1;
        }
        assert(all.take(j as int) =~= all);
        assert(as_nats(widths@) =~= column_widths(hs, all));
        widths
    }

    /// The table as text.
    pub fn render(&self) -> (r: String)
        ensures
            r@ == self.rendered(),
    {
        let widths = self.widths();
        let ghost ws = as_nats(widths@);
        let ghost all = self.row_cells();
        let mut out = String::new();
        push_cells(&mut out, &self.headers, &widths);
        out.append("\n");
        let ghost head = out@;
        let mut i: usize = 0;
        assert(out@ =~= head + rule_line(ws, 0));
        while i < widths.len()
            invariant
                i <= widths.len(),
                ws == as_nats(widths@),
                out@ == head + rule_line(ws, i as int),
            decreases widths.len() - i,
        {
            let ghost before = out@;
            if i > 0 {
                out.append("  ");
            }
            let ghost mid = out@;
            assert(ws[i as int] == widths@[i as int] as nat);
            push_repeated(&mut out, '-', widths[i]);
            assert(out@ =~= head + rule_line(ws, i + 1)) by {
                assert(mid =~= before + (if i > 0 {
                    "  "@
                } else {
                    Seq::<char>::empty()
                }));
            }
            i += 1;
        }
        out.append("\n");
        let ghost top = out@;
        let mut j: usize = 0;
        assert(all.take(0) =~= Seq::<Seq<Seq<char>>>::empty());
        assert(out@ =~= top + row_lines(all.take(0), ws));
        while j < self.rows.len()
            invariant
                j <= self.rows.len(),
                ws == as_nats(widths@),
                all == self.row_cells(),
                out@ == top + row_lines(all.take(j as int), ws),
            decreases self.rows.len() - j,
        {
            let cells = self.rows[j].cells();
            assert(all.take(j + 1).drop_last() =~= all.take(j as int));
            assert(all.take(j + 1).last() == cells.deep_view());
            push_cells(&mut out, &cells, &widths);
            out.append("\n");
            assert(out@ =~= top + row_lines(all.take(j + 1), ws));
            j += 1;
        }
        assert(all.take(j as int) =~= all);
        assert(out@ =~= self.rendered());
        out
    }
}

/// The text of a failure as a JSON object.
pub open spec fn error_object(message: Seq<char>) -> Seq<char> {
    "{\"error\": \""@ + message + "\"}"@
}

/// What is printed: the plain text `plain` where no JSON is asked for;
/// else the JSON text, or an object that reports why there is none.
pub fn format_output(plain: &str, json: Option<Result<String, String>>) -> (r: String)
    ensures
        r@ == (match json {
            None => plain@,
            Some(Ok(text)) => text@,
            Some(Err(message)) => error_object(message@),
        }),
{
    match json {
        None => String::from_str(plain),
        Some(Ok(text)) => text,
        Some(Err(message)) => {
            let mut out = String::from_str("{\"error\": \"");
            out.append(message.as_str());
            out.append("\"}");
            out
        },
    }
}

/// Whether `lowered`, an answer trimmed and in lower case, says yes: it is
/// `y` or `yes`.
pub fn says_yes(lowered: &str) -> (b: bool)
    ensures
        b == (lowered@ == "y"@ || lowered@ == "yes"@),
{
    same(lowered, "y") || same(lowered, "yes")
}

/// Whether `answer` says yes: trimmed and in lower case it is `y` or `yes`.
pub open spec fn affirmative(answer: Seq<char>) -> bool {
    lowercase(trimmed(answer)) == "y"@ || lowercase(trimmed(answer)) == "yes"@
}

/// Whether to go ahead: yes if `yes_flag` is set; else only if an answer
/// was read and says yes.
pub fn confirm(answer: Option<&str>, yes_flag: bool) -> (b: bool)
    ensures
        b == (yes_flag || (answer matches Some(text) && affirmative(text@))),
{
    if yes_flag {
        return true;
    }
    match answer {
        Some(text) => {
            let t = from_chars(&trim(&to_chars(text)));
            let lower = to_lowercase(t.as_str());
            says_yes(lower.as_str())
        },
        None => false,
    }
}

} // verus!
