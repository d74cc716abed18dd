//! A quick look at a data file: its column names, its number of rows, and the
//! values of its first rows. Fields are separated by commas; each field is
//! trimmed of whitespace and of surrounding double quotes.
use vstd::prelude::*;
use std::collections::HashMap;
use crate::backend::strings_view;
use crate::text::{chars_of, find_char, find_char_from, slice_string, trim, trim_bounds};

verus! {

/// The number of data rows whose values are kept for the preview.
pub const PREVIEW_ROWS: usize = 5;

/// What the front end shows of a data file.
pub struct DataFileInfo {
    pub path: String,
    pub row_count: usize,
    pub columns: Vec<String>,
    pub preview: HashMap<String, Vec<String>>,
}

/// The parts of `s` between occurrences of `c`, as `str::split(c)` gives them.
pub open spec fn split_at_char(s: Seq<char>, c: char) -> Seq<Seq<char>>
    decreases s.len(),
{
    match find_char(s, c) {
        Some(i) => if 0 <= i < s.len() {
            seq![s.subrange(0, i)] + split_at_char(s.subrange(i + 1, s.len() as int), c)
        } else {
            seq![s]
        },
        None => seq![s],
    }
}

/// `s` without leading double quotes.
pub open spec fn strip_leading_quotes(s: Seq<char>) -> Seq<char>
    decreases s.len(),
{
    if s.len() > 0 && s[0] == '"' {
        strip_leading_quotes(s.drop_first())
    } else {
        s
    }
}

/// `s` without trailing double quotes.
pub open spec fn strip_trailing_quotes(s: Seq<char>) -> Seq<char>
    decreases s.len(),
{
    if s.len() > 0 && s.last() == '"' {
        strip_trailing_quotes(s.drop_last())
    } else {
        s
    }
}

/// A field as shown: trimmed, then without surrounding double quotes.
pub open spec fn cell(s: Seq<char>) -> Seq<char> {
    strip_trailing_quotes(strip_leading_quotes(trim(s)))
}

/// The cells of a line.
pub open spec fn line_cells(line: Seq<char>) -> Seq<Seq<char>> {
    split_at_char(line, ',').map_values(|f: Seq<char>| cell(f))
}

fn cell_bounds(s: &Vec<char>, lo: usize, hi: usize) -> (r: (usize, usize))
    requires
        lo <= hi <= s@.len(),
    ensures
        lo <= r.0 <= r.1 <= hi,
        s@.subrange(r.0 as int, r.1 as int) == cell(s@.subrange(lo as int, hi as int)),
{
    let (a0, b) = trim_bounds(s, lo, hi);
    let ghost t = s@.subrange(a0 as int, b as int);
    assert(t.subrange(0, t.len() as int) =~= t);
    let mut a: usize = a0;
    while a < b && s[a] == '"'
        invariant
            a0 <= a <= b <= s@.len(),
            t == s@.subrange(a0 as int, b as int),
            strip_leading_quotes(t) == strip_leading_quotes(s@.subrange(a as int, b as int)),
        decreases b - a,
    {
        assert(s@.subrange(a as int, b as int).drop_first() =~= s@.subrange(a + 1, b as int));
        a = a + 1;
    }
    let ghost u = s@.subrange(a as int, b as int);
    assert(strip_leading_quotes(u) == u);
    let mut e: usize = b;
    assert(u.subrange(0, u.len() as int) =~= u);
    while e > a && s[e - 1] == '"'
        invariant
            a <= e <= b,
            b <= s@.len(),
            u == s@.subrange(a as int, b as int),
            strip_trailing_quotes(u) == strip_trailing_quotes(s@.subrange(a as int, e as int)),
        decreases e - a,
    {
        assert(s@.subrange(a as int, e as int).drop_last() =~= s@.subrange(a as int, e - 1));
        e = e - 1;
    }
    (a, e)
}

/// The cells of one line of the file, in order.
pub fn split_csv_line(line: &str) -> (r: Vec<String>)
    ensures
        strings_view(r@) == line_cells(line@),
{
    let s = chars_of(line);
    let n = s.len();
    let mut out: Vec<String> = Vec::new();
    let mut pos: usize = 0;
    assert(s@.subrange(0, n as int) =~= s@);
    loop
        invariant
            n == s@.len(),
            s@ == line@,
            pos <= n,
            strings_view(out@) + line_cells(s@.subrange(pos as int, n as int)) == line_cells(
                s@,
            ),
        decreases n - pos,
    {
        let ghost rest = s@.subrange(pos as int, n as int);
        match find_char_from(&s, pos, ',') {
            Some(i) => {
                let (a, b) = cell_bounds(&s, pos, i);
                let ghost before = out@;
                out.push(slice_string(line, a, b));
                proof {
                    assert(rest.subrange(0, i - pos) =~= s@.subrange(pos as int, i as int));
                    assert(rest.subrange(i - pos + 1, rest.len() as int) =~= s@.subrange(
                        i + 1,
                        n as int,
                    ));
                    assert(split_at_char(rest, ',') == seq![s@.subrange(pos as int, i as int)]
                        + split_at_char(s@.subrange(i + 1, n as int), ','));
                    assert(line_cells(rest) =~= seq![cell(s@.subrange(pos as int, i as int))]
                        + line_cells(s@.subrange(i + 1, n as int)));
                    assert(strings_view(out@) =~= strings_view(before) + seq![
                        cell(s@.subrange(pos as int, i as int)),
                    ]);
                }
                pos = i + 1;
            },
            None => {
                let (a, b) = cell_bounds(&s, pos, n);
                let ghost before = out@;
                out.push(slice_string(line, a, b));
                proof {
                    assert(line_cells(rest) =~= seq![cell(rest)]);
                    assert(strings_view(out@) =~= strings_view(before) + seq![cell(rest)]);
                }
                return out;
            },
        }
    }
}

/// What has been read of a data file so far: its columns, how many data rows
/// followed the header, and the cells of the first of them.
pub struct CsvSummary {
    pub columns: Vec<String>,
    pub row_count: usize,
    pub preview_rows: Vec<Vec<String>>,
}

impl CsvSummary {
    /// Starts a summary from the header line.
    pub fn from_header(header: &str) -> (r: CsvSummary)
        ensures
            strings_view(r.columns@) == line_cells(header@),
            r.row_count == 0,
            r.preview_rows@.len() == 0,
    {
        CsvSummary { columns: split_csv_line(header), row_count: 0, preview_rows: Vec::new() }
    }

    /// Counts one more data row, and keeps its cells while the preview is not full.
    pub fn add_row(&mut self, line: &str)
        requires
            old(self).row_count < usize::MAX,
        ensures
            final(self).row_count == old(self).row_count + 1,
            final(self).columns == old(self).columns,
            old(self).row_count < PREVIEW_ROWS ==> final(self).preview_rows@.len() == old(
                self,
            ).preview_rows@.len() + 1 && strings_view(final(self).preview_rows@.last()@)
                == line_cells(line@) && final(self).preview_rows@.drop_last() == old(
                self,
            ).preview_rows@,
            old(self).row_count >= PREVIEW_ROWS ==> final(self).preview_rows == old(
                self,
            ).preview_rows,
    {
        if self.row_count < PREVIEW_ROWS {
            self.preview_rows.push(split_csv_line(line));
            assert(self.preview_rows@.drop_last() =~= old(self).preview_rows@);
        }
        self.row_count = self.row_count + 1;
    }
}

} // verus!
