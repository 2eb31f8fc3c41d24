//! A document: its rows, file name, filetype and whether it has changed.

use crate::classify::{find_in, highlight_of};
use crate::highlighting::Type;
use crate::filetype::{filetype_of, FileType, FileTypeView, OptionsView};
use crate::position::{Position, SearchDirection};
use crate::clusters::as_int;
use crate::row::{deleted, inserted, row_wf, split_head, split_tail, Row, RowView};
use crate::text::{chars_of, graphemes_of, push_char, push_str, slice_chars, string_of};
use vstd::prelude::*;

verus! {

/// The rows of an open file, with its name, its filetype, and whether it has
/// changed since it was loaded or saved.
pub struct Document {
    rows: Vec<Row>,
    pub filename: Option<String>,
    dirty: bool,
    filetype: FileType,
}

/// The abstract value of a `Document`.
pub struct DocumentView {
    pub rows: Seq<RowView>,
    pub filename: Option<Seq<char>>,
    pub dirty: bool,
    pub filetype: FileTypeView,
}

/// The views of a list of rows.
pub open spec fn rows_view(rows: Seq<Row>) -> Seq<RowView> {
    rows.map_values(|r: Row| r@)
}

impl View for Document {
    type V = DocumentView;

    closed spec fn view(&self) -> DocumentView {
        DocumentView {
            rows: rows_view(self.rows@),
            filename: match self.filename {
                Some(f) => Some(f@),
                None => None,
            },
            dirty: self.dirty,
            filetype: self.filetype@,
        }
    }
}

/// A row with text `s`, highlighted with options `o` and no query.
pub open spec fn fresh_row(s: Seq<char>, o: OptionsView) -> RowView {
    RowView { content: s, highlighting: highlight_of(s, o, None), len: graphemes_of(s).len() }
}

/// An empty row, not highlighted.
pub open spec fn empty_row() -> RowView {
    RowView { content: Seq::empty(), highlighting: Seq::empty(), len: graphemes_of(Seq::empty()).len() }
}

/// The rows after a line break at `at`: past the last row, an empty row is
/// added; otherwise row `at.y` is split at column `at.x`.
pub open spec fn rows_after_newline(rows: Seq<RowView>, at: Position, o: OptionsView) -> Seq<RowView> {
    let y = at.y as int;
    if y > rows.len() {
        rows
    } else if y == rows.len() {
        rows.push(empty_row())
    } else {
        rows.take(y) + seq![
            fresh_row(split_head(rows[y].content, at.x as int), o),
            fresh_row(split_tail(rows[y].content, at.x as int), o),
        ] + rows.skip(y + 1)
    }
}

/// The rows after typing `c` at `at` (for `at.y` at most the row count).
pub open spec fn rows_after_insert(rows: Seq<RowView>, at: Position, c: char, o: OptionsView) -> Seq<
    RowView,
> {
    let y = at.y as int;
    if c == '\n' {
        rows_after_newline(rows, at, o)
    } else if y == rows.len() {
        rows.push(fresh_row(inserted(Seq::empty(), 0, c), o))
    } else {
        rows.update(y, fresh_row(inserted(rows[y].content, at.x as int, c), o))
    }
}

/// The rows after deleting at `at` (for `at.y` below the row count): at the
/// end of a row that has a successor, the two rows are joined; otherwise the
/// cluster at `at.x` goes.
pub open spec fn rows_after_delete(rows: Seq<RowView>, at: Position, o: OptionsView) -> Seq<
    RowView,
> {
    let y = at.y as int;
    if at.x == rows[y].len && y + 1 < rows.len() {
        rows.take(y).push(fresh_row(rows[y].content + rows[y + 1].content, o)) + rows.skip(y + 2)
    } else {
        rows.update(y, fresh_row(deleted(rows[y].content, at.x as int), o))
    }
}

/// Forward search from column `x` of row `y`, then from the start of each
/// later row.
pub open spec fn find_forward(rows: Seq<RowView>, q: Seq<char>, x: int, y: int) -> Option<(int, int)>
    decreases rows.len() - y,
{
    if y < 0 || y >= rows.len() {
        None
    } else {
        match find_in(rows[y].content, q, x, true) {
            Some(k) => Some((k, y)),
            None => find_forward(rows, q, 0, y + 1),
        }
    }
}

/// Backward search before column `x` of row `y`, then over the whole of each
/// earlier row.
pub open spec fn find_backward(rows: Seq<RowView>, q: Seq<char>, x: int, y: int) -> Option<(int, int)>
    decreases y,
{
    if y < 0 || y >= rows.len() {
        None
    } else {
        match find_in(rows[y].content, q, x, false) {
            Some(k) => Some((k, y)),
            None => if y == 0 {
                None
            } else {
                find_backward(rows, q, rows[y - 1].len as int, y - 1)
            },
        }
    }
}

/// Where a search for `q` from `at` stops, as (column, row).
pub open spec fn find_in_rows(rows: Seq<RowView>, q: Seq<char>, at: Position, forward: bool) -> Option<
    (int, int),
> {
    if at.y >= rows.len() {
        None
    } else if forward {
        find_forward(rows, q, at.x as int, at.y as int)
    } else {
        find_backward(rows, q, at.x as int, at.y as int)
    }
}

/// The first index from `i` on of a line feed in `s`, or `s.len()`.
pub open spec fn line_end(s: Seq<char>, i: int) -> int
    decreases s.len() - i,
{
    if i < 0 || i >= s.len() {
        s.len() as int
    } else if s[i] == '\n' {
        i
    } else {
        line_end(s, i + 1)
    }
}

/// A line without the carriage return that ends it, if any.
pub open spec fn strip_cr(l: Seq<char>) -> Seq<char> {
    if l.len() > 0 && l.last() == '\r' {
        l.drop_last()
    } else {
        l
    }
}

/// The lines of `s` from index `i` on, as `str::lines` gives them: split at
/// each `\n` or `\r\n`, with no empty line after a final line break.
pub open spec fn lines_from(s: Seq<char>, i: int) -> Seq<Seq<char>>
    decreases s.len() - i,
{
    if i < 0 || i >= s.len() {
        Seq::empty()
    } else {
        let k = line_end(s, i);
        if k < i || k >= s.len() {
            seq![s.subrange(i, s.len() as int)]
        } else {
            seq![strip_cr(s.subrange(i, k))] + lines_from(s, k + 1)
        }
    }
}

/// The lines of `s`.
pub open spec fn lines_of(s: Seq<char>) -> Seq<Seq<char>> {
    lines_from(s, 0)
}

/// The text of a list of rows as a file holds it: each row followed by a
/// line feed.
pub open spec fn file_text(rows: Seq<RowView>) -> Seq<char> {
    rows.map_values(|r: RowView| r.content.push('\n')).flatten()
}

/// The texts of a list of rows.
pub open spec fn contents_of(rows: Seq<RowView>) -> Seq<Seq<char>> {
    rows.map_values(|r: RowView| r.content)
}

/// The rows of a file with text `s`, highlighted with options `o`.
pub open spec fn loaded_rows(s: Seq<char>, o: OptionsView) -> Seq<RowView> {
    lines_of(s).map_values(|l: Seq<char>| fresh_row(l, o))
}

/// Every row highlighted again with options `o` and `query`.
pub open spec fn rows_highlighted(rows: Seq<RowView>, o: OptionsView, query: Option<Seq<char>>) -> Seq<
    RowView,
> {
    rows.map_values(
        |r: RowView| RowView { content: r.content, highlighting: highlight_of(r.content, o, query), len: r.len },
    )
}

/// Two documents that differ at most in their rows and their dirty flag.
pub open spec fn same_file(a: DocumentView, b: DocumentView) -> bool {
    a.filename == b.filename && a.filetype == b.filetype
}

impl Document {
    /// Every row is well formed.
    pub open spec fn wf(&self) -> bool {
        forall|i: int| 0 <= i < self@.rows.len() ==> row_wf(#[trigger] self@.rows[i])
    }

    /// A document for the file `filename` whose text is `contents`: one row
    /// per line, highlighted for the filetype that the name selects.
    pub fn from_contents(filename: &str, contents: &str) -> (r: Document)
        ensures
            r.wf(),
            r@.rows == loaded_rows(contents@, filetype_of(filename@).opts),
            r@.filename == Some(filename@),
            !r@.dirty,
            r@.filetype == filetype_of(filename@),
    {
        let filetype = FileType::from(filename);
        let cs = chars_of(contents);
        let ghost o = filetype@.opts;
        let n = cs.len();
        let mut rows: Vec<Row> = Vec::new();
        let ghost mut done: Seq<Seq<char>> = Seq::empty();
        let mut i: usize = 0;
        while i < n
            invariant
                n == cs@.len(),
                i <= n,
                o == filetype@.opts,
                done + lines_from(cs@, i as int) == lines_of(cs@),
                rows_view(rows@) == done.map_values(|l: Seq<char>| fresh_row(l, o)),
                forall|j: int| 0 <= j < rows@.len() ==> row_wf(#[trigger] rows@[j]@),
            decreases n - i,
        {
            let mut k = i;
            while k < n && cs[k] != '\n'
                invariant
                    i <= k <= n == cs@.len(),
                    line_end(cs@, i as int) == line_end(cs@, k as int),
                decreases n - k,
            {
                k += 1;
            }
            let ghost rest = lines_from(cs@, i as int);
            let line_stop = if k < n && k > i && cs[k - 1] == '\r' {
                k - 1
            } else {
                k
            };
            let line = slice_chars(&cs, i, line_stop);
            let text = string_of(&line);
            let mut row = Row::from(text.as_str());
            row.highlight(None, filetype.highlighting_opts());
            let ghost before = rows@;
            let ghost rv = row@;
            rows.push(row);
            proof {
                let l = if k < n {
                    strip_cr(cs@.subrange(i as int, k as int))
                } else {
                    cs@.subrange(i as int, n as int)
                };
                if k < n && k > i && cs@[k - 1] == '\r' {
                    assert(cs@.subrange(i as int, k - 1) =~= cs@.subrange(i as int, k as int).drop_last());
                }
                assert(line@ == l);
                assert(rest == seq![l] + lines_from(cs@, k + 1));
                assert(done.push(l) + lines_from(cs@, k + 1) =~= done + rest);
                assert(rv == fresh_row(l, o));
                assert(rows_view(rows@) =~= rows_view(before).push(rv));
                assert(rows_view(rows@) =~= done.push(l).map_values(|l: Seq<char>| fresh_row(l, o)));
                done = done.push(l);
            }
            i = if k < n {
                k + 1
            } else {
                n
            };
        }
        assert(done =~= lines_of(cs@));
        Document { rows, filename: Some(filename.to_owned()), dirty: false, filetype }
    }

    /// The text to write to the file: each row followed by a line feed.
    pub fn file_contents(&self) -> (r: String)
        ensures
            r@ == file_text(self@.rows),
    {
        let ghost lines = self@.rows.map_values(|r: RowView| r.content.push('\n'));
        let mut out = String::new();
        let mut i: usize = 0;
        while i < self.rows.len()
            invariant
                i <= self@.rows.len(),
                lines == self@.rows.map_values(|r: RowView| r.content.push('\n')),
                out@ == lines.take(i as int).flatten(),
            decreases self@.rows.len() - i,
        {
            assert(self@.rows[i as int] == self.rows@[i as int]@);
            push_str(&mut out, self.rows[i].text());
            push_char(&mut out, '\n');
            proof {
                assert(lines.take(i + 1) =~= lines.take(i as int).push(lines[i as int]));
                lines.take(i as int).lemma_flatten_push(lines[i as int]);
            }
            i += 1;
        }
        assert(lines.take(i as int) =~= lines);
        out
    }

    /// Records a successful save to `filename`: the filetype is chosen again
    /// from the name, the document is clean, and every row is highlighted
    /// again. Nothing happens when there is no file name.
    pub fn mark_saved(&mut self)
        requires
            old(self).wf(),
        ensures
            final(self).wf(),
            final(self)@.filename == old(self)@.filename,
            match old(self)@.filename {
                Some(f) => {
                    &&& !final(self)@.dirty
                    &&& final(self)@.filetype == filetype_of(f)
                    &&& final(self)@.rows == rows_highlighted(old(self)@.rows, filetype_of(f).opts, None)
                },
                None => final(self)@ == old(self)@,
            },
    {
        let filetype = match &self.filename {
            Some(name) => FileType::from(name.as_str()),
            None => {
                return;
            },
        };
        self.filetype = filetype;
        self.dirty = false;
        assert(self@.rows == old(self)@.rows);
        assert(self.wf());
        self.highlight(None);
    }

    /// Uses `filetype` from now on and highlights every row again.
    pub fn set_file_type(&mut self, filetype: FileType)
        requires
            old(self).wf(),
        ensures
            final(self).wf(),
            final(self)@.filename == old(self)@.filename,
            final(self)@.dirty == old(self)@.dirty,
            final(self)@.filetype == filetype@,
            final(self)@.rows == rows_highlighted(old(self)@.rows, filetype@.opts, None),
    {
        self.filetype = filetype;
        assert(self@.rows == old(self)@.rows);
        assert(self.wf());
        self.highlight(None);
    }

    /// Breaks the line at `at`: splits row `at.y` at column `at.x`, both
    /// halves highlighted again, or adds an empty row past the last one.
    /// Either way the document is marked as changed.
    pub fn insert_newline(&mut self, at: &Position)
        requires
            old(self).wf(),
        ensures
            final(self).wf(),
            same_file(final(self)@, old(self)@),
            final(self)@.dirty == (old(self)@.dirty || at.y <= old(self)@.rows.len()),
            final(self)@.rows == rows_after_newline(old(self)@.rows, *at, old(self)@.filetype.opts),
    {
        let ghost rows0 = self@.rows;
        if at.y > self.rows.len() {
            return;
        }
        self.dirty = true;
        if at.y == self.rows.len() {
            let row = Row::default();
            assert(row@.highlighting =~= Seq::<Type>::empty());
            assert(row@ == empty_row());
            self.rows.push(row);
            assert(self@.rows =~= rows0.push(empty_row()));
            return;
        }
        let y = at.y;
        assert(self@.rows[y as int] == self.rows@[y as int]@);
        let mut row = self.rows.remove(y);
        let mut new_row = row.split(at.x);
        let opts = self.filetype.highlighting_opts();
        row.highlight(None, opts);
        new_row.highlight(None, opts);
        self.rows.insert(y, row);
        self.rows.insert(y + 1, new_row);
        assert(self@.rows =~= rows_after_newline(rows0, *at, self@.filetype.opts));
    }

    /// Types `c` at `at`. A line break splits the row; past the last row a
    /// new row is started. The row typed into is highlighted again.
    pub fn insert(&mut self, at: &Position, c: char)
        requires
            old(self).wf(),
        ensures
            final(self).wf(),
            same_file(final(self)@, old(self)@),
            at.y > old(self)@.rows.len() ==> final(self)@ == old(self)@,
            at.y <= old(self)@.rows.len() ==> final(self)@.dirty && final(self)@.rows
                == rows_after_insert(old(self)@.rows, *at, c, old(self)@.filetype.opts),
    {
        let ghost rows0 = self@.rows;
        if at.y > self.rows.len() {
            return;
        }
        self.dirty = true;
        if c == '\n' {
            self.insert_newline(at);
            return;
        }
        if at.y == self.rows.len() {
            let mut row = Row::default();
            row.insert(0, c);
            row.highlight(None, self.filetype.highlighting_opts());
            self.rows.push(row);
            assert(self@.rows =~= rows_after_insert(rows0, *at, c, self@.filetype.opts));
        } else {
            let y = at.y;
            assert(self@.rows[y as int] == self.rows@[y as int]@);
            let mut row = self.rows.remove(y);
            row.insert(at.x, c);
            row.highlight(None, self.filetype.highlighting_opts());
            self.rows.insert(y, row);
            assert(self@.rows =~= rows_after_insert(rows0, *at, c, self@.filetype.opts));
        }
    }

    /// Deletes at `at`: at the end of a row that has a successor, joins the
    /// successor onto it; otherwise removes the cluster at `at.x`. The row
    /// is highlighted again.
    pub fn delete(&mut self, at: &Position)
        requires
            old(self).wf(),
        ensures
            final(self).wf(),
            same_file(final(self)@, old(self)@),
            at.y >= old(self)@.rows.len() ==> final(self)@ == old(self)@,
            at.y < old(self)@.rows.len() ==> final(self)@.dirty && final(self)@.rows
                == rows_after_delete(old(self)@.rows, *at, old(self)@.filetype.opts),
    {
        let ghost rows0 = self@.rows;
        let len = self.rows.len();
        if at.y >= len {
            return;
        }
        self.dirty = true;
        let y = at.y;
        assert(self@.rows[y as int] == self.rows@[y as int]@);
        if at.x == self.rows[y].len() && y + 1 < len {
            let next_row = self.rows.remove(y + 1);
            let mut row = self.rows.remove(y);
            row.append(&next_row);
            row.highlight(None, self.filetype.highlighting_opts());
            self.rows.insert(y, row);
            assert(self@.rows =~= rows_after_delete(rows0, *at, self@.filetype.opts));
        } else {
            let mut row = self.rows.remove(y);
            row.delete(at.x);
            row.highlight(None, self.filetype.highlighting_opts());
            self.rows.insert(y, row);
            assert(self@.rows =~= rows_after_delete(rows0, *at, self@.filetype.opts));
        }
    }

    /// Where `query` is next found from `at`: forward to the end of the last
    /// row, or backward to the start of the first, row after row.
    pub fn find(&self, query: &str, at: &Position, direction: SearchDirection) -> (r: Option<
        Position,
    >)
        requires
            self.wf(),
        ensures
            match r {
                Some(p) => find_in_rows(self@.rows, query@, *at, direction == SearchDirection::Forward)
                    == Some((p.x as int, p.y as int)),
                None => find_in_rows(self@.rows, query@, *at, direction == SearchDirection::Forward)
                    is None,
            },
    {
        let ghost rows = self@.rows;
        let n = self.rows.len();
        if at.y >= n {
            return None;
        }
        let forward = direction == SearchDirection::Forward;
        let mut x = at.x;
        let mut y = at.y;
        loop
            invariant
                self.wf(),
                rows == self@.rows,
                n == rows.len(),
                y < n,
                forward == (direction == SearchDirection::Forward),
                find_in_rows(rows, query@, *at, forward) == if forward {
                    find_forward(rows, query@, x as int, y as int)
                } else {
                    find_backward(rows, query@, x as int, y as int)
                },
            decreases (if forward {
                n - y
            } else {
                y as int
            }),
        {
            assert(rows[y as int] == self.rows@[y as int]@);
            let row = &self.rows[y];
            let found = row.find(query, x, direction);
            assert(find_in(rows[y as int].content, query@, x as int, forward) == as_int(found));
            assert(forward ==> find_forward(rows, query@, x as int, y as int) == match as_int(found) {
                Some(k) => Some((k, y as int)),
                None => find_forward(rows, query@, 0, y + 1),
            });
            assert(!forward ==> find_backward(rows, query@, x as int, y as int) == match as_int(
                found,
            ) {
                Some(k) => Some((k, y as int)),
                None => if y == 0 {
                    None
                } else {
                    find_backward(rows, query@, rows[y - 1].len as int, y - 1)
                },
            });
            match found {
                Some(k) => {
                    return Some(Position { x: k, y });
                },
                None => {
                    if forward {
                        if y + 1 >= n {
                            assert(find_forward(rows, query@, 0, y + 1) == None::<(int, int)>);
                            return None;
                        }
                        y += 1;
                        x = 0;
                    } else {
                        if y == 0 {
                            return None;
                        }
                        y -= 1;
                        assert(rows[y as int] == self.rows@[y as int]@);
                        x = self.rows[y].len();
                    }
                },
            }
        }
    }

    /// Highlights every row again, marking the matches of `query`.
    pub fn highlight(&mut self, query: Option<&str>)
        requires
            old(self).wf(),
        ensures
            final(self).wf(),
            same_file(final(self)@, old(self)@),
            final(self)@.dirty == old(self)@.dirty,
            final(self)@.rows == rows_highlighted(
                old(self)@.rows,
                old(self)@.filetype.opts,
                match query {
                    Some(q) => Some(q@),
                    None => None,
                },
            ),
    {
        let ghost rows0 = self@.rows;
        let ghost q = match query {
            Some(q) => Some(q@),
            None => None,
        };
        let n = self.rows.len();
        let mut i: usize = 0;
        while i < n
            invariant
                i <= n == rows0.len(),
                q == match query {
                    Some(x) => Some(x@),
                    None => None,
                },
                self.wf(),
                same_file(self@, old(self)@),
                self@.dirty == old(self)@.dirty,
                self@.rows.len() == n,
                forall|j: int| i <= j < n ==> #[trigger] self@.rows[j] == rows0[j],
                forall|j: int|
                    0 <= j < i ==> #[trigger] self@.rows[j] == rows_highlighted(
                        rows0,
                        self@.filetype.opts,
                        q,
                    )[j],
            decreases n - i,
        {
            assert(self@.rows[i as int] == self.rows@[i as int]@);
            let ghost before = self.rows@;
            let mut row = self.rows.remove(i);
            row.highlight(query, self.filetype.highlighting_opts());
            self.rows.insert(i, row);
            assert(self.rows@ =~= before.update(i as int, row));
            assert(self@.rows =~= rows_view(before).update(i as int, row@));
            assert(row@.highlighting == highlight_of(rows0[i as int].content, self@.filetype.opts, q));
            assert(self@.rows[i as int] == rows_highlighted(rows0, self@.filetype.opts, q)[i as int]);
            i += 1;
        }
        assert(self@.rows =~= rows_highlighted(rows0, self@.filetype.opts, q));
    }

    /// The row at `index`.
    pub fn row(&self, index: usize) -> (r: Option<&Row>)
        ensures
            match r {
                Some(row) => index < self@.rows.len() && row@ == self@.rows[index as int],
                None => index >= self@.rows.len(),
            },
    {
        if index < self.rows.len() {
            Some(&self.rows[index])
        } else {
            None
        }
    }

    pub fn is_empty(&self) -> (r: bool)
        ensures
            r == (self@.rows.len() == 0),
    {
        self.rows.len() == 0
    }

    /// The number of rows.
    pub fn len(&self) -> (r: usize)
        ensures
            r == self@.rows.len(),
    {
        self.rows.len()
    }

    pub fn is_dirty(&self) -> (r: bool)
        ensures
            r == self@.dirty,
    {
        self.dirty
    }

    /// The name of the filetype.
    pub fn file_type(&self) -> (r: String)
        ensures
            r@ == self@.filetype.name,
    {
        self.filetype.name()
    }
}

/// `line_end` finds the first line feed from `i` on.
proof fn lemma_line_end(s: Seq<char>, i: int, k: int)
    requires
        0 <= i <= k < s.len(),
        s[k] == '\n',
        forall|j: int| i <= j < k ==> s[j] != '\n',
    ensures
        line_end(s, i) == k,
    decreases k - i,
{
    if i < k {
        lemma_line_end(s, i + 1, k);
    }
}

/// Reading back the rows' text that follows any prefix `p` gives the rows.
proof fn lemma_lines_after(p: Seq<char>, rows: Seq<RowView>)
    requires
        forall|i: int| 0 <= i < rows.len() ==> #[trigger] plain_line(rows[i].content),
    ensures
        lines_from(p + file_text(rows), p.len() as int) == contents_of(rows),
    decreases rows.len(),
{
    let lines = rows.map_values(|r: RowView| r.content.push('\n'));
    if rows.len() == 0 {
        assert(contents_of(rows) =~= Seq::<Seq<char>>::empty());
    } else {
        let r0 = rows[0].content;
        let rest = rows.drop_first();
        assert(plain_line(rows[0].content));
        assert(lines.drop_first() =~= rest.map_values(|r: RowView| r.content.push('\n')));
        assert(file_text(rows) == r0.push('\n') + file_text(rest));
        let q = p + r0.push('\n');
        let s = p + file_text(rows);
        assert(s =~= q + file_text(rest));
        let k = (p.len() + r0.len()) as int;
        assert forall|j: int| p.len() <= j < k implies s[j] != '\n' by {
            assert(s[j] == r0[j - p.len()]);
        }
        lemma_line_end(s, p.len() as int, k);
        assert(s.subrange(p.len() as int, k) =~= r0);
        assert forall|i: int| 0 <= i < rest.len() implies #[trigger] plain_line(rest[i].content) by {
            assert(plain_line(rows[i + 1].content));
        }
        lemma_lines_after(q, rest);
        assert(contents_of(rows) =~= seq![r0] + contents_of(rest));
    }
}

/// A line as a file stores it: no line feed in it and no carriage return at
/// its end.
pub open spec fn plain_line(l: Seq<char>) -> bool {
    &&& forall|j: int| 0 <= j < l.len() ==> l[j] != '\n'
    &&& !(l.len() > 0 && l.last() == '\r')
}

/// Saving a document and reading the file back gives the same rows' text,
/// when no row holds a line feed or ends with a carriage return.
pub proof fn save_then_reload(d: Document)
    requires
        forall|i: int| 0 <= i < d@.rows.len() ==> #[trigger] plain_line(d@.rows[i].content),
    ensures
        lines_of(file_text(d@.rows)) == contents_of(d@.rows),
{
    lemma_lines_after(Seq::empty(), d@.rows);
    assert(Seq::<char>::empty() + file_text(d@.rows) =~= file_text(d@.rows));
}

impl Default for Document {
    /// An empty document with no file name.
    fn default() -> (r: Self)
        ensures
            r.wf(),
            r@.rows.len() == 0,
            r@.filename is None,
            !r@.dirty,
            r@.filetype == filetype_of(Seq::empty()),
    {
        Document { rows: Vec::new(), filename: None, dirty: false, filetype: FileType::default() }
    }
}

} // verus!
