//! The text of terminal rows, kept from one drawing to the next.

use vstd::prelude::*;

use crate::domain::terminal::{TerminalCell, TerminalViewport};
use crate::renderer::encoding;

verus! {

/// The text of a row without its trailing white space.
pub open spec fn row_text(cells: Seq<TerminalCell>) -> Seq<char> {
    encoding::cell_text(cells.take(encoding::visible_len(cells) as int))
}

/// Writes the text of a row into a buffer that is used again; reports whether
/// there is any.
pub fn write_line_text(buffer: &mut String, cells: &[TerminalCell]) -> (written: bool)
    ensures
        final(buffer)@ == row_text(cells@),
        written == (final(buffer)@.len() > 0),
{
    buffer.clear();
    let end = encoding::visible_cell_count(cells);
    let mut index: usize = 0;
    assert(encoding::cell_text(cells@.take(0)) =~= Seq::<char>::empty());
    while index < end
        invariant
            index <= end <= cells@.len(),
            buffer@ =~= encoding::cell_text(cells@.take(index as int)),
        decreases end - index,
    {
        buffer.push(cells[index].character);
        index += 1;
    }
    end > 0
}

/// A row's text, and the version of the row that it was made from.
#[derive(Debug)]
pub struct CachedTerminalLineText {
    pub version: Option<u64>,
    pub text: String,
}

/// The texts of a viewport's rows.
#[derive(Debug)]
pub struct TerminalLineTextCache {
    pub rows: Vec<CachedTerminalLineText>,
    pub viewport_rows: usize,
    pub viewport_columns: usize,
}

impl Default for TerminalLineTextCache {
    fn default() -> (cache: Self)
        ensures
            cache.wf(),
            cache.rows@.len() == 0,
            cache.viewport_rows == 0,
            cache.viewport_columns == 0,
    {
        TerminalLineTextCache { rows: Vec::new(), viewport_rows: 0, viewport_columns: 0 }
    }
}

fn forgotten_line() -> (line: CachedTerminalLineText)
    ensures
        line.version is None,
        line.text@.len() == 0,
{
    CachedTerminalLineText { version: None, text: String::new() }
}

impl TerminalLineTextCache {
    /// There is a text for every row of the viewport it was made for, and more
    /// at most where it was cleared.
    pub open spec fn wf(&self) -> bool {
        self.viewport_rows <= self.rows@.len()
    }

    /// No text counts any more.
    pub open spec fn forgotten(&self) -> bool {
        forall|i: int| 0 <= i < self.rows@.len() ==> (#[trigger] self.rows@[i]).version is None
    }

    fn forget_rows(&mut self)
        ensures
            final(self).rows@.len() == old(self).rows@.len(),
            final(self).viewport_rows == old(self).viewport_rows,
            final(self).viewport_columns == old(self).viewport_columns,
            final(self).forgotten(),
    {
        let mut index: usize = 0;
        while index < self.rows.len()
            invariant
                index <= self.rows@.len(),
                self.rows@.len() == old(self).rows@.len(),
                self.viewport_rows == old(self).viewport_rows,
                self.viewport_columns == old(self).viewport_columns,
                forall|i: int| 0 <= i < index ==> (#[trigger] self.rows@[i]).version is None,
            decreases self.rows@.len() - index,
        {
            self.rows[index].version = None;
            self.rows[index].text.clear();
            index += 1;
        }
    }

    pub fn clear(&mut self)
        ensures
            final(self).wf(),
            final(self).viewport_rows == 0,
            final(self).viewport_columns == 0,
            final(self).rows@.len() == old(self).rows@.len(),
            final(self).forgotten(),
    {
        self.viewport_rows = 0;
        self.viewport_columns = 0;
        self.forget_rows();
    }

    /// Makes the cache ready for a viewport; what it held for one of another
    /// shape counts no more.
    pub fn sync_viewport_shape(&mut self, rows: usize, columns: usize)
        requires
            old(self).wf(),
        ensures
            final(self).wf(),
            final(self).viewport_rows == rows,
            final(self).viewport_columns == columns,
            old(self).viewport_rows == rows && old(self).viewport_columns == columns ==> *final(self)
                == *old(self),
            !(old(self).viewport_rows == rows && old(self).viewport_columns == columns) ==> final(self).rows@.len() == rows && final(self).forgotten(),
    {
        if self.viewport_rows == rows && self.viewport_columns == columns {
            return ;
        }
        self.viewport_rows = rows;
        self.viewport_columns = columns;
        self.rows.truncate(rows);
        while self.rows.len() < rows
            invariant
                self.rows@.len() <= rows,
                self.viewport_rows == rows,
                self.viewport_columns == columns,
            decreases rows - self.rows@.len(),
        {
            self.rows.push(forgotten_line());
        }
        self.forget_rows();
    }

    /// Whether the text that is kept for a row counts for a viewport.
    pub open spec fn counts_for(&self, viewport: TerminalViewport, row: int) -> bool {
        &&& self.viewport_rows == viewport.rows
        &&& self.viewport_columns == viewport.columns
        &&& self.rows@[row].version == Some(viewport.row_versions@[row])
    }

    /// The text of a row, made anew where the one kept was made from another
    /// version of it; `None` for a blank row.
    pub fn line_text(&mut self, viewport: &TerminalViewport, row: usize) -> (text: Option<&str>)
        requires
            old(self).wf(),
            viewport.wf(),
        ensures
            final(self).wf(),
            row >= viewport.rows ==> text is None && *final(self) == *old(self),
            row < viewport.rows ==> ({
                let shown = if old(self).counts_for(*viewport, row as int) {
                    old(self).rows@[row as int].text@
                } else {
                    row_text(viewport.row_cells(row as int))
                };
                &&& final(self).counts_for(*viewport, row as int)
                &&& final(self).rows@[row as int].text@ == shown
                &&& text is Some <==> shown.len() > 0
                &&& text matches Some(line) ==> line@ == shown
            }),
            row < viewport.rows && old(self).viewport_rows == viewport.rows
                && old(self).viewport_columns == viewport.columns ==> {
                &&& final(self).rows@.len() == old(self).rows@.len()
                &&& forall|other: int|
                    0 <= other < old(self).rows@.len() && other != row
                        ==> #[trigger] final(self).rows@[other] == old(self).rows@[other]
            },
            row < viewport.rows && !(old(self).viewport_rows == viewport.rows
                && old(self).viewport_columns == viewport.columns) ==> {
                &&& final(self).rows@.len() == viewport.rows
                &&& forall|other: int|
                    0 <= other < viewport.rows && other != row ==> (#[trigger] final(self).rows@[other]).version is None
            },
    {
        if row >= viewport.rows {
            return None;
        }
        self.sync_viewport_shape(viewport.rows, viewport.columns);
        let version: u64 = viewport.row_versions[row];
        let fresh = match self.rows[row].version {
            Some(held) => held == version,
            None => false,
        };
        if !fresh {
            if let Some(cells) = viewport.line_cells(row) {
                self.rows[row].version = Some(version);
                write_line_text(&mut self.rows[row].text, cells);
            }
        }
        if is_blank(self.rows[row].text.as_str()) {
            None
        } else {
            Some(self.rows[row].text.as_str())
        }
    }
}

fn is_blank(content: &str) -> (blank: bool)
    ensures
        blank == (content@.len() == 0),
{
    let blank = crate::text::text_equal(content, "");
    proof {
        reveal_strlit("");
        if content@.len() == 0 {
            assert(content@ =~= ""@);
        }
    }
    blank
}

/// The text of a row is its characters in order, without the white space behind the last
/// that is none.
pub proof fn law_row_text_is_the_visible_part(cells: Seq<TerminalCell>, i: int)
    requires
        0 <= i < cells.len(),
    ensures
        row_text(cells).len() <= cells.len(),
        i < row_text(cells).len() ==> row_text(cells)[i] == cells[i].character,
        i >= row_text(cells).len() ==> encoding::whitespace(cells[i].character),
        row_text(cells).len() > 0 ==> !encoding::whitespace(row_text(cells).last()),
{
    encoding::law_visible_cells_end_visibly(cells);
    if i >= encoding::visible_len(cells) {
        encoding::law_only_trailing_white_space_is_trimmed(cells, i);
    }
}

/// A text that is kept for a row counts for a viewport of the same shape and the same version
/// of the row, and for no other.
pub proof fn law_kept_text_counts_for_the_same_row(
    cache: TerminalLineTextCache,
    viewport: TerminalViewport,
    row: int,
)
    ensures
        cache.counts_for(viewport, row) ==> cache.viewport_rows == viewport.rows
            && cache.viewport_columns == viewport.columns && cache.rows@[row].version == Some(
            viewport.row_versions@[row],
        ),
        cache.forgotten() && 0 <= row < cache.rows@.len() ==> !cache.counts_for(viewport, row),
{
}

} // verus!
