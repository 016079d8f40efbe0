//! Terminal rows and labels as UTF-16 text.

use vstd::prelude::*;
use vstd::string::*;

use crate::domain::terminal::TerminalCell;
use crate::error::{AppError, AppResult};
use crate::num;
use crate::text;

verus! {

/// A cached line gives its memory back where it holds more than this many
/// times what it needs.
pub const LINE_CACHE_MAX_RETAINED_CAPACITY_FACTOR: usize = 4;

pub const LINE_TOO_LONG_MESSAGE: &'static str = "line is too long to render";

pub const TEXT_TOO_LONG_MESSAGE: &'static str = "text is too long to render";

/// Whether a character is white space: it has the Unicode property of that name.
pub open spec fn whitespace(character: char) -> bool {
    let code = character as int;
    ||| 0x09 <= code <= 0x0d
    ||| code == 0x20
    ||| code == 0x85
    ||| code == 0xa0
    ||| code == 0x1680
    ||| 0x2000 <= code <= 0x200a
    ||| code == 0x2028
    ||| code == 0x2029
    ||| code == 0x202f
    ||| code == 0x205f
    ||| code == 0x3000
}

/// `char::is_whitespace`: whether the character has the Unicode property
/// `White_Space`.
#[verifier::external_body]
pub(crate) fn is_whitespace(character: char) -> (blank: bool)
    ensures
        blank == whitespace(character),
{
    character.is_whitespace()
}

/// `Vec::capacity`: there is room for at least the elements that are there. How
/// much more the allocator gave depends on more than the contents, so that nothing
/// else is claimed of it.
#[verifier::external_body]
fn capacity_of<T>(values: &Vec<T>) -> (capacity: usize)
    ensures
        capacity >= values@.len(),
{
    values.capacity()
}

/// How many cells of a row are left without its trailing white space.
pub open spec fn visible_len(cells: Seq<TerminalCell>) -> nat
    decreases cells.len(),
{
    if cells.len() == 0 {
        0
    } else if !whitespace(cells.last().character) {
        cells.len()
    } else {
        visible_len(cells.drop_last())
    }
}

pub proof fn lemma_visible_len(cells: Seq<TerminalCell>)
    ensures
        visible_len(cells) <= cells.len(),
    decreases cells.len(),
{
    if cells.len() > 0 {
        lemma_visible_len(cells.drop_last());
    }
}

/// How many cells of a row are left without its trailing white space.
pub fn visible_cell_count(cells: &[TerminalCell]) -> (count: usize)
    ensures
        count == visible_len(cells@),
        count <= cells@.len(),
{
    let mut count: usize = cells.len();
    assert(cells@.take(count as int) =~= cells@);
    while count > 0
        invariant
            count <= cells@.len(),
            visible_len(cells@) == visible_len(cells@.take(count as int)),
        decreases count,
    {
        let ghost shown = cells@.take(count as int);
        if !is_whitespace(cells[count - 1].character) {
            assert(shown.last() == cells@[count - 1]);
            return count;
        }
        assert(shown.last() == cells@[count - 1]);
        assert(shown.drop_last() =~= cells@.take(count - 1));
        count -= 1;
    }
    0
}

/// A character in UTF-16: one unit, or two for characters above 0xFFFF.
pub open spec fn utf16(character: char) -> Seq<u16> {
    let code = character as u32;
    if code < 0x10000 {
        seq![code as u16]
    } else {
        seq![
            (0xD800 + (code - 0x10000) / 0x400) as u16,
            (0xDC00 + (code - 0x10000) % 0x400) as u16,
        ]
    }
}

/// A text in UTF-16.
pub open spec fn utf16_text(text: Seq<char>) -> Seq<u16>
    decreases text.len(),
{
    if text.len() == 0 {
        Seq::empty()
    } else {
        utf16_text(text.drop_last()) + utf16(text.last())
    }
}

/// The characters of a row.
pub open spec fn cell_text(cells: Seq<TerminalCell>) -> Seq<char> {
    cells.map_values(|cell: TerminalCell| cell.character)
}

/// How far to move after each unit of a row in UTF-16: over the cell after
/// the first unit of its character, and no further after a second one.
pub open spec fn unit_advances(text: Seq<char>, cell_width: int) -> Seq<i32>
    decreases text.len(),
{
    if text.len() == 0 {
        Seq::empty()
    } else {
        let rest = unit_advances(text.drop_last(), cell_width);
        if utf16(text.last()).len() == 1 {
            rest.push(cell_width as i32)
        } else {
            rest.push(cell_width as i32).push(0)
        }
    }
}

/// Appends a character in UTF-16; reports whether it took two units.
pub fn push_utf16(wide: &mut Vec<u16>, character: char) -> (pair: bool)
    ensures
        final(wide)@ == old(wide)@ + utf16(character),
        pair == (utf16(character).len() == 2),
{
    let code = character as u32;
    if code < 0x10000 {
        wide.push(code as u16);
        assert(wide@ =~= old(wide)@ + utf16(character));
        false
    } else {
        let above: u32 = code - 0x10000;
        wide.push((0xD800 + above / 0x400) as u16);
        wide.push((0xDC00 + above % 0x400) as u16);
        assert(wide@ =~= old(wide)@ + utf16(character));
        true
    }
}

/// Appends the first `count` cells of a row and their advances.
fn push_cells(
    wide: &mut Vec<u16>,
    advances: &mut Vec<i32>,
    cells: &[TerminalCell],
    count: usize,
    cell_width: i32,
)
    requires
        old(wide)@.len() == 0,
        old(advances)@.len() == 0,
        count <= cells@.len(),
    ensures
        final(wide)@ == utf16_text(cell_text(cells@.take(count as int))),
        final(advances)@ == unit_advances(cell_text(cells@.take(count as int)), cell_width as int),
{
    let mut index: usize = 0;
    assert(cell_text(cells@.take(0)) =~= Seq::<char>::empty());
    while index < count
        invariant
            index <= count <= cells@.len(),
            wide@ == utf16_text(cell_text(cells@.take(index as int))),
            advances@ == unit_advances(cell_text(cells@.take(index as int)), cell_width as int),
        decreases count - index,
    {
        proof {
            let longer = cell_text(cells@.take(index + 1));
            assert(longer.drop_last() =~= cell_text(cells@.take(index as int)));
            assert(longer.last() == cells@[index as int].character);
        }
        let pair = push_utf16(wide, cells[index].character);
        advances.push(cell_width);
        if pair {
            advances.push(0);
        }
        index += 1;
    }
}

/// Whether a buffer has room for more than the number of elements that is kept
/// where so many are required.
pub fn holds_excess_capacity(capacity: usize, required: usize) -> (excess: bool)
    ensures
        excess == (capacity > required * LINE_CACHE_MAX_RETAINED_CAPACITY_FACTOR),
        excess == (capacity > 4 * required),
{
    let max_retained = num::saturating_mul_usize(
        required,
        LINE_CACHE_MAX_RETAINED_CAPACITY_FACTOR,
    );
    capacity > max_retained
}

/// Gives a buffer's memory back, and its elements with it, where it has room for
/// far more than is required; leaves it alone otherwise. A buffer that is longer
/// than what is kept is given back in any case. How much room there is behind
/// the elements is up to the allocator.
fn release_excess_line_cache_capacity<T>(values: &mut Vec<T>, required: usize)
    ensures
        final(values)@ == old(values)@ || final(values)@.len() == 0,
        old(values)@.len() > required * LINE_CACHE_MAX_RETAINED_CAPACITY_FACTOR
            ==> final(values)@.len() == 0,
{
    if holds_excess_capacity(capacity_of(values), required) {
        *values = Vec::new();
    }
}

/// How much room is asked for where a buffer has some and more is required.
pub fn missing_capacity(capacity: usize, required: usize) -> (missing: Option<usize>)
    ensures
        capacity >= required ==> missing is None,
        capacity < required ==> missing == Some((required - capacity) as usize),
{
    if capacity < required {
        Some(required - capacity)
    } else {
        None
    }
}

/// What comes of asking for room.
pub fn reservation_result(reserved: bool, error: &'static str) -> (result: AppResult<()>)
    ensures
        result == (if reserved {
            Ok(())
        } else {
            Err(AppError::InvalidInput(error))
        }),
{
    if reserved {
        Ok(())
    } else {
        Err(AppError::InvalidInput(error))
    }
}

/// Makes room in a buffer; fails where there is no memory for it. No room has to be
/// made where there are as many elements already.
fn ensure_vec_capacity<T>(buffer: &mut Vec<T>, required: usize, error: &'static str) -> (result:
    AppResult<()>)
    ensures
        final(buffer)@ == old(buffer)@,
        required <= old(buffer)@.len() ==> result is Ok,
        result matches Err(failure) ==> failure == AppError::InvalidInput(error),
{
    match missing_capacity(capacity_of(buffer), required) {
        Some(missing) => reservation_result(buffer.try_reserve(missing).is_ok(), error),
        None => Ok(()),
    }
}

/// How many units a row of so many visible cells may need: two for each.
pub fn line_units(visible_cells: usize) -> (units: AppResult<usize>)
    ensures
        units == (if visible_cells * 2 <= usize::MAX {
            Ok::<usize, AppError>((visible_cells * 2) as usize)
        } else {
            Err(AppError::InvalidInput(LINE_TOO_LONG_MESSAGE))
        }),
{
    match visible_cells.checked_mul(2) {
        Some(units) => Ok(units),
        None => Err(AppError::InvalidInput(LINE_TOO_LONG_MESSAGE)),
    }
}

/// Makes the buffers ready for a row of so many visible cells. Whether there
/// is memory for it is not in the caller's hands.
fn prepare_line_buffers(wide: &mut Vec<u16>, advances: &mut Vec<i32>, visible_cells: usize) -> (result:
    AppResult<()>)
    ensures
        final(wide)@.len() == 0,
        final(advances)@.len() == 0,
        visible_cells == 0 ==> result is Ok,
        visible_cells * 2 > usize::MAX ==> result is Err,
        result matches Err(failure) ==> failure == AppError::InvalidInput(LINE_TOO_LONG_MESSAGE),
{
    wide.clear();
    advances.clear();
    let units = match line_units(visible_cells) {
        Ok(units) => units,
        Err(error) => return Err(error),
    };
    release_excess_line_cache_capacity(wide, units);
    release_excess_line_cache_capacity(advances, units);
    if units == 0 {
        return Ok(());
    }
    match ensure_vec_capacity(wide, units, LINE_TOO_LONG_MESSAGE) {
        Err(error) => Err(error),
        Ok(()) => ensure_vec_capacity(advances, units, LINE_TOO_LONG_MESSAGE),
    }
}

/// A terminal row in UTF-16, without its trailing white space.
pub fn encode_terminal_cells_utf16(
    wide: &mut Vec<u16>,
    advances: &mut Vec<i32>,
    cells: &[TerminalCell],
    cell_width: i32,
) -> (result: AppResult<()>)
    ensures
        result is Ok ==> {
            let text = cell_text(cells@.take(visible_len(cells@) as int));
            &&& final(wide)@ == utf16_text(text)
            &&& final(advances)@ == unit_advances(text, num::max_int(cell_width as int, 1))
        },
        visible_len(cells@) == 0 ==> result is Ok,
        visible_len(cells@) * 2 > usize::MAX ==> result is Err,
        result is Err ==> final(wide)@.len() == 0 && final(advances)@.len() == 0,
        result matches Err(failure) ==> failure == AppError::InvalidInput(LINE_TOO_LONG_MESSAGE),
{
    let count = visible_cell_count(cells);
    match prepare_line_buffers(wide, advances, count) {
        Err(error) => Err(error),
        Ok(()) => {
            push_cells(wide, advances, cells, count, num::max_i32(cell_width, 1));
            Ok(())
        },
    }
}

/// A number that tells rows of cells apart: FNV-1a over the characters, with
/// the length mixed in.
pub open spec fn fingerprint_of(cells: Seq<TerminalCell>) -> u64
    decreases cells.len(),
{
    if cells.len() == 0 {
        0xcbf2_9ce4_8422_2325u64
    } else {
        (fingerprint_of(cells.drop_last()) ^ (cells.last().character as u64)).wrapping_mul(
            0x0000_0100_0000_01b3u64,
        )
    }
}

pub fn terminal_cells_fingerprint(cells: &[TerminalCell]) -> (fingerprint: u64)
    ensures
        fingerprint == fingerprint_of(cells@) ^ (cells@.len() as u64),
{
    let mut hash: u64 = 0xcbf2_9ce4_8422_2325;
    let mut index: usize = 0;
    assert(cells@.take(0) =~= Seq::<TerminalCell>::empty());
    while index < cells.len()
        invariant
            index <= cells@.len(),
            hash == fingerprint_of(cells@.take(index as int)),
        decreases cells@.len() - index,
    {
        proof {
            let longer = cells@.take(index + 1);
            assert(longer.drop_last() =~= cells@.take(index as int));
            assert(longer.last() == cells@[index as int]);
        }
        hash = (hash ^ (cells[index].character as u64)).wrapping_mul(0x0000_0100_0000_01b3);
        index += 1;
    }
    assert(cells@.take(index as int) =~= cells@);
    hash ^ (cells.len() as u64)
}

/// A row in UTF-16, with what it was made from.
#[derive(Debug)]
pub struct EncodedLine {
    pub wide: Vec<u16>,
    pub advances: Vec<i32>,
    pub columns: usize,
    pub cell_width: i32,
    pub is_valid: bool,
    pub row_version: Option<u64>,
    pub fingerprint: u64,
}

impl Default for EncodedLine {
    fn default() -> (line: Self)
        ensures
            !line.is_valid,
            line.wide@.len() == 0,
            line.advances@.len() == 0,
    {
        EncodedLine {
            wide: Vec::new(),
            advances: Vec::new(),
            columns: 0,
            cell_width: 0,
            is_valid: false,
            row_version: None,
            fingerprint: 0,
        }
    }
}

impl EncodedLine {
    /// Whether the line was made for such a row.
    pub open spec fn fits(
        &self,
        columns: usize,
        row_version: Option<u64>,
        cell_width: i32,
        fingerprint: u64,
    ) -> bool {
        &&& row_version is Some
        &&& self.is_valid
        &&& self.columns == columns
        &&& self.cell_width == cell_width
        &&& self.row_version == row_version
        &&& self.fingerprint == fingerprint
    }

    /// The line is the given row in UTF-16.
    pub open spec fn holds(&self, cells: Seq<TerminalCell>) -> bool {
        let text = cell_text(cells.take(visible_len(cells) as int));
        &&& self.wide@ == utf16_text(text)
        &&& self.advances@ == unit_advances(text, self.cell_width as int)
    }

    pub fn is_valid_for(
        &self,
        columns: usize,
        row_version: Option<u64>,
        cell_width: i32,
        fingerprint: u64,
    ) -> (valid: bool)
        ensures
            valid == self.fits(columns, row_version, cell_width, fingerprint),
    {
        let same_version = match (row_version, self.row_version) {
            (Some(wanted), Some(held)) => wanted == held,
            _ => false,
        };
        same_version && self.is_valid && self.columns == columns && self.cell_width == cell_width
            && self.fingerprint == fingerprint
    }

    /// Makes the line anew for a row; without memory it stays invalid.
    pub fn refresh_utf16(
        &mut self,
        cells: &[TerminalCell],
        row_version: Option<u64>,
        cell_width: i32,
    ) -> (result: AppResult<()>)
        ensures
            final(self).is_valid == (result is Ok),
            final(self).columns == cells@.len(),
            final(self).cell_width == num::max_int(cell_width as int, 1),
            final(self).row_version == row_version,
            final(self).fingerprint == fingerprint_of(cells@) ^ (cells@.len() as u64),
            result is Ok ==> final(self).holds(cells@),
            visible_len(cells@) == 0 ==> result is Ok,
            visible_len(cells@) * 2 > usize::MAX ==> result is Err,
            result is Err ==> final(self).wide@.len() == 0 && final(self).advances@.len() == 0,
            result matches Err(failure) ==> failure == AppError::InvalidInput(
                LINE_TOO_LONG_MESSAGE,
            ),
    {
        self.is_valid = false;
        self.columns = cells.len();
        self.cell_width = num::max_i32(cell_width, 1);
        self.row_version = row_version;
        self.fingerprint = terminal_cells_fingerprint(cells);
        match encode_terminal_cells_utf16(
            &mut self.wide,
            &mut self.advances,
            cells,
            self.cell_width,
        ) {
            Err(error) => Err(error),
            Ok(()) => {
                self.is_valid = true;
                Ok(())
            },
        }
    }

    pub fn utf16(&self) -> (units: &[u16])
        ensures
            units@ == self.wide@,
    {
        self.wide.as_slice()
    }

    pub fn advances(&self) -> (advances: &[i32])
        ensures
            advances@ == self.advances@,
    {
        self.advances.as_slice()
    }
}

/// Every unit has an advance, and together they cover the visible cells.
pub proof fn law_advances_cover_visible_cells(text: Seq<char>, cell_width: int)
    requires
        0 <= cell_width <= i32::MAX,
    ensures
        unit_advances(text, cell_width).len() == utf16_text(text).len(),
        total_advance(unit_advances(text, cell_width)) == text.len() * cell_width,
    decreases text.len(),
{
    if text.len() > 0 {
        let rest = text.drop_last();
        law_advances_cover_visible_cells(rest, cell_width);
        let before = unit_advances(rest, cell_width);
        let once = before.push(cell_width as i32);
        assert(once.drop_last() =~= before);
        assert(once.push(0).drop_last() =~= once);
        assert(total_advance(once) == total_advance(before) + cell_width);
        assert(total_advance(once.push(0)) == total_advance(once));
        assert(text.len() * cell_width == rest.len() * cell_width + cell_width) by (nonlinear_arith)
            requires
                text.len() == rest.len() + 1,
        ;
    } else {
        assert(text.len() * cell_width == 0) by (nonlinear_arith)
            requires
                text.len() == 0,
        ;
    }
}

pub open spec fn total_advance(advances: Seq<i32>) -> int
    decreases advances.len(),
{
    if advances.len() == 0 {
        0
    } else {
        total_advance(advances.drop_last()) + advances.last()
    }
}

/// Only white space is left out of a row, and only at its end.
pub proof fn law_only_trailing_white_space_is_trimmed(cells: Seq<TerminalCell>, i: int)
    requires
        visible_len(cells) <= i < cells.len(),
    ensures
        whitespace(cells[i].character),
    decreases cells.len(),
{
    if i < cells.len() - 1 {
        law_only_trailing_white_space_is_trimmed(cells.drop_last(), i);
    }
}

/// A text in UTF-16, in a buffer that is used again. It fails only where there
/// is no memory for it.
pub fn encode_str_utf16(buffer: &mut Vec<u16>, content: &str, error: &'static str) -> (result:
    AppResult<()>)
    ensures
        result is Ok ==> final(buffer)@ == utf16_text(content@),
        content@.len() == 0 ==> result is Ok,
        result matches Err(failure) ==> failure == AppError::InvalidInput(error)
            && final(buffer)@.len() == 0,
{
    buffer.clear();
    let chars = text::chars_of(content);
    if chars.len() == 0 {
        assert(chars@ =~= Seq::<char>::empty());
        return Ok(());
    }
    match ensure_vec_capacity(buffer, content.len(), error) {
        Err(failure) => Err(failure),
        Ok(()) => {
            push_chars(buffer, &chars);
            Ok(())
        },
    }
}

/// How many units of a label are drawn, once it was encoded; `encoded` is how that
/// went.
pub fn label_units(encoded: AppResult<()>, units: usize) -> (result: AppResult<Option<i32>>)
    ensures
        match encoded {
            Err(failure) => result == Err::<Option<i32>, AppError>(failure),
            Ok(()) => if units <= i32::MAX {
                result == Ok::<Option<i32>, AppError>(Some(units as i32))
            } else {
                result == Err::<Option<i32>, AppError>(
                    AppError::InvalidInput(TEXT_TOO_LONG_MESSAGE),
                )
            },
        },
{
    match encoded {
        Err(error) => Err(error),
        Ok(()) => if units <= i32::MAX as usize {
            Ok(Some(units as i32))
        } else {
            Err(AppError::InvalidInput(TEXT_TOO_LONG_MESSAGE))
        },
    }
}

/// Encodes a label to draw and counts its units; there is nothing to draw for an
/// empty one. It fails where the count is too large, and where there is no memory
/// for it.
pub fn encode_label(buffer: &mut Vec<u16>, content: &str) -> (result: AppResult<Option<i32>>)
    ensures
        content@.len() == 0 ==> {
            &&& result == Ok::<Option<i32>, AppError>(None)
            &&& final(buffer)@ == old(buffer)@
        },
        utf16_text(content@).len() > i32::MAX ==> result is Err,
        content@.len() > 0 ==> match result {
            Ok(count) => {
                &&& final(buffer)@ == utf16_text(content@)
                &&& count is Some
                &&& count->0 == utf16_text(content@).len()
            },
            Err(error) => {
                &&& error == AppError::InvalidInput(TEXT_TOO_LONG_MESSAGE)
                &&& final(buffer)@.len() == 0 || utf16_text(content@).len() > i32::MAX
            },
        },
{
    if content.unicode_len() == 0 {
        return Ok(None);
    }
    let encoded = encode_str_utf16(buffer, content, TEXT_TOO_LONG_MESSAGE);
    label_units(encoded, buffer.len())
}

/// Appends a text in UTF-16 to an empty buffer.
fn push_chars(buffer: &mut Vec<u16>, chars: &Vec<char>)
    requires
        old(buffer)@.len() == 0,
    ensures
        final(buffer)@ == utf16_text(chars@),
{
    let mut index: usize = 0;
    assert(chars@.take(0) =~= Seq::<char>::empty());
    while index < chars.len()
        invariant
            index <= chars@.len(),
            buffer@ == utf16_text(chars@.take(index as int)),
        decreases chars@.len() - index,
    {
        proof {
            let longer = chars@.take(index + 1);
            assert(longer.drop_last() =~= chars@.take(index as int));
            assert(longer.last() == chars@[index as int]);
        }
        push_utf16(buffer, chars[index]);
        index += 1;
    }
    assert(chars@.take(index as int) =~= chars@);
}

/// A text in UTF-16 with a 0 behind it.
pub fn wide_null(content: &str) -> (units: Vec<u16>)
    ensures
        units@ == utf16_text(content@).push(0),
{
    let chars = text::chars_of(content);
    let mut units: Vec<u16> = Vec::new();
    push_chars(&mut units, &chars);
    units.push(0);
    units
}

/// How many units a text takes in UTF-16.
pub fn utf16_len(content: &str) -> (count: usize)
    ensures
        count == utf16_text(content@).len(),
{
    let chars = text::chars_of(content);
    let mut units: Vec<u16> = Vec::new();
    push_chars(&mut units, &chars);
    units.len()
}

/// What is shown of a text in a width of so many cells: all of it, or its
/// beginning with three dots, which need a width of more than three cells.
pub open spec fn shortened(content: Seq<char>, max_chars: int) -> Seq<char> {
    if content.len() <= max_chars {
        content
    } else if max_chars <= 3 {
        content.take(max_chars)
    } else {
        content.take(max_chars - 3) + seq!['.', '.', '.']
    }
}

/// Shortens a text to what fits into a width.
pub fn truncate_for_width(content: &str, max_width: i32, cell_width: i32) -> (shown: String)
    ensures
        shown@ == (if max_width <= 0 {
            Seq::<char>::empty()
        } else {
            shortened(content@, max_width as int / num::max_int(cell_width as int, 1))
        }),
{
    if max_width <= 0 {
        return String::new();
    }
    let max_chars: usize = (max_width / num::max_i32(cell_width, 1)) as usize;
    let chars = text::chars_of(content);
    if chars.len() <= max_chars {
        return text::text_of(&chars);
    }
    let kept = if max_chars <= 3 {
        max_chars
    } else {
        max_chars - 3
    };
    let mut shown = String::new();
    let mut index: usize = 0;
    while index < kept
        invariant
            index <= kept <= chars@.len(),
            chars@ == content@,
            shown@ =~= content@.take(index as int),
        decreases kept - index,
    {
        shown.push(chars[index]);
        index += 1;
    }
    if max_chars > 3 {
        shown.push('.');
        shown.push('.');
        shown.push('.');
        assert(shown@ =~= content@.take(max_chars - 3) + seq!['.', '.', '.']);
    }
    shown
}

/// How wide a text is about, at one cell per unit.
pub fn approximate_text_width(content: &str, cell_width: i32) -> (width: i32)
    ensures
        width == num::clamped(
            num::clamped(utf16_text(content@).len() as int) * num::max_int(cell_width as int, 1),
        ),
{
    num::saturating_mul(num::i32_from_usize(utf16_len(content)), num::max_i32(cell_width, 1))
}

/// A character can be read back from its units: it is the only one, or what the two of them
/// make up, of which the first says that a second follows and the second that it is one.
pub proof fn law_units_give_the_character_back(character: char)
    ensures
        ({
            let units = utf16(character);
            let code = character as int;
            &&& units.len() == 1 || units.len() == 2
            &&& units.len() == 1 ==> units[0] == code && !(0xD800 <= units[0] < 0xE000)
            &&& units.len() == 2 ==> {
                &&& 0xD800 <= units[0] < 0xDC00
                &&& 0xDC00 <= units[1] < 0xE000
                &&& 0x10000 + (units[0] - 0xD800) * 0x400 + (units[1] - 0xDC00) == code
            }
        }),
{
}

/// Texts that are put together are encoded one behind the other, and so are the advances of
/// their units: the cell's width after the first unit of a character and nothing after the
/// second.
pub proof fn law_texts_are_encoded_one_by_one(
    first: Seq<char>,
    second: Seq<char>,
    character: char,
    cell_width: i32,
)
    ensures
        utf16_text(first + second) == utf16_text(first) + utf16_text(second),
        utf16_text(seq![character]) == utf16(character),
        utf16_text(Seq::<char>::empty()).len() == 0,
        unit_advances(first + second, cell_width as int) == unit_advances(first, cell_width as int)
            + unit_advances(second, cell_width as int),
        unit_advances(seq![character], cell_width as int) == (if utf16(character).len() == 1 {
            seq![cell_width]
        } else {
            seq![cell_width, 0i32]
        }),
    decreases second.len(),
{
    let empty = Seq::<char>::empty();
    assert(seq![character].drop_last() =~= empty);
    assert(utf16_text(empty) =~= Seq::<u16>::empty());
    assert(unit_advances(empty, cell_width as int) =~= Seq::<i32>::empty());
    assert(utf16_text(seq![character]) =~= utf16(character));
    assert(unit_advances(seq![character], cell_width as int) =~= (if utf16(character).len() == 1 {
        seq![cell_width]
    } else {
        seq![cell_width, 0i32]
    }));
    if second.len() == 0 {
        assert(first + second =~= first);
        assert(utf16_text(first) + utf16_text(second) =~= utf16_text(first));
        assert(unit_advances(first, cell_width as int) + unit_advances(second, cell_width as int)
            =~= unit_advances(first, cell_width as int));
    } else {
        law_texts_are_encoded_one_by_one(first, second.drop_last(), character, cell_width);
        assert((first + second).drop_last() =~= first + second.drop_last());
        assert((first + second).last() == second.last());
        assert(utf16_text(first + second) =~= utf16_text(first) + utf16_text(second));
        assert(unit_advances(first + second, cell_width as int) =~= unit_advances(
            first,
            cell_width as int,
        ) + unit_advances(second, cell_width as int));
    }
}

/// What is left of a row ends with a character that is no white space, and begins as the row
/// does; a row of nothing but white space leaves nothing.
pub proof fn law_visible_cells_end_visibly(cells: Seq<TerminalCell>)
    ensures
        visible_len(cells) <= cells.len(),
        visible_len(cells) > 0 ==> !whitespace(cells[visible_len(cells) - 1].character),
        visible_len(cells) == 0 <==> forall|i: int|
            0 <= i < cells.len() ==> whitespace((#[trigger] cells[i]).character),
    decreases cells.len(),
{
    if cells.len() > 0 {
        let rest = cells.drop_last();
        law_visible_cells_end_visibly(rest);
        assert(forall|i: int| 0 <= i < rest.len() ==> #[trigger] rest[i] == cells[i]);
        if visible_len(cells) == 0 {
            assert forall|i: int| 0 <= i < cells.len() implies whitespace(
                (#[trigger] cells[i]).character,
            ) by {
                if i < rest.len() {
                    assert(whitespace(rest[i].character));
                }
            }
        }
    }
}

/// A blank and the characters that break or indent lines are white space; no other character
/// of ASCII is.
pub proof fn law_white_space_of_ascii(character: char)
    requires
        (character as u32) < 0x80,
    ensures
        whitespace(character) <==> character == ' ' || 9 <= character as u32 <= 13,
{
}

/// A line that was made for a row is taken again exactly for a row of the same version, with
/// as many columns, cells as wide and the same fingerprint; one that is not valid is never.
pub proof fn law_line_is_taken_again_for_the_same_row(
    line: EncodedLine,
    columns: usize,
    row_version: Option<u64>,
    cell_width: i32,
    fingerprint: u64,
)
    ensures
        line.fits(columns, row_version, cell_width, fingerprint) ==> line.is_valid
            && row_version is Some && line.row_version == row_version && line.columns == columns
            && line.cell_width == cell_width && line.fingerprint == fingerprint,
        line.is_valid && row_version is Some && line.row_version == row_version && line.columns
            == columns && line.cell_width == cell_width && line.fingerprint == fingerprint
            ==> line.fits(columns, row_version, cell_width, fingerprint),
{
}

/// The number that tells rows apart is mixed from the row's characters, one after the other, and
/// not from anything else of its cells.
pub proof fn law_fingerprint_is_of_the_characters(left: Seq<TerminalCell>, right: Seq<TerminalCell>)
    requires
        left.len() == right.len(),
        forall|i: int|
            0 <= i < left.len() ==> (#[trigger] left[i]).character == right[i].character,
    ensures
        fingerprint_of(left) == fingerprint_of(right),
        left.len() == 0 ==> fingerprint_of(left) == 0xcbf2_9ce4_8422_2325u64,
    decreases left.len(),
{
    if left.len() > 0 {
        assert(left[left.len() - 1].character == right[left.len() - 1].character);
        assert forall|i: int| 0 <= i < left.drop_last().len() implies (
        #[trigger] left.drop_last()[i]).character == right.drop_last()[i].character by {
            assert(left[i].character == right[i].character);
        }
        law_fingerprint_is_of_the_characters(left.drop_last(), right.drop_last());
    }
}

/// A line that holds a row has the text of the row's visible cells in UTF-16, and an advance for
/// each of its units.
pub proof fn law_held_row_is_its_text(line: EncodedLine, cells: Seq<TerminalCell>)
    requires
        line.holds(cells),
    ensures
        line.wide@ == utf16_text(cell_text(cells.take(visible_len(cells) as int))),
        line.advances@ == unit_advances(
            cell_text(cells.take(visible_len(cells) as int)),
            line.cell_width as int,
        ),
{
}

} // verus!
