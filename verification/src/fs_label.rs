//! FreeSurfer label files.
//!
//! A label groups vertices of a surface, or voxels of a volume: all vertices
//! of one brain region, say. Nothing asks that they lie side by side. Each
//! entry of a label holds the index of a vertex, its three coordinates and a
//! value.
//!
//! A label file is text. Its first line is a comment, its second the number
//! of entries, and each line behind them holds one entry: the index and four
//! floats, with whitespace between them. [`read_label`] splits a file into
//! these fields and reads the integers; the floats it hands out as they are
//! written. [`FsLabel`] holds them as the bit patterns of 32-bit floats.

use crate::error::{ErrorKind, NeuroformatsError};
use crate::float::{float_eq, floats_equal};
use crate::reader::agrees;
use vstd::prelude::*;
use vstd::slice::{slice_subrange, slice_to_vec};

verus! {

/// Whether a byte is ASCII whitespace: a blank, or one of tab, line feed,
/// vertical tab, form feed and carriage return.
pub open spec fn is_space(b: u8) -> bool {
    b == 32 || (9 <= b && b <= 13)
}

/// The offset of the first line feed at `from` or later; the length of
/// `bytes` where there is none.
pub open spec fn line_end(bytes: Seq<u8>, from: int) -> int
    decreases bytes.len() - from,
{
    if from < 0 || from >= bytes.len() {
        bytes.len() as int
    } else if bytes[from] == 10 {
        from
    } else {
        line_end(bytes, from + 1)
    }
}

/// The line that starts at `from`: the bytes up to the next line feed, and,
/// where there is a line feed, without a carriage return before it.
pub open spec fn line_at(bytes: Seq<u8>, from: int) -> Seq<u8> {
    let end = line_end(bytes, from);
    if from < end < bytes.len() && bytes[end - 1] == 13 {
        bytes.subrange(from, end - 1)
    } else {
        bytes.subrange(from, end)
    }
}

/// The lines of `bytes` from `from` on. A line feed ends a line; what stands
/// behind the last line feed is a line too, unless it is empty.
pub open spec fn lines_from(bytes: Seq<u8>, from: int) -> Seq<Seq<u8>>
    decreases bytes.len() - from,
{
    let end = line_end(bytes, from);
    if from < 0 || from >= bytes.len() {
        Seq::empty()
    } else if from <= end < bytes.len() {
        seq![line_at(bytes, from)] + lines_from(bytes, end + 1)
    } else {
        seq![line_at(bytes, from)]
    }
}

/// The offset of the first byte at `from` or later that is no whitespace;
/// the length of `line` where there is none.
pub open spec fn field_start(line: Seq<u8>, from: int) -> int
    decreases line.len() - from,
{
    if from < 0 || from >= line.len() {
        line.len() as int
    } else if !is_space(line[from]) {
        from
    } else {
        field_start(line, from + 1)
    }
}

/// The offset of the first whitespace at `from` or later; the length of
/// `line` where there is none.
pub open spec fn field_end(line: Seq<u8>, from: int) -> int
    decreases line.len() - from,
{
    if from < 0 || from >= line.len() {
        line.len() as int
    } else if is_space(line[from]) {
        from
    } else {
        field_end(line, from + 1)
    }
}

/// The fields of `line` from `from` on: the longest runs of bytes without
/// whitespace.
pub open spec fn fields_from(line: Seq<u8>, from: int) -> Seq<Seq<u8>>
    decreases line.len() - from,
{
    let start = field_start(line, from);
    let end = field_end(line, start);
    if from < 0 || start >= line.len() || start < from || end <= start || end > line.len() {
        Seq::empty()
    } else {
        seq![line.subrange(start, end)] + fields_from(line, end)
    }
}

/// Whether all bytes are decimal digits.
pub open spec fn all_digits(text: Seq<u8>) -> bool {
    forall|i: int| 0 <= i < text.len() ==> 48 <= #[trigger] text[i] <= 57
}

/// The number that decimal digits spell.
pub open spec fn digits_value(digits: Seq<u8>) -> int
    decreases digits.len(),
{
    if digits.len() == 0 {
        0
    } else {
        digits_value(digits.drop_last()) * 10 + (digits.last() - 48)
    }
}

/// The `i32` that `text` spells in decimal: digits, at least one, with or
/// without one sign before them. `None` where `text` is not of that form or
/// spells a number that is no `i32`.
pub open spec fn decimal_i32(text: Seq<u8>) -> Option<i32> {
    let signed = text.len() > 0 && (text[0] == 45 || text[0] == 43);
    let digits = if signed {
        text.drop_first()
    } else {
        text
    };
    let value = if text.len() > 0 && text[0] == 45 {
        -digits_value(digits)
    } else {
        digits_value(digits)
    };
    if digits.len() == 0 || !all_digits(digits) || value < i32::MIN || value > i32::MAX {
        None
    } else {
        Some(value as i32)
    }
}

/// One entry of a label, as a line of a label file holds it.
pub struct LabelEntry {
    pub vertex_index: i32,
    pub coord1: Seq<u8>,
    pub coord2: Seq<u8>,
    pub coord3: Seq<u8>,
    pub value: Seq<u8>,
}

/// The entry that a line holds: its first five fields, of which the first is
/// an `i32` in decimal. Further fields do not count. `None` for a line with
/// fewer than five fields, or with a first field that is no `i32`.
pub open spec fn label_entry(line: Seq<u8>) -> Option<LabelEntry> {
    let fields = fields_from(line, 0);
    if fields.len() < 5 {
        None
    } else {
        match decimal_i32(fields[0]) {
            Some(vertex_index) => Some(
                LabelEntry {
                    vertex_index,
                    coord1: fields[1],
                    coord2: fields[2],
                    coord3: fields[3],
                    value: fields[4],
                },
            ),
            None => None,
        }
    }
}

/// The entries of a label file, with the floats as they are written.
#[derive(Debug, Clone, PartialEq)]
pub struct FsLabelText {
    pub vertex_index: Vec<i32>,
    pub coord1: Vec<Vec<u8>>,
    pub coord2: Vec<Vec<u8>>,
    pub coord3: Vec<Vec<u8>>,
    pub value: Vec<Vec<u8>>,
}

/// An [`FsLabelText`] in contracts.
pub struct FsLabelTextView {
    pub vertex_index: Seq<i32>,
    pub coord1: Seq<Seq<u8>>,
    pub coord2: Seq<Seq<u8>>,
    pub coord3: Seq<Seq<u8>>,
    pub value: Seq<Seq<u8>>,
}

impl View for FsLabelText {
    type V = FsLabelTextView;

    open spec fn view(&self) -> FsLabelTextView {
        FsLabelTextView {
            vertex_index: self.vertex_index@,
            coord1: self.coord1@.map_values(|t: Vec<u8>| t@),
            coord2: self.coord2@.map_values(|t: Vec<u8>| t@),
            coord3: self.coord3@.map_values(|t: Vec<u8>| t@),
            value: self.value@.map_values(|t: Vec<u8>| t@),
        }
    }
}

/// The number of entries that a file with these lines declares: what its
/// second line spells, and none where it has no second line. `None` where
/// the second line is no `i32`.
pub open spec fn declared_entries(lines: Seq<Seq<u8>>) -> Option<i32> {
    if lines.len() < 2 {
        Some(0)
    } else {
        decimal_i32(lines[1])
    }
}

/// The number of data lines of a file with these lines: all lines but the
/// first two.
pub open spec fn data_lines(lines: Seq<Seq<u8>>) -> int {
    if lines.len() < 2 {
        0
    } else {
        lines.len() - 2
    }
}

/// The entries of the first `upto` data lines, column by column.
pub open spec fn entries_upto(lines: Seq<Seq<u8>>, upto: int) -> FsLabelTextView {
    FsLabelTextView {
        vertex_index: Seq::new(upto as nat, |i: int| label_entry(lines[i + 2])->Some_0.vertex_index),
        coord1: Seq::new(upto as nat, |i: int| label_entry(lines[i + 2])->Some_0.coord1),
        coord2: Seq::new(upto as nat, |i: int| label_entry(lines[i + 2])->Some_0.coord2),
        coord3: Seq::new(upto as nat, |i: int| label_entry(lines[i + 2])->Some_0.coord3),
        value: Seq::new(upto as nat, |i: int| label_entry(lines[i + 2])->Some_0.value),
    }
}

/// Whether a file with these lines is a label file: its second line, where
/// it has one, is an `i32`; each line behind it holds an entry; and there
/// are as many of these lines as the second line says.
pub open spec fn well_formed_label(lines: Seq<Seq<u8>>) -> bool {
    &&& declared_entries(lines) is Some
    &&& forall|i: int| 2 <= i < lines.len() ==> (#[trigger] label_entry(lines[i])) is Some
    &&& declared_entries(lines)->Some_0 == data_lines(lines)
}

/// What a label file holds: its entries, or the error
/// [`ErrorKind::InvalidFsLabelFormat`] where it is not well formed.
pub open spec fn decode_label(bytes: Seq<u8>) -> Result<FsLabelTextView, ErrorKind> {
    let lines = lines_from(bytes, 0);
    if well_formed_label(lines) {
        Ok(entries_upto(lines, data_lines(lines)))
    } else {
        Err(ErrorKind::InvalidFsLabelFormat)
    }
}

/// The offset of the first line feed at `from` or later.
fn find_line_end(bytes: &[u8], from: usize) -> (end: usize)
    requires
        from <= bytes@.len(),
    ensures
        end == line_end(bytes@, from as int),
        from <= end <= bytes@.len(),
{
    let mut end = from;
    while end < bytes.len() && bytes[end] != 10
        invariant
            from <= end <= bytes@.len(),
            line_end(bytes@, from as int) == line_end(bytes@, end as int),
        decreases bytes@.len() - end,
    {
        end = end + 1;
    }
    end
}

/// Whether a byte is ASCII whitespace.
fn space(b: u8) -> (r: bool)
    ensures
        r == is_space(b),
{
    b == 32 || (9 <= b && b <= 13)
}

/// The offset of the first byte at `from` or later that is no whitespace.
fn find_field_start(line: &[u8], from: usize) -> (start: usize)
    requires
        from <= line@.len(),
    ensures
        start == field_start(line@, from as int),
        from <= start <= line@.len(),
{
    let mut start = from;
    while start < line.len() && space(line[start])
        invariant
            from <= start <= line@.len(),
            field_start(line@, from as int) == field_start(line@, start as int),
        decreases line@.len() - start,
    {
        start = start + 1;
    }
    start
}

/// The offset of the first whitespace at `from` or later.
fn find_field_end(line: &[u8], from: usize) -> (end: usize)
    requires
        from <= line@.len(),
    ensures
        end == field_end(line@, from as int),
        from <= end <= line@.len(),
{
    let mut end = from;
    while end < line.len() && !space(line[end])
        invariant
            from <= end <= line@.len(),
            field_end(line@, from as int) == field_end(line@, end as int),
        decreases line@.len() - end,
    {
        end = end + 1;
    }
    end
}

/// Reads an `i32` in decimal.
pub fn parse_decimal_i32(text: &[u8]) -> (r: Option<i32>)
    ensures
        r == decimal_i32(text@),
{
    let n = text.len();
    if n == 0 {
        return None;
    }
    let negative = text[0] == 45;
    let first: usize = if text[0] == 45 || text[0] == 43 {
        1
    } else {
        0
    };
    if first == n {
        assert(text@.drop_first().len() == 0);
        return None;
    }
    let ghost digits = if first == 1 {
        text@.drop_first()
    } else {
        text@
    };
    let mut value: i64 = 0;
    let mut i: usize = first;
    while i < n
        invariant
            n == text@.len(),
            first <= i <= n,
            first <= 1,
            n > 0,
            negative == (text@[0] == 45),
            digits == if text@.len() > 0 && (text@[0] == 45 || text@[0] == 43) {
                text@.drop_first()
            } else {
                text@
            },
            digits.len() == n - first,
            forall|k: int| 0 <= k < digits.len() ==> digits[k] == text@[k + first],
            forall|k: int| 0 <= k < i - first ==> 48 <= #[trigger] digits[k] <= 57,
            0 <= value <= 0x1_0000_0000,
            value < 0x1_0000_0000 ==> value == digits_value(digits.take(i - first)),
            value == 0x1_0000_0000 ==> digits_value(digits.take(i - first)) >= 0x1_0000_0000,
        decreases n - i,
    {
        let b = text[i];
        if b < 48 || b > 57 {
            assert(!(48 <= digits[i - first] <= 57));
            return None;
        }
        proof {
            let longer = digits.take(i - first + 1);
            assert(longer.drop_last() =~= digits.take(i - first));
            assert(longer.last() == b);
        }
        if value < 0x1_0000_0000 {
            value = value * 10 + (b - 48) as i64;
            if value > 0x1_0000_0000 {
                value = 0x1_0000_0000;
            }
        }
        i = i + 1;
    }
    assert(digits.take(n - first) =~= digits);
    assert(all_digits(digits));
    if negative {
        if value > 0x8000_0000 {
            None
        } else {
            Some((-value) as i32)
        }
    } else {
        if value > 0x7fff_ffff {
            None
        } else {
            Some(value as i32)
        }
    }
}

/// The fields of a line behind the first `n`, where the `n`-th ends at
/// `from`.
proof fn lemma_fields_step(line: Seq<u8>, from: int)
    requires
        0 <= from <= line.len(),
    ensures
        ({
            let start = field_start(line, from);
            let end = field_end(line, start);
            start < line.len() ==> from <= start < end <= line.len() && fields_from(line, from)
                == seq![line.subrange(start, end)] + fields_from(line, end)
        }),
        field_start(line, from) >= line.len() ==> fields_from(line, from) == Seq::<
            Seq<u8>,
        >::empty(),
{
    lemma_field_start(line, from);
    let start = field_start(line, from);
    if start < line.len() {
        lemma_field_end(line, start);
    }
}

proof fn lemma_field_start(line: Seq<u8>, from: int)
    requires
        0 <= from <= line.len(),
    ensures
        from <= field_start(line, from) <= line.len(),
        field_start(line, from) < line.len() ==> !is_space(line[field_start(line, from)]),
    decreases line.len() - from,
{
    if from < line.len() && is_space(line[from]) {
        lemma_field_start(line, from + 1);
    }
}

proof fn lemma_field_end(line: Seq<u8>, from: int)
    requires
        0 <= from < line.len(),
        !is_space(line[from]),
    ensures
        from < field_end(line, from) <= line.len(),
    decreases line.len() - from,
{
    if from + 1 < line.len() && !is_space(line[from + 1]) {
        lemma_field_end(line, from + 1);
    } else if from + 1 < line.len() {
        assert(field_end(line, from + 1) == from + 1);
    } else {
        assert(field_end(line, from + 1) == line.len());
    }
}

/// One field of a line and the offset behind it, or `None` where only
/// whitespace is left.
fn next_field(line: &[u8], from: usize) -> (r: Option<(Vec<u8>, usize)>)
    requires
        from <= line@.len(),
    ensures
        match r {
            Some((field, end)) => from <= end <= line@.len() && fields_from(line@, from as int)
                == seq![field@] + fields_from(line@, end as int),
            None => fields_from(line@, from as int) == Seq::<Seq<u8>>::empty(),
        },
{
    proof {
        lemma_fields_step(line@, from as int);
    }
    let start = find_field_start(line, from);
    if start >= line.len() {
        return None;
    }
    let end = find_field_end(line, start);
    let field = slice_to_vec(slice_subrange(line, start, end));
    Some((field, end))
}

/// The entry that a line holds; the five parts of [`label_entry`].
fn read_entry(line: &[u8]) -> (r: Option<(i32, Vec<u8>, Vec<u8>, Vec<u8>, Vec<u8>)>)
    ensures
        match r {
            Some(e) => label_entry(line@) == Some(
                LabelEntry {
                    vertex_index: e.0,
                    coord1: e.1@,
                    coord2: e.2@,
                    coord3: e.3@,
                    value: e.4@,
                },
            ),
            None => label_entry(line@) is None,
        },
{
    let ghost all = fields_from(line@, 0);
    let (index_text, end0) = match next_field(line, 0) {
        Some(f) => f,
        None => {
            return None;
        },
    };
    let (coord1, end1) = match next_field(line, end0) {
        Some(f) => f,
        None => {
            assert(all =~= seq![index_text@]);
            return None;
        },
    };
    let (coord2, end2) = match next_field(line, end1) {
        Some(f) => f,
        None => {
            assert(all =~= seq![index_text@, coord1@]);
            return None;
        },
    };
    let (coord3, end3) = match next_field(line, end2) {
        Some(f) => f,
        None => {
            assert(all =~= seq![index_text@, coord1@, coord2@]);
            return None;
        },
    };
    let (value, end4) = match next_field(line, end3) {
        Some(f) => f,
        None => {
            assert(all =~= seq![index_text@, coord1@, coord2@, coord3@]);
            return None;
        },
    };
    assert(all =~= seq![index_text@, coord1@, coord2@, coord3@, value@] + fields_from(
        line@,
        end4 as int,
    ));
    match parse_decimal_i32(index_text.as_slice()) {
        Some(vertex_index) => Some((vertex_index, coord1, coord2, coord3, value)),
        None => None,
    }
}

/// Splits the contents of a FreeSurfer label file into its entries. The
/// index of each entry is read; its coordinates and its value are handed out
/// as they are written, for [`FsLabel::from_columns`] to take them as floats.
///
/// Fails with [`NeuroformatsError::InvalidFsLabelFormat`] where the second
/// line is no number, where a line behind it does not hold an index and four
/// further fields, and where the number of these lines is not the number
/// that the second line states.
pub fn read_label(contents: &[u8]) -> (r: Result<FsLabelText, NeuroformatsError>)
    ensures
        agrees(r, decode_label(contents@)),
        r is Ok ==> r->Ok_0@.vertex_index.len() == declared_entries(
            lines_from(contents@, 0),
        )->Some_0,
{
    let ghost lines = lines_from(contents@, 0);
    let ghost mut seen: Seq<Seq<u8>> = Seq::empty();
    let mut label = FsLabelText {
        vertex_index: Vec::new(),
        coord1: Vec::new(),
        coord2: Vec::new(),
        coord3: Vec::new(),
        value: Vec::new(),
    };
    let mut hdr_num_entries: i32 = 0;
    let mut index: usize = 0;
    let mut pos: usize = 0;
    assert(label@ =~= entries_upto(lines, 0)) by {
        assert(label@.vertex_index =~= entries_upto(lines, 0).vertex_index);
        assert(label@.coord1 =~= entries_upto(lines, 0).coord1);
        assert(label@.coord2 =~= entries_upto(lines, 0).coord2);
        assert(label@.coord3 =~= entries_upto(lines, 0).coord3);
        assert(label@.value =~= entries_upto(lines, 0).value);
    }
    while pos < contents.len()
        invariant
            lines == lines_from(contents@, 0),
            pos <= contents@.len(),
            index == seen.len(),
            index <= pos,
            lines == seen + lines_from(contents@, pos as int),
            index < 2 ==> label@ == entries_upto(lines, 0),
            index >= 2 ==> label@ == entries_upto(lines, index - 2),
            index < 2 ==> hdr_num_entries == 0,
            index >= 2 ==> declared_entries(lines) == Some(hdr_num_entries),
            forall|i: int| 2 <= i < index ==> (#[trigger] label_entry(lines[i])) is Some,
        decreases contents@.len() - pos,
    {
        let end = find_line_end(contents, pos);
        let stop = if end < contents.len() && pos < end && contents[end - 1] == 13 {
            end - 1
        } else {
            end
        };
        let line = slice_subrange(contents, pos, stop);
        assert(line@ == line_at(contents@, pos as int));
        proof {
            assert(lines_from(contents@, pos as int) == seq![line@] + lines_from(
                contents@,
                end + 1,
            ));
            assert(lines =~= seen.push(line@) + lines_from(contents@, end + 1));
            assert(lines[index as int] == line@);
        }
        if index == 1 {
            match parse_decimal_i32(line) {
                Some(n) => {
                    hdr_num_entries = n;
                },
                None => {
                    return Err(NeuroformatsError::InvalidFsLabelFormat);
                },
            }
        } else if index >= 2 {
            match read_entry(line) {
                Some((vertex_index, coord1, coord2, coord3, value)) => {
                    let ghost before = label@;
                    let ghost entry = label_entry(lines[index as int])->Some_0;
                    assert(entry.coord1 == coord1@ && entry.coord2 == coord2@ && entry.coord3
                        == coord3@ && entry.value == value@ && entry.vertex_index == vertex_index);
                    label.vertex_index.push(vertex_index);
                    label.coord1.push(coord1);
                    label.coord2.push(coord2);
                    label.coord3.push(coord3);
                    label.value.push(value);
                    assert(label@ =~= entries_upto(lines, index - 1)) by {
                        let after = entries_upto(lines, index - 1);
                        assert(before == entries_upto(lines, index - 2));
                        assert(label@.vertex_index =~= before.vertex_index.push(vertex_index));
                        assert(label@.coord1 =~= before.coord1.push(coord1@));
                        assert(label@.coord2 =~= before.coord2.push(coord2@));
                        assert(label@.coord3 =~= before.coord3.push(coord3@));
                        assert(label@.value =~= before.value.push(value@));
                        assert(after.vertex_index =~= before.vertex_index.push(vertex_index));
                        assert(after.coord1 =~= before.coord1.push(coord1@));
                        assert(after.coord2 =~= before.coord2.push(coord2@));
                        assert(after.coord3 =~= before.coord3.push(coord3@));
                        assert(after.value =~= before.value.push(value@));
                    }
                },
                None => {
                    return Err(NeuroformatsError::InvalidFsLabelFormat);
                },
            }
        }
        proof {
            seen = seen.push(line@);
        }
        index = index + 1;
        pos = if end < contents.len() {
            end + 1
        } else {
            end
        };
    }
    assert(lines =~= seen);
    if hdr_num_entries < 0 || hdr_num_entries as usize != label.vertex_index.len() {
        Err(NeuroformatsError::InvalidFsLabelFormat)
    } else {
        Ok(label)
    }
}

/// A label: for each of its entries the index of a vertex or voxel, the three
/// coordinates and the value. The floats are held as bit patterns. The five
/// columns are of one length.
#[derive(Debug, Clone, PartialEq)]
pub struct FsLabel {
    pub vertex_index: Vec<i32>,
    pub coord1: Vec<u32>,
    pub coord2: Vec<u32>,
    pub coord3: Vec<u32>,
    pub value: Vec<u32>,
}

/// An [`FsLabel`] in contracts.
pub struct FsLabelView {
    pub vertex_index: Seq<i32>,
    pub coord1: Seq<u32>,
    pub coord2: Seq<u32>,
    pub coord3: Seq<u32>,
    pub value: Seq<u32>,
}

impl View for FsLabel {
    type V = FsLabelView;

    open spec fn view(&self) -> FsLabelView {
        FsLabelView {
            vertex_index: self.vertex_index@,
            coord1: self.coord1@,
            coord2: self.coord2@,
            coord3: self.coord3@,
            value: self.value@,
        }
    }
}

impl FsLabelView {
    /// Whether the five columns are of one length.
    pub open spec fn well_formed(self) -> bool {
        self.coord1.len() == self.vertex_index.len() && self.coord2.len()
            == self.vertex_index.len() && self.coord3.len() == self.vertex_index.len()
            && self.value.len() == self.vertex_index.len()
    }

    /// Whether each entry names a vertex of a surface with `num_surface_verts`
    /// vertices.
    pub open spec fn fits(self, num_surface_verts: int) -> bool {
        forall|i: int|
            0 <= i < self.vertex_index.len() ==> 0 <= #[trigger] self.vertex_index[i]
                < num_surface_verts
    }

    /// Whether one of the first `upto` entries names the vertex `vertex`.
    pub open spec fn names(self, vertex: int, upto: int) -> bool {
        exists|i: int| 0 <= i < upto && #[trigger] self.vertex_index[i] == vertex
    }

    /// The value that the first `upto` entries give the vertex `vertex`: that
    /// of the last entry among them which names it, and `otherwise` where
    /// none does.
    pub open spec fn value_of(self, vertex: int, otherwise: u32, upto: int) -> u32
        decreases upto,
    {
        if upto <= 0 {
            otherwise
        } else if self.vertex_index[upto - 1] == vertex {
            self.value[upto - 1]
        } else {
            self.value_of(vertex, otherwise, upto - 1)
        }
    }
}

impl FsLabel {
    /// A label of the five columns.
    ///
    /// Fails with [`NeuroformatsError::InvalidFsLabelFormat`] if and only if
    /// the columns are not of one length.
    pub fn from_columns(
        vertex_index: Vec<i32>,
        coord1: Vec<u32>,
        coord2: Vec<u32>,
        coord3: Vec<u32>,
        value: Vec<u32>,
    ) -> (r: Result<FsLabel, NeuroformatsError>)
        ensures
            ({
                let label = FsLabelView {
                    vertex_index: vertex_index@,
                    coord1: coord1@,
                    coord2: coord2@,
                    coord3: coord3@,
                    value: value@,
                };
                agrees(
                    r,
                    if label.well_formed() {
                        Ok(label)
                    } else {
                        Err(ErrorKind::InvalidFsLabelFormat)
                    },
                )
            }),
    {
        let n = vertex_index.len();
        if coord1.len() != n || coord2.len() != n || coord3.len() != n || value.len() != n {
            Err(NeuroformatsError::InvalidFsLabelFormat)
        } else {
            Ok(FsLabel { vertex_index, coord1, coord2, coord3, value })
        }
    }

    /// Whether this is a binary label: whether all its values are equal, as
    /// floats are equal. A NaN equals nothing, so a label of more than one
    /// entry that holds a NaN is not binary.
    ///
    /// Such a label is most often the definition of a region. Whether it is
    /// meant as one cannot be known: the answer is an educated guess.
    ///
    /// The label must hold an entry.
    pub fn is_binary(&self) -> (binary: bool)
        requires
            self@.value.len() > 0,
        ensures
            binary <==> forall|i: int|
                0 < i < self@.value.len() ==> float_eq(#[trigger] self@.value[i], self@.value[0]),
    {
        let first_val = self.value[0];
        let mut idx: usize = 1;
        while idx < self.value.len()
            invariant
                1 <= idx <= self.value@.len(),
                first_val == self.value@[0],
                forall|i: int| 0 < i < idx ==> float_eq(#[trigger] self.value@[i], first_val),
            decreases self.value@.len() - idx,
        {
            if !floats_equal(self.value[idx], first_val) {
                assert(!float_eq(self@.value[idx as int], self@.value[0]));
                return false;
            }
            idx = idx + 1;
        }
        true
    }

    /// For each vertex of a surface, whether it belongs to this label. The
    /// number of vertices of the surface is not held in the label and has to
    /// be given.
    ///
    /// The surface must have at least as many vertices as the label has
    /// entries, and each entry must name one of them.
    pub fn is_surface_vertex_in_label(&self, num_surface_verts: usize) -> (data_bin: Vec<bool>)
        requires
            self@.vertex_index.len() <= num_surface_verts,
            self@.fits(num_surface_verts as int),
        ensures
            data_bin@.len() == num_surface_verts,
            forall|v: int|
                0 <= v < num_surface_verts ==> (#[trigger] data_bin@[v] <==> self@.names(
                    v,
                    self@.vertex_index.len() as int,
                )),
    {
        let mut data_bin = vec![false; num_surface_verts];
        let mut i: usize = 0;
        while i < self.vertex_index.len()
            invariant
                i <= self.vertex_index@.len(),
                self@.fits(num_surface_verts as int),
                data_bin@.len() == num_surface_verts,
                forall|v: int|
                    0 <= v < num_surface_verts ==> (#[trigger] data_bin@[v] <==> self@.names(
                        v,
                        i as int,
                    )),
            decreases self.vertex_index@.len() - i,
        {
            let label_vert_idx = self.vertex_index[i];
            assert(0 <= self@.vertex_index[i as int] < num_surface_verts);
            let ghost before = data_bin@;
            data_bin.set(label_vert_idx as usize, true);
            assert forall|v: int| 0 <= v < num_surface_verts implies (#[trigger] data_bin@[v]
                <==> self@.names(v, i + 1)) by {
                if v == label_vert_idx {
                    assert(self@.vertex_index[i as int] == v);
                } else {
                    assert(data_bin@[v] == before[v]);
                    if self@.names(v, i + 1) {
                        let k = choose|k: int|
                            0 <= k < i + 1 && #[trigger] self@.vertex_index[k] == v;
                        assert(k < i);
                    }
                    if self@.names(v, i as int) {
                        let k = choose|k: int| 0 <= k < i && #[trigger] self@.vertex_index[k] == v;
                        assert(0 <= k < i + 1);
                    }
                }
            }
            i = i + 1;
        }
        data_bin
    }

    /// Data for the whole surface from this label: for each vertex of the
    /// surface the value that the label gives it, and `not_in_label_value`,
    /// most often a NaN, for a vertex that does not belong to the label.
    /// Where several entries name one vertex, the last one counts.
    ///
    /// Each entry must name a vertex of the surface and have a value.
    pub fn as_surface_data(&self, num_surface_verts: usize, not_in_label_value: u32) -> (data: Vec<
        u32,
    >)
        requires
            self@.value.len() >= self@.vertex_index.len(),
            self@.fits(num_surface_verts as int),
        ensures
            data@.len() == num_surface_verts,
            forall|v: int|
                0 <= v < num_surface_verts ==> #[trigger] data@[v] == self@.value_of(
                    v,
                    not_in_label_value,
                    self@.vertex_index.len() as int,
                ),
    {
        let mut data = vec![not_in_label_value; num_surface_verts];
        let mut i: usize = 0;
        while i < self.vertex_index.len()
            invariant
                i <= self.vertex_index@.len(),
                self@.value.len() >= self@.vertex_index.len(),
                self@.fits(num_surface_verts as int),
                data@.len() == num_surface_verts,
                forall|v: int|
                    0 <= v < num_surface_verts ==> #[trigger] data@[v] == self@.value_of(
                        v,
                        not_in_label_value,
                        i as int,
                    ),
            decreases self.vertex_index@.len() - i,
        {
            let surface_vert_idx = self.vertex_index[i];
            assert(0 <= self@.vertex_index[i as int] < num_surface_verts);
            data.set(surface_vert_idx as usize, self.value[i]);
            i = i + 1;
        }
        data
    }
}

/// A label file that is read holds as many entries as its second line
/// states, in each of the five columns; and a file whose second line states
/// another number than it has data lines is not read.
pub proof fn lemma_label_count(bytes: Seq<u8>)
    ensures
        decode_label(bytes) is Ok ==> {
            let label = decode_label(bytes)->Ok_0;
            let declared = declared_entries(lines_from(bytes, 0))->Some_0 as int;
            &&& label.vertex_index.len() == declared
            &&& label.coord1.len() == declared
            &&& label.coord2.len() == declared
            &&& label.coord3.len() == declared
            &&& label.value.len() == declared
        },
        declared_entries(lines_from(bytes, 0)) != Some(data_lines(lines_from(bytes, 0)) as i32)
            ==> decode_label(bytes) == Err::<FsLabelTextView, ErrorKind>(
            ErrorKind::InvalidFsLabelFormat,
        ),
{
}

} // verus!
