//! FreeSurfer brain surface parcellations in annot files.
//!
//! A parcellation gives each vertex of a brain surface mesh a label, and its
//! color table names the brain regions: each region has a name, a display
//! color and the label that is computed from the color.

use crate::endian::i32_at;
use crate::error::{ErrorKind, NeuroformatsError};
use crate::reader::{agrees, parse_i32, ByteReader, Parse};
use crate::util::{parse_fixed_string, read_fixed_length_string};
use vstd::prelude::*;

verus! {

/// The label of a region with the given color: `r + g * 2^8 + b * 2^16 + a *
/// 2^24`, of which the lowest 32 bits are kept. For channels from 0 to 255
/// with an alpha under 128 that is the sum itself.
pub open spec fn region_label(r: i32, g: i32, b: i32, a: i32) -> i32 {
    (r as int + g as int * 0x100 + b as int * 0x1_0000 + a as int * 0x100_0000) as i32
}

/// A brain region of a color table.
#[derive(Debug, Clone, PartialEq)]
pub struct FsAnnotColorRegion {
    /// An index of the region. The `label` identifies the region as well, and
    /// is what the vertices refer to.
    pub id: i32,
    pub name: String,
    pub r: i32,
    pub g: i32,
    pub b: i32,
    pub a: i32,
    /// The label computed from `r`, `g`, `b` and `a`.
    pub label: i32,
}

/// An [`FsAnnotColorRegion`] in contracts.
pub struct RegionView {
    pub id: i32,
    pub name: Seq<char>,
    pub r: i32,
    pub g: i32,
    pub b: i32,
    pub a: i32,
    pub label: i32,
}

impl View for FsAnnotColorRegion {
    type V = RegionView;

    open spec fn view(&self) -> RegionView {
        RegionView {
            id: self.id,
            name: self.name@,
            r: self.r,
            g: self.g,
            b: self.b,
            a: self.a,
            label: self.label,
        }
    }
}

/// The regions of a parcellation, in the order of the file.
#[derive(Debug, Clone, PartialEq)]
pub struct FsAnnotColortable {
    pub regions: Vec<FsAnnotColorRegion>,
}

/// An [`FsAnnotColortable`] in contracts.
pub struct ColortableView {
    pub regions: Seq<RegionView>,
}

impl View for FsAnnotColortable {
    type V = ColortableView;

    open spec fn view(&self) -> ColortableView {
        ColortableView { regions: self.regions@.map_values(|x: FsAnnotColorRegion| x@) }
    }
}

/// A brain surface parcellation: the result of applying a brain atlas to a
/// subject. `vertex_labels` holds, for each vertex of the mesh in order, the
/// `label` of its region in the `colortable`. `vertex_indices` holds the
/// indices that the file states beside the labels; they repeat the position.
#[derive(Debug, Clone, PartialEq)]
pub struct FsAnnot {
    pub vertex_indices: Vec<i32>,
    pub vertex_labels: Vec<i32>,
    pub colortable: FsAnnotColortable,
}

/// An [`FsAnnot`] in contracts.
pub struct FsAnnotView {
    pub vertex_indices: Seq<i32>,
    pub vertex_labels: Seq<i32>,
    pub colortable: ColortableView,
}

impl View for FsAnnot {
    type V = FsAnnotView;

    open spec fn view(&self) -> FsAnnotView {
        FsAnnotView {
            vertex_indices: self.vertex_indices@,
            vertex_labels: self.vertex_labels@,
            colortable: self.colortable@,
        }
    }
}

/// The length that a string field is read with, for the length that the file
/// states: that number as a `usize`, so that a negative one stands for more
/// bytes than any input holds.
pub open spec fn field_len(stated: i32) -> int {
    (stated as usize) as int
}

/// One entry of a color table: id, length of the name, name, and the four
/// color channels, from which the label is computed.
#[verifier::opaque]
pub open spec fn parse_region(bytes: Seq<u8>, pos: int) -> Parse<RegionView> {
    if pos + 8 > bytes.len() {
        Parse::Fail { kind: ErrorKind::Io, at: bytes.len() as int }
    } else {
        match parse_fixed_string(bytes, pos + 8, field_len(i32_at(bytes, pos + 4) as i32)) {
            Parse::Fail { kind, at } => Parse::Fail { kind, at },
            Parse::Done { value: name, next } => if next + 16 > bytes.len() {
                Parse::Fail { kind: ErrorKind::Io, at: bytes.len() as int }
            } else {
                let r = i32_at(bytes, next) as i32;
                let g = i32_at(bytes, next + 4) as i32;
                let b = i32_at(bytes, next + 8) as i32;
                let a = i32_at(bytes, next + 12) as i32;
                Parse::Done {
                    value: RegionView {
                        id: i32_at(bytes, pos) as i32,
                        name,
                        r,
                        g,
                        b,
                        a,
                        label: region_label(r, g, b, a),
                    },
                    next: next + 16,
                }
            },
        }
    }
}

/// The first `count` entries of a color table, one behind the other; none
/// where `count` is not positive.
pub open spec fn parse_regions(bytes: Seq<u8>, pos: int, count: int) -> Parse<Seq<RegionView>>
    decreases count,
{
    if count <= 0 {
        Parse::Done { value: Seq::empty(), next: pos }
    } else {
        match parse_regions(bytes, pos, count - 1) {
            Parse::Fail { kind, at } => Parse::Fail { kind, at },
            Parse::Done { value: front, next } => match parse_region(bytes, next) {
                Parse::Fail { kind, at } => Parse::Fail { kind, at },
                Parse::Done { value: region, next: end } => Parse::Done {
                    value: front.push(region),
                    next: end,
                },
            },
        }
    }
}

/// A color table in format version 2: the length of the name of the file
/// that the table came from, that name, the number of entries, and the
/// entries. The name is passed over, and so is a name that the input is too
/// short for: the number of entries is then missed.
pub open spec fn parse_colortable(bytes: Seq<u8>, pos: int) -> Parse<ColortableView> {
    if pos + 4 > bytes.len() {
        Parse::Fail { kind: ErrorKind::Io, at: bytes.len() as int }
    } else {
        let behind_name = match parse_fixed_string(
            bytes,
            pos + 4,
            field_len(i32_at(bytes, pos) as i32),
        ) {
            Parse::Done { value, next } => next,
            Parse::Fail { kind, at } => at,
        };
        match parse_i32(bytes, behind_name) {
            Parse::Fail { kind, at } => Parse::Fail { kind, at },
            Parse::Done { value: count, next } => match parse_regions(bytes, next, count as int) {
                Parse::Fail { kind, at } => Parse::Fail { kind, at },
                Parse::Done { value: regions, next: end } => Parse::Done {
                    value: ColortableView { regions },
                    next: end,
                },
            },
        }
    }
}

/// The number of vertices to read for the number that the file states: none
/// for a negative one.
pub open spec fn vertex_count(stated: i32) -> int {
    if stated > 0 {
        stated as int
    } else {
        0
    }
}

/// The stated indices of `n` vertices, where the first pair of index and
/// label starts at `pos`.
pub open spec fn vertex_indices_at(bytes: Seq<u8>, pos: int, n: int) -> Seq<i32> {
    Seq::new(n as nat, |i: int| i32_at(bytes, pos + 8 * i) as i32)
}

/// The labels of `n` vertices, where the first pair of index and label starts
/// at `pos`.
pub open spec fn vertex_labels_at(bytes: Seq<u8>, pos: int, n: int) -> Seq<i32> {
    Seq::new(n as nat, |i: int| i32_at(bytes, pos + 8 * i + 4) as i32)
}

/// An annot file: the number of vertices; for each vertex its index and its
/// label; the flag 1, which says that a color table follows; the number -2,
/// which says that the table is in format version 2; the number of entries;
/// and the color table.
pub open spec fn parse_annot(bytes: Seq<u8>, pos: int) -> Parse<FsAnnotView> {
    if pos + 4 > bytes.len() {
        Parse::Fail { kind: ErrorKind::Io, at: bytes.len() as int }
    } else {
        let n = vertex_count(i32_at(bytes, pos) as i32);
        let flag = pos + 4 + 8 * n;
        if flag + 4 > bytes.len() {
            Parse::Fail { kind: ErrorKind::Io, at: bytes.len() as int }
        } else if i32_at(bytes, flag) != 1 {
            Parse::Fail { kind: ErrorKind::UnsupportedFsAnnotFormatVersion, at: flag + 4 }
        } else if flag + 8 > bytes.len() {
            Parse::Fail { kind: ErrorKind::Io, at: bytes.len() as int }
        } else if i32_at(bytes, flag + 4) != -2 {
            Parse::Fail { kind: ErrorKind::UnsupportedFsAnnotFormatVersion, at: flag + 8 }
        } else if flag + 12 > bytes.len() {
            Parse::Fail { kind: ErrorKind::Io, at: bytes.len() as int }
        } else {
            match parse_colortable(bytes, flag + 12) {
                Parse::Fail { kind, at } => Parse::Fail { kind, at },
                Parse::Done { value: colortable, next } => Parse::Done {
                    value: FsAnnotView {
                        vertex_indices: vertex_indices_at(bytes, pos + 4, n),
                        vertex_labels: vertex_labels_at(bytes, pos + 4, n),
                        colortable,
                    },
                    next,
                },
            }
        }
    }
}

/// Entries that could not be read stay unread, however many are asked for.
proof fn lemma_parse_regions_fail(bytes: Seq<u8>, pos: int, some: int, more: int)
    requires
        some <= more,
        parse_regions(bytes, pos, some) is Fail,
    ensures
        parse_regions(bytes, pos, more) == parse_regions(bytes, pos, some),
    decreases more - some,
{
    if some < more {
        lemma_parse_regions_fail(bytes, pos, some, more - 1);
    }
}

/// Reads `count` entries of a color table, one behind the other.
fn read_regions(input: &mut ByteReader, count: i32) -> (r: Result<
    Vec<FsAnnotColorRegion>,
    NeuroformatsError,
>)
    ensures
        final(input).contents() == old(input).contents(),
        match parse_regions(old(input).contents(), old(input).offset(), count as int) {
            Parse::Done { value, next } => r is Ok && r->Ok_0@.map_values(
                |x: FsAnnotColorRegion| x@,
            ) == value && final(input).offset() == next,
            Parse::Fail { kind, at } => r is Err && r->Err_0.kind() == kind && final(input).offset() == at,
        },
{
    let ghost bytes = input.contents();
    let ghost start = input.offset();
    let mut entries: Vec<FsAnnotColorRegion> = Vec::new();
    let mut i: i32 = 0;
    assert(entries@.map_values(|x: FsAnnotColorRegion| x@) =~= Seq::empty());
    while i < count
        invariant
            bytes == old(input).contents(),
            start == old(input).offset(),
            input.contents() == bytes,
            0 <= i,
            count > 0 ==> i <= count,
            count <= 0 ==> i == 0,
            parse_regions(bytes, start, i as int) == (Parse::Done {
                value: entries@.map_values(|x: FsAnnotColorRegion| x@),
                next: input.offset(),
            }),
        decreases count - i,
    {
        let ghost front = entries@.map_values(|x: FsAnnotColorRegion| x@);
        match FsAnnotColorRegion::from_reader(input) {
            Ok(region) => {
                entries.push(region);
                assert(entries@.map_values(|x: FsAnnotColorRegion| x@) =~= front.push(region@));
            },
            Err(e) => {
                proof {
                    assert(parse_regions(bytes, start, i + 1) is Fail);
                    lemma_parse_regions_fail(bytes, start, i + 1, count as int);
                }
                return Err(e);
            },
        }
        i = i + 1;
    }
    Ok(entries)
}

impl FsAnnotColortable {
    /// Reads a color table in format version 2. The reader stands at the
    /// start of the table.
    ///
    /// Fails with an I/O error where the input ends inside the table.
    pub fn from_reader(input: &mut ByteReader) -> (r: Result<FsAnnotColortable, NeuroformatsError>)
        ensures
            final(input).went(
                old(input),
                r,
                parse_colortable(old(input).contents(), old(input).offset()),
            ),
    {
        let _ = input.position();
        let num_chars_orig_filename = input.read_i32()?;
        let _orig_filename = read_fixed_length_string(
            input,
            #[verifier::truncate]
            (num_chars_orig_filename as usize),
        );
        let num_colortable_entries = input.read_i32()?;
        let regions = read_regions(input, num_colortable_entries)?;
        Ok(FsAnnotColortable { regions })
    }
}

impl FsAnnotColorRegion {
    /// Reads one entry of a color table.
    ///
    /// Fails with an I/O error where the input ends inside the entry.
    pub fn from_reader(input: &mut ByteReader) -> (r: Result<
        FsAnnotColorRegion,
        NeuroformatsError,
    >)
        ensures
            final(input).went(
                old(input),
                r,
                parse_region(old(input).contents(), old(input).offset()),
            ),
    {
        reveal(parse_region);
        let _ = input.position();
        let id = input.read_i32()?;
        let num_chars_region_name = input.read_i32()?;
        let name = read_fixed_length_string(
            input,
            #[verifier::truncate]
            (num_chars_region_name as usize),
        )?;
        let r = input.read_i32()?;
        let g = input.read_i32()?;
        let b = input.read_i32()?;
        let a = input.read_i32()?;
        let label = compute_label(r, g, b, a);
        Ok(FsAnnotColorRegion { id, name, r, g, b, a, label })
    }
}

/// The label of a region with the given color.
pub fn compute_label(r: i32, g: i32, b: i32, a: i32) -> (label: i32)
    ensures
        label == region_label(r, g, b, a),
        0 <= r <= 255 && 0 <= g <= 255 && 0 <= b <= 255 && 0 <= a <= 127 ==> label == r + g * 256
            + b * 65536 + a * 16777216,
{
    let sum: i64 = r as i64 + g as i64 * 0x100 + b as i64 * 0x1_0000 + a as i64 * 0x100_0000;
    #[verifier::truncate]
    (sum as i32)
}

/// The index of the first region from `from` on whose label is `label`;
/// `None` where there is none.
pub open spec fn first_match(regions: Seq<RegionView>, label: i32, from: int) -> Option<int>
    decreases regions.len() - from,
{
    if from < 0 || from >= regions.len() {
        None
    } else if regions[from].label == label {
        Some(from)
    } else {
        first_match(regions, label, from + 1)
    }
}

/// The index of the last region before `upto` whose label is `label`; `None`
/// where there is none.
pub open spec fn last_match(regions: Seq<RegionView>, label: i32, upto: int) -> Option<int>
    decreases upto,
{
    if upto <= 0 || upto > regions.len() {
        None
    } else if regions[upto - 1].label == label {
        Some(upto - 1)
    } else {
        last_match(regions, label, upto - 1)
    }
}

/// The index of the first region from `from` on whose name is `name`; `None`
/// where there is none.
pub open spec fn first_named(regions: Seq<RegionView>, name: Seq<char>, from: int) -> Option<int>
    decreases regions.len() - from,
{
    if from < 0 || from >= regions.len() {
        None
    } else if regions[from].name == name {
        Some(from)
    } else {
        first_named(regions, name, from + 1)
    }
}

/// The indices before `upto` of the vertices whose label is `label`, in
/// rising order.
pub open spec fn vertices_with(labels: Seq<i32>, label: i32, upto: int) -> Seq<usize>
    decreases upto,
{
    if upto <= 0 {
        Seq::empty()
    } else if labels[upto - 1] == label {
        vertices_with(labels, label, upto - 1).push((upto - 1) as usize)
    } else {
        vertices_with(labels, label, upto - 1)
    }
}

/// The color of the region `regions[index]`, three bytes, and the alpha
/// channel as a fourth where `alpha` is set. Of each channel the lowest eight
/// bits are kept.
pub open spec fn color_bytes(region: RegionView, alpha: bool) -> Seq<u8> {
    if alpha {
        seq![region.r as u8, region.g as u8, region.b as u8, region.a as u8]
    } else {
        seq![region.r as u8, region.g as u8, region.b as u8]
    }
}

/// The index into the color table that stands for a vertex with `label`: that
/// of the first region with this label, and `unmatched` where no region has
/// it.
pub open spec fn colortable_index(regions: Seq<RegionView>, label: i32, unmatched: usize) -> int {
    match first_match(regions, label, 0) {
        Some(index) => index,
        None => unmatched as int,
    }
}

/// The colors of the first `upto` vertices, one behind the other.
pub open spec fn colors_upto(annot: FsAnnotView, alpha: bool, unmatched: usize, upto: int) -> Seq<
    u8,
>
    decreases upto,
{
    if upto <= 0 {
        Seq::empty()
    } else {
        colors_upto(annot, alpha, unmatched, upto - 1) + color_bytes(
            annot.colortable.regions[colortable_index(
                annot.colortable.regions,
                annot.vertex_labels[upto - 1],
                unmatched,
            )],
            alpha,
        )
    }
}

/// Reads index and label of `count` vertices.
fn read_vertex_pairs(input: &mut ByteReader, count: i32) -> (r: Result<
    (Vec<i32>, Vec<i32>),
    NeuroformatsError,
>)
    ensures
        final(input).contents() == old(input).contents(),
        old(input).offset() + 8 * vertex_count(count) <= old(input).contents().len() ==> r is Ok
            && r->Ok_0.0@ == vertex_indices_at(
            old(input).contents(),
            old(input).offset(),
            vertex_count(count),
        ) && r->Ok_0.1@ == vertex_labels_at(
            old(input).contents(),
            old(input).offset(),
            vertex_count(count),
        ) && final(input).offset() == old(input).offset() + 8 * vertex_count(count),
        old(input).offset() + 8 * vertex_count(count) > old(input).contents().len() ==> r is Err
            && r->Err_0.kind() == ErrorKind::Io && final(input).offset() == old(input).contents().len(),
{
    let ghost bytes = input.contents();
    let ghost pos = input.offset();
    let _ = input.position();
    let mut vertex_indices: Vec<i32> = Vec::new();
    let mut vertex_labels: Vec<i32> = Vec::new();
    let mut i: i32 = 0;
    assert(vertex_indices@ =~= vertex_indices_at(bytes, pos, 0));
    assert(vertex_labels@ =~= vertex_labels_at(bytes, pos, 0));
    while i < count
        invariant
            bytes == old(input).contents(),
            pos == old(input).offset(),
            input.contents() == bytes,
            0 <= pos,
            0 <= i,
            count > 0 ==> i <= count,
            count <= 0 ==> i == 0,
            input.offset() == pos + 8 * i,
            input.offset() <= bytes.len(),
            vertex_indices@ == vertex_indices_at(bytes, pos, i as int),
            vertex_labels@ == vertex_labels_at(bytes, pos, i as int),
        decreases count - i,
    {
        let index = input.read_i32()?;
        let label = input.read_i32()?;
        vertex_indices.push(index);
        vertex_labels.push(label);
        assert(vertex_indices@ =~= vertex_indices_at(bytes, pos, i + 1));
        assert(vertex_labels@ =~= vertex_labels_at(bytes, pos, i + 1));
        i = i + 1;
    }
    Ok((vertex_indices, vertex_labels))
}

impl FsAnnot {
    /// Reads a parcellation. The reader stands at the start of an annot
    /// file.
    ///
    /// Fails with [`NeuroformatsError::UnsupportedFsAnnotFormatVersion`]
    /// where the file says that it has no color table, or one in another
    /// version than 2, and with an I/O error where the input ends early.
    pub fn from_reader(input: &mut ByteReader) -> (r: Result<FsAnnot, NeuroformatsError>)
        ensures
            final(input).went(
                old(input),
                r,
                parse_annot(old(input).contents(), old(input).offset()),
            ),
    {
        let _ = input.position();
        let num_vertices = input.read_i32()?;
        let (vertex_indices, vertex_labels) = read_vertex_pairs(input, num_vertices)?;
        let has_colortable = input.read_i32()?;
        if has_colortable != 1 {
            return Err(NeuroformatsError::UnsupportedFsAnnotFormatVersion);
        }
        let num_colortable_entries = input.read_i32()?;
        if num_colortable_entries != -2 {
            return Err(NeuroformatsError::UnsupportedFsAnnotFormatVersion);
        }
        let _num_colortable_entries = input.read_i32()?;
        let colortable = FsAnnotColortable::from_reader(input)?;
        Ok(FsAnnot { vertex_indices, vertex_labels, colortable })
    }

    /// Reads a parcellation from the contents of an annot file.
    pub fn from_file(contents: Vec<u8>) -> (r: Result<FsAnnot, NeuroformatsError>)
        ensures
            agrees(r, parse_annot(contents@, 0).outcome()),
    {
        let mut file = ByteReader::new(contents);
        FsAnnot::from_reader(&mut file)
    }

    /// The names of the regions, in the order of the color table.
    pub fn regions(&self) -> (names: Vec<String>)
        ensures
            names@.len() == self@.colortable.regions.len(),
            forall|i: int|
                0 <= i < names@.len() ==> (#[trigger] names@[i])@
                    == self@.colortable.regions[i].name,
    {
        let mut names: Vec<String> = Vec::new();
        let mut i: usize = 0;
        while i < self.colortable.regions.len()
            invariant
                i <= self.colortable.regions.len(),
                names@.len() == i,
                forall|k: int|
                    0 <= k < i ==> (#[trigger] names@[k])@ == self.colortable.regions@[k].name@,
            decreases self.colortable.regions.len() - i,
        {
            names.push(self.colortable.regions[i].name.clone());
            i = i + 1;
        }
        names
    }

    /// The number of regions of the color table.
    pub fn num_regions(&self) -> (n: usize)
        ensures
            n == self@.colortable.regions.len(),
    {
        self.colortable.regions.len()
    }

    /// The indices of all vertices that belong to the region of the given
    /// name, in rising order: the vertices whose label is the label of the
    /// first region of that name. No vertex may belong to it.
    ///
    /// The color table must hold a region of that name.
    pub fn region_vertices(&self, region: String) -> (vertices: Vec<usize>)
        requires
            first_named(self@.colortable.regions, region@, 0) is Some,
        ensures
            vertices@ == vertices_with(
                self@.vertex_labels,
                self@.colortable.regions[first_named(
                    self@.colortable.regions,
                    region@,
                    0,
                )->Some_0].label,
                self@.vertex_labels.len() as int,
            ),
    {
        let ghost regions = self@.colortable.regions;
        let mut k: usize = 0;
        while k < self.colortable.regions.len() && !(self.colortable.regions[k].name == region)
            invariant
                regions == self@.colortable.regions,
                k <= self.colortable.regions.len(),
                first_named(regions, region@, 0) is Some,
                first_named(regions, region@, 0) == first_named(regions, region@, k as int),
            decreases self.colortable.regions.len() - k,
        {
            k = k + 1;
        }
        let label = self.colortable.regions[k].label;
        let mut vertices: Vec<usize> = Vec::new();
        let mut idx: usize = 0;
        while idx < self.vertex_labels.len()
            invariant
                idx <= self.vertex_labels.len(),
                vertices@ == vertices_with(self.vertex_labels@, label, idx as int),
            decreases self.vertex_labels.len() - idx,
        {
            if self.vertex_labels[idx] == label {
                vertices.push(idx);
            }
            idx = idx + 1;
        }
        vertices
    }

    /// The name of the region of each vertex: that of the last region of the
    /// color table whose label is the label of the vertex, and the empty
    /// name for a vertex whose label is that of no region.
    pub fn vertex_regions(&self) -> (names: Vec<String>)
        ensures
            names@.len() == self@.vertex_labels.len(),
            forall|i: int|
                0 <= i < names@.len() ==> (#[trigger] names@[i])@ == match last_match(
                    self@.colortable.regions,
                    self@.vertex_labels[i],
                    self@.colortable.regions.len() as int,
                ) {
                    Some(k) => self@.colortable.regions[k].name,
                    None => Seq::<char>::empty(),
                },
    {
        let ghost regions = self@.colortable.regions;
        let mut names: Vec<String> = Vec::new();
        let mut idx: usize = 0;
        while idx < self.vertex_labels.len()
            invariant
                regions == self@.colortable.regions,
                idx <= self.vertex_labels.len(),
                names@.len() == idx,
                forall|i: int|
                    0 <= i < idx ==> (#[trigger] names@[i])@ == match last_match(
                        regions,
                        self.vertex_labels@[i],
                        regions.len() as int,
                    ) {
                        Some(k) => regions[k].name,
                        None => Seq::<char>::empty(),
                    },
            decreases self.vertex_labels.len() - idx,
        {
            let vlabel = self.vertex_labels[idx];
            let mut k: usize = self.colortable.regions.len();
            while k > 0 && self.colortable.regions[k - 1].label != vlabel
                invariant
                    regions == self@.colortable.regions,
                    k <= self.colortable.regions.len(),
                    last_match(regions, vlabel, regions.len() as int) == last_match(
                        regions,
                        vlabel,
                        k as int,
                    ),
                decreases k,
            {
                k = k - 1;
            }
            if k > 0 {
                names.push(self.colortable.regions[k - 1].name.clone());
            } else {
                names.push(String::new());
            }
            idx = idx + 1;
        }
        names
    }

    /// For each vertex the index of its region in the color table: that of
    /// the first region whose label is the label of the vertex, and
    /// `unmatched_region_index` for a vertex whose label is that of no
    /// region. Such vertices are most often given to a region `unknown` at
    /// the start of the table.
    pub fn vertex_colortable_indices(&self, unmatched_region_index: usize) -> (indices: Vec<usize>)
        ensures
            indices@.len() == self@.vertex_labels.len(),
            forall|i: int|
                0 <= i < indices@.len() ==> #[trigger] indices@[i] == colortable_index(
                    self@.colortable.regions,
                    self@.vertex_labels[i],
                    unmatched_region_index,
                ),
    {
        let ghost regions = self@.colortable.regions;
        let mut indices: Vec<usize> = Vec::new();
        let mut idx: usize = 0;
        while idx < self.vertex_labels.len()
            invariant
                regions == self@.colortable.regions,
                idx <= self.vertex_labels.len(),
                indices@.len() == idx,
                forall|i: int|
                    0 <= i < idx ==> #[trigger] indices@[i] == colortable_index(
                        regions,
                        self.vertex_labels@[i],
                        unmatched_region_index,
                    ),
            decreases self.vertex_labels.len() - idx,
        {
            let vlabel = self.vertex_labels[idx];
            let mut k: usize = 0;
            while k < self.colortable.regions.len() && self.colortable.regions[k].label != vlabel
                invariant
                    regions == self@.colortable.regions,
                    k <= self.colortable.regions.len(),
                    first_match(regions, vlabel, 0) == first_match(regions, vlabel, k as int),
                decreases self.colortable.regions.len() - k,
            {
                k = k + 1;
            }
            if k < self.colortable.regions.len() {
                indices.push(k);
            } else {
                indices.push(unmatched_region_index);
            }
            idx = idx + 1;
        }
        indices
    }

    /// The colors of all vertices, as bytes: red, green and blue of the
    /// region of each vertex, and its alpha channel as a fourth byte where
    /// `alpha` is set. A vertex whose label is that of no region gets the
    /// color of the region at `unmatched_region_index`.
    ///
    /// `unmatched_region_index` must be an index into the color table; see
    /// [`FsAnnot::num_regions`].
    pub fn vertex_colors(&self, alpha: bool, unmatched_region_index: usize) -> (colors: Vec<u8>)
        requires
            unmatched_region_index < self@.colortable.regions.len(),
        ensures
            colors@ == colors_upto(
                self@,
                alpha,
                unmatched_region_index,
                self@.vertex_labels.len() as int,
            ),
            colors@.len() == self@.vertex_labels.len() * (if alpha {
                4int
            } else {
                3int
            }),
    {
        let ghost regions = self@.colortable.regions;
        let indices = self.vertex_colortable_indices(unmatched_region_index);
        let mut colors: Vec<u8> = Vec::new();
        let mut idx: usize = 0;
        while idx < indices.len()
            invariant
                regions == self@.colortable.regions,
                unmatched_region_index < regions.len(),
                indices@.len() == self@.vertex_labels.len(),
                forall|i: int|
                    0 <= i < indices@.len() ==> #[trigger] indices@[i] == colortable_index(
                        regions,
                        self@.vertex_labels[i],
                        unmatched_region_index,
                    ),
                idx <= indices.len(),
                colors@ == colors_upto(self@, alpha, unmatched_region_index, idx as int),
                colors@.len() == idx * (if alpha {
                    4int
                } else {
                    3int
                }),
            decreases indices.len() - idx,
        {
            let ct_region_idx = indices[idx];
            proof {
                lemma_first_match(regions, self@.vertex_labels[idx as int], 0);
            }
            let region = &self.colortable.regions[ct_region_idx];
            let ghost before = colors@;
            colors.push(
                #[verifier::truncate]
                (region.r as u8),
            );
            colors.push(
                #[verifier::truncate]
                (region.g as u8),
            );
            colors.push(
                #[verifier::truncate]
                (region.b as u8),
            );
            if alpha {
                colors.push(
                    #[verifier::truncate]
                    (region.a as u8),
                );
            }
            assert(colors@ =~= before + color_bytes(regions[ct_region_idx as int], alpha));
            idx = idx + 1;
        }
        colors
    }
}

/// What [`first_match`] finds is a region with the label, and the first one:
/// no region from `from` on and before it has the label. Where it finds
/// none, no region from `from` on has the label.
pub proof fn lemma_first_match(regions: Seq<RegionView>, label: i32, from: int)
    requires
        0 <= from,
    ensures
        match first_match(regions, label, from) {
            Some(k) => from <= k < regions.len() && regions[k].label == label && forall|j: int|
                from <= j < k ==> regions[j].label != label,
            None => forall|j: int| from <= j < regions.len() ==> regions[j].label != label,
        },
    decreases regions.len() - from,
{
    if from < regions.len() && regions[from].label != label {
        lemma_first_match(regions, label, from + 1);
    }
}

/// Whether no two regions have one label.
pub open spec fn distinct_labels(regions: Seq<RegionView>) -> bool {
    forall|j: int, k: int|
        0 <= j < k < regions.len() ==> (#[trigger] regions[j]).label != (
        #[trigger] regions[k]).label
}

/// Each vertex is matched or unmatched: either its label is the label of a
/// region, and then its index into the color table is that of the first
/// such region, or its label is the label of no region, and then its index
/// is the one for unmatched vertices. Where no two regions have one label,
/// the region of a matched vertex is the only one with its label.
pub proof fn lemma_vertex_matched_or_unmatched(
    regions: Seq<RegionView>,
    label: i32,
    unmatched: usize,
)
    ensures
        ({
            let index = colortable_index(regions, label, unmatched);
            ||| (0 <= index < regions.len() && regions[index].label == label && (forall|j: int|
                0 <= j < index ==> regions[j].label != label) && (distinct_labels(regions)
                ==> forall|j: int|
                0 <= j < regions.len() && j != index ==> regions[j].label != label))
            ||| (index == unmatched && forall|j: int|
                0 <= j < regions.len() ==> regions[j].label != label)
        }),
{
    lemma_first_match(regions, label, 0);
}

/// The vertices of a region are exactly the vertices with its label: what
/// [`vertices_with`] holds are indices of vertices with the label, each such
/// index is in it, and the indices rise.
pub proof fn lemma_vertices_with(labels: Seq<i32>, label: i32, upto: int)
    requires
        0 <= upto <= labels.len() <= usize::MAX,
    ensures
        forall|k: int|
            0 <= k < vertices_with(labels, label, upto).len() ==> 0 <= (#[trigger] vertices_with(
                labels,
                label,
                upto,
            )[k]) < upto && labels[vertices_with(labels, label, upto)[k] as int] == label,
        forall|i: int|
            0 <= i < upto && labels[i] == label ==> vertices_with(labels, label, upto).contains(
                i as usize,
            ),
        forall|j: int, k: int|
            0 <= j < k < vertices_with(labels, label, upto).len() ==> vertices_with(
                labels,
                label,
                upto,
            )[j] < vertices_with(labels, label, upto)[k],
        vertices_with(labels, label, upto).len() <= upto,
    decreases upto,
{
    if upto > 0 {
        lemma_vertices_with(labels, label, upto - 1);
        let before = vertices_with(labels, label, upto - 1);
        let now = vertices_with(labels, label, upto);
        if labels[upto - 1] == label {
            assert(now == before.push((upto - 1) as usize));
            assert(now[now.len() - 1] == (upto - 1) as usize);
            assert forall|k: int| 0 <= k < now.len() implies 0 <= (#[trigger] now[k]) < upto
                && labels[now[k] as int] == label by {
                if k < before.len() {
                    assert(now[k] == before[k]);
                }
            }
            assert forall|j: int, k: int| 0 <= j < k < now.len() implies now[j] < now[k] by {
                assert(now[j] == before[j]);
                if k < before.len() {
                    assert(now[k] == before[k]);
                }
            }
        }
        assert forall|i: int| 0 <= i < upto && labels[i] == label implies now.contains(
            i as usize,
        ) by {
            if i < upto - 1 {
                assert(before.contains(i as usize));
                let k = choose|k: int| 0 <= k < before.len() && before[k] == i as usize;
                assert(now[k] == i as usize);
            } else {
                assert(now[now.len() - 1] == i as usize);
            }
        }
    }
}

/// Reads a brain parcellation from the contents of a FreeSurfer annot file;
/// see [`FsAnnot::from_reader`].
///
/// [`FsAnnot::regions`], [`FsAnnot::vertex_regions`] and
/// [`FsAnnot::region_vertices`] do the common tasks on the result.
pub fn read_annot(contents: Vec<u8>) -> (r: Result<FsAnnot, NeuroformatsError>)
    ensures
        agrees(r, parse_annot(contents@, 0).outcome()),
{
    FsAnnot::from_file(contents)
}

} // verus!
