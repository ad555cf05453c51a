//! FreeSurfer per-vertex data in binary curv files.
//!
//! A curv file holds one value, most often a morphological descriptor such as
//! the cortical thickness, for each vertex of a brain surface mesh. The
//! values are 32-bit floats and are held here as their bit patterns.

use crate::endian::{
    be_bytes_i32, be_bytes_u32s, i32_at, lemma_i32_bytes_round_trip, put_i32, put_u32s, put_u8,
};
use crate::error::{ErrorKind, NeuroformatsError};
use crate::reader::{
    agrees, clamp_count, lemma_u32s_round_trip, parse_u32s, ByteReader, Parse,
};
use crate::util::{gz_name, is_gz_file, open_bytes, plain_bytes};
use vstd::prelude::*;

verus! {

/// Each of the three bytes that a curv file starts with.
pub const CURV_MAGIC_CODE_U8: u8 = 255;

/// The length of the header of a curv file in bytes.
pub const CURV_HEADER_SIZE: usize = 15;

/// The header of a curv file.
#[derive(Debug, Clone, PartialEq)]
pub struct FsCurvHeader {
    pub curv_magic: [u8; 3],
    pub num_vertices: i32,
    /// The number of faces of the mesh that the data belongs to.
    pub num_faces: i32,
    pub num_values_per_vertex: i32,
}

/// An [`FsCurvHeader`] in contracts.
pub struct FsCurvHeaderView {
    pub curv_magic: Seq<u8>,
    pub num_vertices: i32,
    pub num_faces: i32,
    pub num_values_per_vertex: i32,
}

impl View for FsCurvHeader {
    type V = FsCurvHeaderView;

    open spec fn view(&self) -> FsCurvHeaderView {
        FsCurvHeaderView {
            curv_magic: self.curv_magic@,
            num_vertices: self.num_vertices,
            num_faces: self.num_faces,
            num_values_per_vertex: self.num_values_per_vertex,
        }
    }
}

/// The per-vertex data of a curv file, with the header of the file.
#[derive(Debug, PartialEq, Clone)]
pub struct FsCurv {
    pub header: FsCurvHeader,
    /// One float for each vertex, as its bit pattern.
    pub data: Vec<u32>,
}

/// An [`FsCurv`] in contracts.
pub struct FsCurvView {
    pub header: FsCurvHeaderView,
    pub data: Seq<u32>,
}

impl View for FsCurv {
    type V = FsCurvView;

    open spec fn view(&self) -> FsCurvView {
        FsCurvView { header: self.header@, data: self.data@ }
    }
}

/// The three magic bytes of a curv file.
pub open spec fn curv_magic() -> Seq<u8> {
    seq![CURV_MAGIC_CODE_U8, CURV_MAGIC_CODE_U8, CURV_MAGIC_CODE_U8]
}

/// The header that starts at `pos`: three magic bytes, each of them 255, and
/// then the number of vertices, the number of faces and the number of values
/// per vertex as `i32`.
pub open spec fn parse_curv_header(bytes: Seq<u8>, pos: int) -> Parse<FsCurvHeaderView> {
    if pos + 3 > bytes.len() {
        Parse::Fail { kind: ErrorKind::Io, at: bytes.len() as int }
    } else if bytes.subrange(pos, pos + 3) != curv_magic() {
        Parse::Fail { kind: ErrorKind::InvalidCurvFormat, at: pos + 3 }
    } else if pos + 15 > bytes.len() {
        Parse::Fail { kind: ErrorKind::Io, at: bytes.len() as int }
    } else {
        Parse::Done {
            value: FsCurvHeaderView {
                curv_magic: curv_magic(),
                num_vertices: i32_at(bytes, pos + 3) as i32,
                num_faces: i32_at(bytes, pos + 7) as i32,
                num_values_per_vertex: i32_at(bytes, pos + 11) as i32,
            },
            next: pos + 15,
        }
    }
}

/// The values of the file that starts at `pos` and has the header `hdr`: one
/// float for each vertex, behind the [`CURV_HEADER_SIZE`] bytes of the
/// header.
pub open spec fn parse_curv_data(bytes: Seq<u8>, pos: int, hdr: FsCurvHeaderView) -> Parse<
    Seq<u32>,
> {
    if pos + CURV_HEADER_SIZE > bytes.len() {
        Parse::Fail { kind: ErrorKind::Io, at: bytes.len() as int }
    } else {
        parse_u32s(bytes, pos + CURV_HEADER_SIZE, hdr.num_vertices as int)
    }
}

/// A whole curv file: the header at its start, and the values that this
/// header describes.
pub open spec fn decode_curv(bytes: Seq<u8>) -> Result<FsCurvView, ErrorKind> {
    match parse_curv_header(bytes, 0) {
        Parse::Fail { kind, at } => Err(kind),
        Parse::Done { value: header, next } => match parse_curv_data(bytes, 0, header) {
            Parse::Fail { kind, at } => Err(kind),
            Parse::Done { value: data, next } => Ok(FsCurvView { header, data }),
        },
    }
}

/// The bytes of a curv file: the three magic bytes, the three numbers of the
/// header, and the values. The magic bytes are written as the format has
/// them, whatever the header holds.
pub open spec fn encode_curv(curv: FsCurvView) -> Seq<u8> {
    curv_magic() + be_bytes_i32(curv.header.num_vertices as int) + be_bytes_i32(
        curv.header.num_faces as int,
    ) + be_bytes_i32(curv.header.num_values_per_vertex as int) + be_bytes_u32s(curv.data)
}

impl Default for FsCurvHeader {
    fn default() -> (hdr: FsCurvHeader)
        ensures
            hdr@ == (FsCurvHeaderView {
                curv_magic: curv_magic(),
                num_vertices: 0,
                num_faces: 0,
                num_values_per_vertex: 1,
            }),
    {
        let hdr = FsCurvHeader {
            curv_magic: [255, 255, 255],
            num_vertices: 0,
            num_faces: 0,
            num_values_per_vertex: 1,
        };
        assert(hdr.curv_magic@ =~= curv_magic());
        hdr
    }
}

impl FsCurvHeader {
    /// Reads the header of a curv file from the contents of the file. A file
    /// whose name ends with ".gz" is decompressed first.
    pub fn from_file(path: &str, contents: Vec<u8>) -> (r: Result<FsCurvHeader, NeuroformatsError>)
        ensures
            agrees(
                r,
                match plain_bytes(gz_name(path@), contents@) {
                    Some(bytes) => parse_curv_header(bytes, 0).outcome(),
                    None => Err(ErrorKind::Io),
                },
            ),
    {
        let gz = is_gz_file(path);
        let mut file = open_bytes(gz, contents)?;
        FsCurvHeader::from_reader(&mut file)
    }

    /// Reads a curv header. The reader stands at the start of the header.
    ///
    /// Fails with [`NeuroformatsError::InvalidCurvFormat`] where one of the
    /// three magic bytes is not 255, and with an I/O error where the input
    /// ends inside the header.
    pub fn from_reader(input: &mut ByteReader) -> (r: Result<FsCurvHeader, NeuroformatsError>)
        ensures
            final(input).went(
                old(input),
                r,
                parse_curv_header(old(input).contents(), old(input).offset()),
            ),
    {
        let ghost bytes = input.contents();
        let ghost pos = input.offset();
        let _ = input.position();
        let m0 = input.read_u8()?;
        let m1 = input.read_u8()?;
        let m2 = input.read_u8()?;
        assert(bytes.subrange(pos, pos + 3) =~= seq![m0, m1, m2]);
        if !(m0 == CURV_MAGIC_CODE_U8 && m1 == CURV_MAGIC_CODE_U8 && m2 == CURV_MAGIC_CODE_U8) {
            assert(seq![m0, m1, m2] != curv_magic()) by {
                assert(curv_magic()[0] == 255 && curv_magic()[1] == 255 && curv_magic()[2] == 255);
                assert(seq![m0, m1, m2][0] == m0 && seq![m0, m1, m2][1] == m1 && seq![
                    m0,
                    m1,
                    m2,
                ][2] == m2);
            }
            return Err(NeuroformatsError::InvalidCurvFormat);
        }
        assert(seq![m0, m1, m2] =~= curv_magic());
        let num_vertices = input.read_i32()?;
        let num_faces = input.read_i32()?;
        let num_values_per_vertex = input.read_i32()?;
        let hdr = FsCurvHeader {
            curv_magic: [m0, m1, m2],
            num_vertices,
            num_faces,
            num_values_per_vertex,
        };
        assert(hdr.curv_magic@ =~= curv_magic());
        Ok(hdr)
    }
}

/// Reads per-vertex data from the contents of a FreeSurfer curv file; see
/// [`FsCurv::from_file`]. See `read_surf` for the mesh that the values belong
/// to.
pub fn read_curv(path: &str, contents: Vec<u8>) -> (r: Result<FsCurv, NeuroformatsError>)
    ensures
        agrees(
            r,
            match plain_bytes(gz_name(path@), contents@) {
                Some(bytes) => decode_curv(bytes),
                None => Err(ErrorKind::Io),
            },
        ),
{
    FsCurv::from_file(path, contents)
}

/// The bytes of a curv file for `curv`. Nothing is compressed.
pub fn write_curv(curv: &FsCurv) -> (bytes: Vec<u8>)
    ensures
        bytes@ == encode_curv(curv@),
{
    let mut f: Vec<u8> = Vec::new();
    let _ = put_u8(&mut f, CURV_MAGIC_CODE_U8);
    let _ = put_u8(&mut f, CURV_MAGIC_CODE_U8);
    let _ = put_u8(&mut f, CURV_MAGIC_CODE_U8);
    assert(f@ =~= curv_magic());
    let _ = put_i32(&mut f, curv.header.num_vertices);
    let _ = put_i32(&mut f, curv.header.num_faces);
    let _ = put_i32(&mut f, curv.header.num_values_per_vertex);
    put_u32s(&mut f, &curv.data);
    f
}

impl FsCurv {
    /// Reads a curv file from its contents. A file whose name ends with ".gz"
    /// is decompressed first: FreeSurfer does not write such files, but they
    /// are handy.
    ///
    /// Fails as [`FsCurvHeader::from_reader`] and
    /// [`FsCurv::curv_data_from_reader`] do, and with an I/O error where the
    /// contents of a ".gz" file are no gzip stream.
    pub fn from_file(path: &str, contents: Vec<u8>) -> (r: Result<FsCurv, NeuroformatsError>)
        ensures
            agrees(
                r,
                match plain_bytes(gz_name(path@), contents@) {
                    Some(bytes) => decode_curv(bytes),
                    None => Err(ErrorKind::Io),
                },
            ),
    {
        let gz = is_gz_file(path);
        let mut file = open_bytes(gz, contents)?;
        let header = FsCurvHeader::from_reader(&mut file)?;
        file.rewind();
        let data = FsCurv::curv_data_from_reader(&mut file, &header)?;
        Ok(FsCurv { header, data })
    }

    /// Reads the values of a curv file. The reader stands at the start of
    /// the file, before the header, which is passed over.
    ///
    /// Fails with an I/O error where the input ends before the last value.
    pub fn curv_data_from_reader(input: &mut ByteReader, hdr: &FsCurvHeader) -> (r: Result<
        Vec<u32>,
        NeuroformatsError,
    >)
        ensures
            final(input).went(
                old(input),
                r,
                parse_curv_data(old(input).contents(), old(input).offset(), hdr@),
            ),
    {
        let _ = input.position();
        let _hdr_data = input.read_u8s(CURV_HEADER_SIZE)?;
        let _ = input.position();
        input.read_u32s(clamp_count(hdr.num_vertices as i64))
    }
}

/// Reading what was written: a curv file that is read, written and read
/// again gives the same header and the same values. The second reading does
/// not fail.
pub proof fn lemma_curv_round_trip(bytes: Seq<u8>)
    requires
        decode_curv(bytes) is Ok,
    ensures
        decode_curv(encode_curv(decode_curv(bytes)->Ok_0)) == decode_curv(bytes),
{
    let curv = decode_curv(bytes)->Ok_0;
    let header = curv.header;
    let written = encode_curv(curv);
    let n = header.num_vertices as int;
    assert(header.curv_magic == curv_magic());
    assert(written.len() == 15 + 4 * curv.data.len());
    assert(written.subrange(0, 3) =~= curv_magic());
    assert(written.subrange(3, 7) =~= be_bytes_i32(header.num_vertices as int));
    assert(written.subrange(7, 11) =~= be_bytes_i32(header.num_faces as int));
    assert(written.subrange(11, 15) =~= be_bytes_i32(header.num_values_per_vertex as int));
    lemma_i32_bytes_round_trip(header.num_vertices as int, written, 3);
    lemma_i32_bytes_round_trip(header.num_faces as int, written, 7);
    lemma_i32_bytes_round_trip(header.num_values_per_vertex as int, written, 11);
    assert(parse_curv_header(written, 0) == (Parse::Done { value: header, next: 15 }));
    if n > 0 {
        assert(curv.data.len() == n);
        assert(written.subrange(15, 15 + 4 * n) =~= be_bytes_u32s(curv.data));
        lemma_u32s_round_trip(curv.data, written, 15);
    } else {
        assert(curv.data =~= Seq::empty());
    }
}

} // verus!
