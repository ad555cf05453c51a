//! FreeSurfer brain surface meshes in binary surf files.
//!
//! A surf file holds a triangular mesh. Each vertex is given by its x, y and
//! z coordinates, and each face by the indices of its three vertices, which
//! count from zero. The coordinates are 32-bit floats and are held here as
//! their bit patterns.

use crate::endian::{
    be_bytes_i32, be_bytes_i32s, be_bytes_u32s, i32_at, lemma_i32_bytes_round_trip, put_i32,
    put_i32s, put_u32s, put_u8,
};
use crate::error::{ErrorKind, NeuroformatsError};
use crate::float::{is_min_max, is_nan, min_max_strided, no_nan, strided};
use crate::reader::{
    agrees, clamp_count, lemma_i32s_round_trip, lemma_u32s_round_trip, parse_i32s, parse_u32s,
    ByteReader, Parse,
};
use crate::util::{
    double_lf_end, ends_at_double_lf, gz_name, is_gz_file, latin1, lemma_ascii_text_round_trip,
    lemma_utf8_double_lf, lemma_variable_string_shape, open_bytes, parse_variable_string,
    plain_bytes, read_fs_variable_length_string,
};
use vstd::prelude::*;
use vstd::utf8::{encode_utf8, is_ascii_chars};

verus! {

/// The number that the three magic bytes of a surf file with triangular
/// faces spell.
pub const TRIS_MAGIC_FILE_TYPE_NUMBER: i32 = 16777214;

/// The header of a surf file. The `info_line` ends with two line feeds.
#[derive(Debug, Clone, PartialEq)]
pub struct FsSurfaceHeader {
    pub surf_magic: [u8; 3],
    pub info_line: String,
    pub num_vertices: i32,
    pub num_faces: i32,
}

/// An [`FsSurfaceHeader`] in contracts.
pub struct FsSurfaceHeaderView {
    pub surf_magic: Seq<u8>,
    pub info_line: Seq<char>,
    pub num_vertices: i32,
    pub num_faces: i32,
}

impl View for FsSurfaceHeader {
    type V = FsSurfaceHeaderView;

    open spec fn view(&self) -> FsSurfaceHeaderView {
        FsSurfaceHeaderView {
            surf_magic: self.surf_magic@,
            info_line: self.info_line@,
            num_vertices: self.num_vertices,
            num_faces: self.num_faces,
        }
    }
}

/// A triangular mesh. Three coordinates in a row make a vertex, and three
/// vertex indices in a row make a face.
#[derive(Debug, PartialEq, Clone)]
pub struct BrainMesh {
    /// The coordinates, as the bit patterns of 32-bit floats.
    pub vertices: Vec<u32>,
    pub faces: Vec<i32>,
}

/// A [`BrainMesh`] in contracts.
pub struct BrainMeshView {
    pub vertices: Seq<u32>,
    pub faces: Seq<i32>,
}

impl View for BrainMesh {
    type V = BrainMeshView;

    open spec fn view(&self) -> BrainMeshView {
        BrainMeshView { vertices: self.vertices@, faces: self.faces@ }
    }
}

/// The contents of a surf file: header and mesh.
#[derive(Debug, PartialEq, Clone)]
pub struct FsSurface {
    pub header: FsSurfaceHeader,
    pub mesh: BrainMesh,
}

/// An [`FsSurface`] in contracts.
pub struct FsSurfaceView {
    pub header: FsSurfaceHeaderView,
    pub mesh: BrainMeshView,
}

impl View for FsSurface {
    type V = FsSurfaceView;

    open spec fn view(&self) -> FsSurfaceView {
        FsSurfaceView { header: self.header@, mesh: self.mesh@ }
    }
}

/// The number that three bytes spell, the first byte weighing most.
pub open spec fn int24(b1: u8, b2: u8, b3: u8) -> int {
    b1 as int * 0x1_0000 + b2 as int * 0x100 + b3 as int
}

/// The three magic bytes of a surf file with triangular faces.
pub open spec fn surf_magic() -> Seq<u8> {
    seq![255u8, 255u8, 254u8]
}

/// The header that starts at `pos`: three magic bytes, which spell
/// [`TRIS_MAGIC_FILE_TYPE_NUMBER`]; the info line, which ends with two line
/// feeds; and the number of vertices and of faces as `i32`.
pub open spec fn parse_surf_header(bytes: Seq<u8>, pos: int) -> Parse<FsSurfaceHeaderView> {
    if pos + 3 > bytes.len() {
        Parse::Fail { kind: ErrorKind::Io, at: bytes.len() as int }
    } else if int24(bytes[pos], bytes[pos + 1], bytes[pos + 2]) != TRIS_MAGIC_FILE_TYPE_NUMBER {
        Parse::Fail { kind: ErrorKind::InvalidFsSurfaceFormat, at: pos + 3 }
    } else {
        match parse_variable_string(bytes, pos + 3) {
            Parse::Fail { kind, at } => Parse::Fail { kind, at },
            Parse::Done { value: info_line, next } => if next + 8 > bytes.len() {
                Parse::Fail { kind: ErrorKind::Io, at: bytes.len() as int }
            } else {
                Parse::Done {
                    value: FsSurfaceHeaderView {
                        surf_magic: surf_magic(),
                        info_line,
                        num_vertices: i32_at(bytes, next) as i32,
                        num_faces: i32_at(bytes, next + 4) as i32,
                    },
                    next: next + 8,
                }
            },
        }
    }
}

/// The mesh that starts at `pos` and belongs to the header `hdr`: three
/// floats for each vertex, and then three `i32` for each face.
pub open spec fn parse_mesh(bytes: Seq<u8>, pos: int, hdr: FsSurfaceHeaderView) -> Parse<
    BrainMeshView,
> {
    match parse_u32s(bytes, pos, 3 * hdr.num_vertices) {
        Parse::Fail { kind, at } => Parse::Fail { kind, at },
        Parse::Done { value: vertices, next } => match parse_i32s(bytes, next, 3 * hdr.num_faces) {
            Parse::Fail { kind, at } => Parse::Fail { kind, at },
            Parse::Done { value: faces, next: end } => Parse::Done {
                value: BrainMeshView { vertices, faces },
                next: end,
            },
        },
    }
}

/// A surf file from `pos` on: the header, and behind it the mesh that this
/// header describes.
pub open spec fn parse_surf(bytes: Seq<u8>, pos: int) -> Parse<FsSurfaceView> {
    match parse_surf_header(bytes, pos) {
        Parse::Fail { kind, at } => Parse::Fail { kind, at },
        Parse::Done { value: header, next } => match parse_mesh(bytes, next, header) {
            Parse::Fail { kind, at } => Parse::Fail { kind, at },
            Parse::Done { value: mesh, next: end } => Parse::Done {
                value: FsSurfaceView { header, mesh },
                next: end,
            },
        },
    }
}

/// The bytes of a surf file: the magic bytes of the header, the info line in
/// UTF-8, the two numbers of the header, the coordinates and the vertex
/// indices.
pub open spec fn encode_surf(surf: FsSurfaceView) -> Seq<u8> {
    surf.header.surf_magic + encode_utf8(surf.header.info_line) + be_bytes_i32(
        surf.header.num_vertices as int,
    ) + be_bytes_i32(surf.header.num_faces as int) + be_bytes_u32s(surf.mesh.vertices)
        + be_bytes_i32s(surf.mesh.faces)
}

impl Default for FsSurfaceHeader {
    fn default() -> (hdr: FsSurfaceHeader)
        ensures
            hdr@ == (FsSurfaceHeaderView {
                surf_magic: surf_magic(),
                info_line: "A brain surface.\n\n"@,
                num_vertices: 0,
                num_faces: 0,
            }),
    {
        let hdr = FsSurfaceHeader {
            surf_magic: [255, 255, 254],
            info_line: "A brain surface.\n\n".to_owned(),
            num_vertices: 0,
            num_faces: 0,
        };
        assert(hdr.surf_magic@ =~= surf_magic());
        hdr
    }
}

impl FsSurfaceHeader {
    /// Reads the header of a surf file from the contents of the file. A file
    /// whose name ends with ".gz" is decompressed first.
    pub fn from_file(path: &str, contents: Vec<u8>) -> (r: Result<
        FsSurfaceHeader,
        NeuroformatsError,
    >)
        ensures
            agrees(
                r,
                match plain_bytes(gz_name(path@), contents@) {
                    Some(bytes) => parse_surf_header(bytes, 0).outcome(),
                    None => Err(ErrorKind::Io),
                },
            ),
    {
        let gz = is_gz_file(path);
        let mut file = open_bytes(gz, contents)?;
        FsSurfaceHeader::from_reader(&mut file)
    }

    /// Reads a surf header. The reader stands at the start of the header.
    ///
    /// Fails with [`NeuroformatsError::InvalidFsSurfaceFormat`] where the
    /// magic bytes do not spell [`TRIS_MAGIC_FILE_TYPE_NUMBER`], and with an
    /// I/O error where the input ends inside the header.
    pub fn from_reader(input: &mut ByteReader) -> (r: Result<FsSurfaceHeader, NeuroformatsError>)
        ensures
            final(input).went(
                old(input),
                r,
                parse_surf_header(old(input).contents(), old(input).offset()),
            ),
    {
        let _ = input.position();
        let m0 = input.read_u8()?;
        let m1 = input.read_u8()?;
        let m2 = input.read_u8()?;
        let magic = interpret_fs_int24(m0, m1, m2);
        if magic != TRIS_MAGIC_FILE_TYPE_NUMBER {
            return Err(NeuroformatsError::InvalidFsSurfaceFormat);
        }
        let info_line = read_fs_variable_length_string(input)?;
        let num_vertices = input.read_i32()?;
        let num_faces = input.read_i32()?;
        let hdr = FsSurfaceHeader { surf_magic: [m0, m1, m2], info_line, num_vertices, num_faces };
        assert(hdr.surf_magic@ =~= surf_magic());
        Ok(hdr)
    }
}

/// The x coordinates of the vertices for `axis` 0, their y coordinates for
/// 1 and their z coordinates for 2.
pub open spec fn axis_coords(coords: Seq<u32>, axis: int) -> Seq<u32> {
    strided(coords, axis, 3)
}

/// The minimum and the maximum of the coordinates for the x, the y and the z
/// axis, in the order `(min_x, max_x, min_y, max_y, min_z, max_z)`. Where
/// several coordinates are equal, as the two zeros are, the first of them is
/// returned.
///
/// There must be coordinates, three for each vertex, and none may be a NaN.
/// The result is never an error.
pub fn coord_extrema(coords: &Vec<u32>) -> (r: Result<
    (u32, u32, u32, u32, u32, u32),
    NeuroformatsError,
>)
    requires
        coords@.len() > 0,
        coords@.len() % 3 == 0,
        no_nan(coords@),
    ensures
        r is Ok,
        is_min_max(axis_coords(coords@, 0), (r->Ok_0.0, r->Ok_0.1)),
        is_min_max(axis_coords(coords@, 1), (r->Ok_0.2, r->Ok_0.3)),
        is_min_max(axis_coords(coords@, 2), (r->Ok_0.4, r->Ok_0.5)),
{
    proof {
        assert(coords@.len() / 3 > 0);
        assert(!is_nan(strided(coords@, 0, 3)[0]));
        assert(!is_nan(strided(coords@, 1, 3)[0]));
        assert(!is_nan(strided(coords@, 2, 3)[0]));
    }
    let (min_x, max_x) = min_max_strided(coords.as_slice(), 0, 3);
    let (min_y, max_y) = min_max_strided(coords.as_slice(), 1, 3);
    let (min_z, max_z) = min_max_strided(coords.as_slice(), 2, 3);
    Ok((min_x, max_x, min_y, max_y, min_z, max_z))
}

/// Three bytes as one 24-bit number, the first byte weighing most: `(b1 <<
/// 16) | (b2 << 8) | b3`.
pub fn interpret_fs_int24(b1: u8, b2: u8, b3: u8) -> (fs_int24: i32)
    ensures
        fs_int24 == int24(b1, b2, b3),
        fs_int24 as u32 == ((b1 as u32) << 16) | ((b2 as u32) << 8) | (b3 as u32),
{
    let c1 = (b1 as i32) * 0x1_0000;
    let c2 = (b2 as i32) * 0x100;
    let c3 = b3 as i32;
    let fs_int24: i32 = c1 + c2 + c3;
    assert(fs_int24 as u32 == ((b1 as u32) << 16) | ((b2 as u32) << 8) | (b3 as u32)) by {
        let x = (b1 as u32) * 0x1_0000 + (b2 as u32) * 0x100 + (b3 as u32);
        assert(x == fs_int24 as u32);
        assert((b1 as u32) * 0x1_0000 + (b2 as u32) * 0x100 + (b3 as u32) == ((b1 as u32) << 16) | (
        (b2 as u32) << 8) | (b3 as u32)) by (bit_vector);
    }
    fs_int24
}

/// The bytes of a surf file for `surf`. The info line is written as it is:
/// it is for the caller to end it with two line feeds.
pub fn write_surf(surf: &FsSurface) -> (bytes: Vec<u8>)
    ensures
        bytes@ == encode_surf(surf@),
{
    let mut f: Vec<u8> = Vec::new();
    let _ = put_u8(&mut f, surf.header.surf_magic[0]);
    let _ = put_u8(&mut f, surf.header.surf_magic[1]);
    let _ = put_u8(&mut f, surf.header.surf_magic[2]);
    assert(f@ =~= surf@.header.surf_magic);
    let ghost head = f@;
    let line = surf.header.info_line.as_str().as_bytes();
    f.extend_from_slice(line);
    assert(f@ =~= head + encode_utf8(surf@.header.info_line));
    let _ = put_i32(&mut f, surf.header.num_vertices);
    let _ = put_i32(&mut f, surf.header.num_faces);
    put_u32s(&mut f, &surf.mesh.vertices);
    put_i32s(&mut f, &surf.mesh.faces);
    f
}

impl BrainMesh {
    /// The number of vertices of this mesh.
    pub fn num_vertices(&self) -> (n: usize)
        ensures
            n == self@.vertices.len() / 3,
    {
        self.vertices.len() / 3
    }

    /// The minimum and the maximum of the coordinates for the x, the y and
    /// the z axis of the mesh; see [`coord_extrema`].
    ///
    /// The mesh must have vertices, each of three coordinates, and no
    /// coordinate may be a NaN.
    pub fn axes_min_max_coords(&self) -> (r: Result<
        (u32, u32, u32, u32, u32, u32),
        NeuroformatsError,
    >)
        requires
            self@.vertices.len() > 0,
            self@.vertices.len() % 3 == 0,
            no_nan(self@.vertices),
        ensures
            r is Ok,
            is_min_max(axis_coords(self@.vertices, 0), (r->Ok_0.0, r->Ok_0.1)),
            is_min_max(axis_coords(self@.vertices, 1), (r->Ok_0.2, r->Ok_0.3)),
            is_min_max(axis_coords(self@.vertices, 2), (r->Ok_0.4, r->Ok_0.5)),
    {
        coord_extrema(&self.vertices)
    }

    /// Whether each vertex index of each face is the index of a vertex of
    /// this mesh. A mesh that was read need not be so.
    pub fn has_valid_faces(&self) -> (valid: bool)
        ensures
            valid <==> forall|k: int|
                0 <= k < self@.faces.len() ==> 0 <= #[trigger] self@.faces[k]
                    < self@.vertices.len() / 3,
    {
        let vertex_count = self.vertices.len() / 3;
        let mut k: usize = 0;
        while k < self.faces.len()
            invariant
                k <= self.faces@.len(),
                vertex_count == self@.vertices.len() / 3,
                forall|i: int| 0 <= i < k ==> 0 <= #[trigger] self@.faces[i] < vertex_count,
            decreases self.faces@.len() - k,
        {
            let index = self.faces[k];
            if index < 0 || index as usize >= vertex_count {
                assert(!(0 <= self@.faces[k as int] < self@.vertices.len() / 3));
                return false;
            }
            k = k + 1;
        }
        true
    }

    /// The number of faces of this mesh.
    pub fn num_faces(&self) -> (n: usize)
        ensures
            n == self@.faces.len() / 3,
    {
        self.faces.len() / 3
    }
}

/// Reads a mesh from the contents of a FreeSurfer surf file; see
/// [`FsSurface::from_file`]. See `read_curv` for per-vertex data of the mesh
/// and `read_annot` for parcellations.
pub fn read_surf(path: &str, contents: Vec<u8>) -> (r: Result<FsSurface, NeuroformatsError>)
    ensures
        agrees(
            r,
            match plain_bytes(gz_name(path@), contents@) {
                Some(bytes) => parse_surf(bytes, 0).outcome(),
                None => Err(ErrorKind::Io),
            },
        ),
{
    FsSurface::from_file(path, contents)
}

impl FsSurface {
    /// Reads a surf file from its contents. A file whose name ends with ".gz"
    /// is decompressed first.
    ///
    /// Fails as [`FsSurfaceHeader::from_reader`] and
    /// [`FsSurface::mesh_from_reader`] do, and with an I/O error where the
    /// contents of a ".gz" file are no gzip stream.
    pub fn from_file(path: &str, contents: Vec<u8>) -> (r: Result<FsSurface, NeuroformatsError>)
        ensures
            agrees(
                r,
                match plain_bytes(gz_name(path@), contents@) {
                    Some(bytes) => parse_surf(bytes, 0).outcome(),
                    None => Err(ErrorKind::Io),
                },
            ),
    {
        let gz = is_gz_file(path);
        let mut file = open_bytes(gz, contents)?;
        FsSurface::from_reader(&mut file)
    }

    /// Reads a surf file: header and mesh.
    pub fn from_reader(input: &mut ByteReader) -> (r: Result<FsSurface, NeuroformatsError>)
        ensures
            final(input).went(old(input), r, parse_surf(old(input).contents(), old(input).offset())),
    {
        let header = FsSurfaceHeader::from_reader(input)?;
        let mesh = FsSurface::mesh_from_reader(input, &header)?;
        Ok(FsSurface { header, mesh })
    }

    /// Reads a mesh, the data part of a surf file. The reader stands behind
    /// the header. The vertex indices of the faces are taken as they are:
    /// that they are indices of vertices of the mesh is not looked into.
    ///
    /// Fails with an I/O error where the input ends before the last face.
    /// Where the header states smaller numbers than the file holds, the mesh
    /// is the smaller one.
    pub fn mesh_from_reader(input: &mut ByteReader, hdr: &FsSurfaceHeader) -> (r: Result<
        BrainMesh,
        NeuroformatsError,
    >)
        ensures
            final(input).went(
                old(input),
                r,
                parse_mesh(old(input).contents(), old(input).offset(), hdr@),
            ),
    {
        let _ = input.position();
        let vertices = input.read_u32s(clamp_count(3 * (hdr.num_vertices as i64)))?;
        let _ = input.position();
        let faces = input.read_i32s(clamp_count(3 * (hdr.num_faces as i64)))?;
        Ok(BrainMesh { vertices, faces })
    }
}

/// The bytes that [`encode_surf`] writes behind the info line: the two
/// numbers of the header, the coordinates and the vertex indices.
pub open spec fn encode_behind_info_line(surf: FsSurfaceView) -> Seq<u8> {
    be_bytes_i32(surf.header.num_vertices as int) + be_bytes_i32(surf.header.num_faces as int)
        + be_bytes_u32s(surf.mesh.vertices) + be_bytes_i32s(surf.mesh.faces)
}

/// The header of a surface with a valid magic number and an info line that
/// ends with its first two adjacent line feeds is read from the bytes written
/// for the surface, with the info line as its UTF-8 bytes spell it.
pub proof fn lemma_surf_header_written(surf: FsSurfaceView)
    requires
        surf.header.surf_magic == surf_magic(),
        ends_at_double_lf(surf.header.info_line),
    ensures
        parse_surf_header(encode_surf(surf), 0) == (Parse::Done {
            value: FsSurfaceHeaderView {
                info_line: latin1(encode_utf8(surf.header.info_line)),
                ..surf.header
            },
            next: 11 + encode_utf8(surf.header.info_line).len() as int,
        }),
        encode_surf(surf).subrange(
            11 + encode_utf8(surf.header.info_line).len() as int,
            encode_surf(surf).len() as int,
        ) == be_bytes_u32s(surf.mesh.vertices) + be_bytes_i32s(surf.mesh.faces),
{
    let header = surf.header;
    let line = encode_utf8(header.info_line);
    let post = encode_behind_info_line(surf);
    let written = encode_surf(surf);
    let at = 3 + line.len() as int;
    assert(written =~= header.surf_magic + line + post);
    lemma_utf8_double_lf(header.info_line, header.surf_magic, post);
    assert(double_lf_end(written, 3) == Some(at));
    assert(written[0] == 255 && written[1] == 255 && written[2] == 254);
    assert(written.subrange(3, at) =~= line);
    assert(written.subrange(at, at + 4) =~= be_bytes_i32(header.num_vertices as int));
    assert(written.subrange(at + 4, at + 8) =~= be_bytes_i32(header.num_faces as int));
    lemma_i32_bytes_round_trip(header.num_vertices as int, written, at);
    lemma_i32_bytes_round_trip(header.num_faces as int, written, at + 4);
    assert(written.subrange(at + 8, written.len() as int) =~= be_bytes_u32s(surf.mesh.vertices)
        + be_bytes_i32s(surf.mesh.faces));
}

/// A mesh with as many coordinates and vertex indices as a header states is
/// read from the bytes written for it.
pub proof fn lemma_mesh_written(mesh: BrainMeshView, hdr: FsSurfaceHeaderView, bytes: Seq<u8>, pos: int)
    requires
        0 <= pos <= bytes.len(),
        bytes.subrange(pos, bytes.len() as int) == be_bytes_u32s(mesh.vertices) + be_bytes_i32s(
            mesh.faces,
        ),
        mesh.vertices.len() == if hdr.num_vertices > 0 {
            3 * hdr.num_vertices
        } else {
            0
        },
        mesh.faces.len() == if hdr.num_faces > 0 {
            3 * hdr.num_faces
        } else {
            0
        },
    ensures
        parse_mesh(bytes, pos, hdr) == (Parse::Done { value: mesh, next: bytes.len() as int }),
{
    let vertices = mesh.vertices;
    let faces = mesh.faces;
    let rest = bytes.subrange(pos, bytes.len() as int);
    assert(rest.len() == 4 * vertices.len() + 4 * faces.len());
    let behind = pos + 4 * vertices.len();
    if vertices.len() > 0 {
        assert(bytes.subrange(pos, pos + 4 * vertices.len()) =~= be_bytes_u32s(vertices)) by {
            assert forall|k: int| 0 <= k < 4 * vertices.len() implies bytes[pos + k]
                == be_bytes_u32s(vertices)[k] by {
                assert(bytes[pos + k] == rest[k]);
            }
        }
        lemma_u32s_round_trip(vertices, bytes, pos);
    } else {
        assert(vertices =~= Seq::empty());
    }
    if faces.len() > 0 {
        assert(bytes.subrange(behind, behind + 4 * faces.len()) =~= be_bytes_i32s(faces)) by {
            assert forall|k: int| 0 <= k < 4 * faces.len() implies bytes[behind + k]
                == be_bytes_i32s(faces)[k] by {
                assert(bytes[behind + k] == rest[4 * vertices.len() + k]);
            }
        }
        lemma_i32s_round_trip(faces, bytes, behind);
    } else {
        assert(faces =~= Seq::empty());
    }
}

/// Reading what was written: a surf file that is read, written and read
/// again gives the same mesh, vertex by vertex and face by face, and the
/// same numbers in the header. The second reading does not fail. Where the
/// info line is ASCII, it is the same too, and with it the whole file.
pub proof fn lemma_surf_round_trip(bytes: Seq<u8>)
    requires
        parse_surf(bytes, 0) is Done,
    ensures
        ({
            let surf = parse_surf(bytes, 0).outcome()->Ok_0;
            let again = parse_surf(encode_surf(surf), 0).outcome();
            &&& again is Ok
            &&& again->Ok_0.mesh == surf.mesh
            &&& again->Ok_0.header.surf_magic == surf.header.surf_magic
            &&& again->Ok_0.header.num_vertices == surf.header.num_vertices
            &&& again->Ok_0.header.num_faces == surf.header.num_faces
            &&& is_ascii_chars(surf.header.info_line) ==> again->Ok_0 == surf
        }),
{
    let surf = parse_surf(bytes, 0).outcome()->Ok_0;
    let info = surf.header.info_line;
    let written = encode_surf(surf);
    assert(parse_surf_header(bytes, 0) is Done);
    assert(parse_variable_string(bytes, 3) is Done);
    assert(info == parse_variable_string(bytes, 3).outcome()->Ok_0);
    lemma_variable_string_shape(bytes, 3);
    lemma_surf_header_written(surf);
    let again_header = FsSurfaceHeaderView { info_line: latin1(encode_utf8(info)), ..surf.header };
    let at = 11 + encode_utf8(info).len() as int;
    lemma_mesh_written(surf.mesh, again_header, written, at);
    if is_ascii_chars(info) {
        lemma_ascii_text_round_trip(info);
    }
}

} // verus!
