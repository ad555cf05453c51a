//! FreeSurfer brain volumes, or other data of up to four dimensions, in
//! binary MGH files and their gzip-compressed form, MGZ.
//!
//! The samples of a volume are kept in the order of the file. Of the four
//! indices of a sample the last changes fastest.

use crate::error::{ErrorKind, NeuroformatsError};
use crate::reader::{
    agrees, parse_i16s, parse_i32s, parse_u32s, parse_u8s, u32s_at, ByteReader, Parse,
};
use crate::endian::{i16_at, i32_at};
use crate::util::{ends_with, file_name, file_name_of, has_suffix, open_bytes, plain_bytes};
use vstd::prelude::*;

verus! {

/// The version number that an MGH file starts with.
pub const MGH_VERSION_CODE: i32 = 1;

/// MRI data type code for `u8` samples.
pub const MRI_UCHAR: i32 = 0;

/// MRI data type code for `i32` samples.
pub const MRI_INT: i32 = 1;

/// MRI data type code for 32-bit float samples.
pub const MRI_FLOAT: i32 = 3;

/// MRI data type code for `i16` samples.
pub const MRI_SHORT: i32 = 4;

/// The offset in bytes at which the samples start.
pub const MGH_DATA_START: usize = 284;

/// The bit pattern of the NaN that stands in the RAS fields of a header
/// without valid RAS information.
pub const NAN_BITS: u32 = 0x7fc0_0000;

/// The header of an MGH file. The float fields hold bit patterns.
#[derive(Debug, Clone, PartialEq)]
pub struct FsMghHeader {
    pub mgh_format_version: i32,
    pub dim1len: i32,
    pub dim2len: i32,
    pub dim3len: i32,
    /// The number of frames; by convention the time dimension.
    pub dim4len: i32,
    pub dtype: i32,
    pub dof: i32,
    pub is_ras_good: i16,
    /// Voxel sizes along the three spatial axes.
    pub delta: [u32; 3],
    /// Direction cosines, a 3x3 matrix row by row.
    pub mdc_raw: [u32; 9],
    /// RAS coordinates of the center voxel.
    pub p_xyz_c: [u32; 3],
}

/// An [`FsMghHeader`] in contracts.
pub struct FsMghHeaderView {
    pub mgh_format_version: i32,
    pub dim1len: i32,
    pub dim2len: i32,
    pub dim3len: i32,
    pub dim4len: i32,
    pub dtype: i32,
    pub dof: i32,
    pub is_ras_good: i16,
    pub delta: Seq<u32>,
    pub mdc_raw: Seq<u32>,
    pub p_xyz_c: Seq<u32>,
}

impl View for FsMghHeader {
    type V = FsMghHeaderView;

    open spec fn view(&self) -> FsMghHeaderView {
        FsMghHeaderView {
            mgh_format_version: self.mgh_format_version,
            dim1len: self.dim1len,
            dim2len: self.dim2len,
            dim3len: self.dim3len,
            dim4len: self.dim4len,
            dtype: self.dtype,
            dof: self.dof,
            is_ras_good: self.is_ras_good,
            delta: self.delta@,
            mdc_raw: self.mdc_raw@,
            p_xyz_c: self.p_xyz_c@,
        }
    }
}

/// The samples of an MGH file: one field is filled, the one of the data type
/// of the file. Float samples are held as bit patterns.
#[derive(Debug, Clone, PartialEq)]
pub struct FsMghData {
    pub mri_uchar: Option<Vec<u8>>,
    pub mri_float: Option<Vec<u32>>,
    pub mri_int: Option<Vec<i32>>,
    pub mri_short: Option<Vec<i16>>,
}

/// An [`FsMghData`] in contracts.
pub struct FsMghDataView {
    pub mri_uchar: Option<Seq<u8>>,
    pub mri_float: Option<Seq<u32>>,
    pub mri_int: Option<Seq<i32>>,
    pub mri_short: Option<Seq<i16>>,
}

impl View for FsMghData {
    type V = FsMghDataView;

    open spec fn view(&self) -> FsMghDataView {
        FsMghDataView {
            mri_uchar: match self.mri_uchar {
                Some(v) => Some(v@),
                None => None,
            },
            mri_float: match self.mri_float {
                Some(v) => Some(v@),
                None => None,
            },
            mri_int: match self.mri_int {
                Some(v) => Some(v@),
                None => None,
            },
            mri_short: match self.mri_short {
                Some(v) => Some(v@),
                None => None,
            },
        }
    }
}

/// An MGH file: header and samples.
#[derive(Debug, Clone, PartialEq)]
pub struct FsMgh {
    pub header: FsMghHeader,
    pub data: FsMghData,
}

/// An [`FsMgh`] in contracts.
pub struct FsMghView {
    pub header: FsMghHeaderView,
    pub data: FsMghDataView,
}

impl View for FsMgh {
    type V = FsMghView;

    open spec fn view(&self) -> FsMghView {
        FsMghView { header: self.header@, data: self.data@ }
    }
}

/// The header that starts at `pos`: version, four dimensions, data type and
/// degrees of freedom as `i32`, the RAS flag as `i16`, and, if and only if
/// that flag is 1, fifteen floats: voxel sizes, direction cosines and center.
/// Without them these fields hold NaN.
pub open spec fn parse_mgh_header(bytes: Seq<u8>, pos: int) -> Parse<FsMghHeaderView> {
    if pos + 4 > bytes.len() {
        Parse::Fail { kind: ErrorKind::Io, at: bytes.len() as int }
    } else if i32_at(bytes, pos) != MGH_VERSION_CODE {
        Parse::Fail { kind: ErrorKind::InvalidFsMghFormat, at: pos + 4 }
    } else if pos + 30 > bytes.len() {
        Parse::Fail { kind: ErrorKind::Io, at: bytes.len() as int }
    } else {
        let fixed = FsMghHeaderView {
            mgh_format_version: MGH_VERSION_CODE,
            dim1len: i32_at(bytes, pos + 4) as i32,
            dim2len: i32_at(bytes, pos + 8) as i32,
            dim3len: i32_at(bytes, pos + 12) as i32,
            dim4len: i32_at(bytes, pos + 16) as i32,
            dtype: i32_at(bytes, pos + 20) as i32,
            dof: i32_at(bytes, pos + 24) as i32,
            is_ras_good: i16_at(bytes, pos + 28) as i16,
            delta: Seq::new(3, |i: int| NAN_BITS),
            mdc_raw: Seq::new(9, |i: int| NAN_BITS),
            p_xyz_c: Seq::new(3, |i: int| NAN_BITS),
        };
        if fixed.is_ras_good != 1 {
            Parse::Done { value: fixed, next: pos + 30 }
        } else if pos + 90 > bytes.len() {
            Parse::Fail { kind: ErrorKind::Io, at: bytes.len() as int }
        } else {
            Parse::Done {
                value: FsMghHeaderView {
                    delta: u32s_at(bytes, pos + 30, 3),
                    mdc_raw: u32s_at(bytes, pos + 42, 9),
                    p_xyz_c: u32s_at(bytes, pos + 78, 3),
                    ..fixed
                },
                next: pos + 90,
            }
        }
    }
}

/// The number of samples that a header declares: the product of its four
/// dimensions, and none where that product is not positive.
pub open spec fn voxel_count(hdr: FsMghHeaderView) -> int {
    let product = hdr.dim1len as int * hdr.dim2len as int * hdr.dim3len as int
        * hdr.dim4len as int;
    if product > 0 {
        product
    } else {
        0
    }
}

/// Samples of type `u8` alone.
pub open spec fn uchar_data(samples: Seq<u8>) -> FsMghDataView {
    FsMghDataView { mri_uchar: Some(samples), mri_float: None, mri_int: None, mri_short: None }
}

/// Samples of type `i32` alone.
pub open spec fn int_data(samples: Seq<i32>) -> FsMghDataView {
    FsMghDataView { mri_uchar: None, mri_float: None, mri_int: Some(samples), mri_short: None }
}

/// Float samples alone, as bit patterns.
pub open spec fn float_data(samples: Seq<u32>) -> FsMghDataView {
    FsMghDataView { mri_uchar: None, mri_float: Some(samples), mri_int: None, mri_short: None }
}

/// Samples of type `i16` alone.
pub open spec fn short_data(samples: Seq<i16>) -> FsMghDataView {
    FsMghDataView { mri_uchar: None, mri_float: None, mri_int: None, mri_short: Some(samples) }
}

/// The samples of the file that starts at `pos` and has the header `hdr`:
/// they start [`MGH_DATA_START`] bytes behind `pos`, there are
/// [`voxel_count`] of them, and the data type of the header says what one
/// sample is.
pub open spec fn parse_mgh_data(bytes: Seq<u8>, pos: int, hdr: FsMghHeaderView) -> Parse<
    FsMghDataView,
> {
    let start = pos + MGH_DATA_START;
    let n = voxel_count(hdr);
    if start > bytes.len() {
        Parse::Fail { kind: ErrorKind::Io, at: bytes.len() as int }
    } else if hdr.dtype == MRI_UCHAR {
        match parse_u8s(bytes, start, n) {
            Parse::Done { value, next } => Parse::Done { value: uchar_data(value), next },
            Parse::Fail { kind, at } => Parse::Fail { kind, at },
        }
    } else if hdr.dtype == MRI_INT {
        match parse_i32s(bytes, start, n) {
            Parse::Done { value, next } => Parse::Done { value: int_data(value), next },
            Parse::Fail { kind, at } => Parse::Fail { kind, at },
        }
    } else if hdr.dtype == MRI_FLOAT {
        match parse_u32s(bytes, start, n) {
            Parse::Done { value, next } => Parse::Done { value: float_data(value), next },
            Parse::Fail { kind, at } => Parse::Fail { kind, at },
        }
    } else if hdr.dtype == MRI_SHORT {
        match parse_i16s(bytes, start, n) {
            Parse::Done { value, next } => Parse::Done { value: short_data(value), next },
            Parse::Fail { kind, at } => Parse::Fail { kind, at },
        }
    } else {
        Parse::Fail { kind: ErrorKind::UnsupportedMriDataTypeInMgh, at: start }
    }
}

/// A whole MGH file: the header at its start, and the samples that this
/// header describes.
pub open spec fn decode_mgh(bytes: Seq<u8>) -> Result<FsMghView, ErrorKind> {
    match parse_mgh_header(bytes, 0) {
        Parse::Fail { kind, at } => Err(kind),
        Parse::Done { value: header, next } => match parse_mgh_data(bytes, 0, header) {
            Parse::Fail { kind, at } => Err(kind),
            Parse::Done { value: data, next } => Ok(FsMghView { header, data }),
        },
    }
}

/// Whether four indices name a sample of a volume with the header `hdr`:
/// each is less than its dimension.
pub open spec fn in_volume(hdr: FsMghHeaderView, i: int, j: int, k: int, l: int) -> bool {
    0 <= i < hdr.dim1len && 0 <= j < hdr.dim2len && 0 <= k < hdr.dim3len && 0 <= l < hdr.dim4len
}

/// The place among the samples of the sample with the four indices: of the
/// four indices the last changes fastest.
pub open spec fn voxel_offset(hdr: FsMghHeaderView, i: int, j: int, k: int, l: int) -> int {
    ((i * hdr.dim2len + j) * hdr.dim3len + k) * hdr.dim4len + l
}

/// Half of a dimension, rounded towards zero.
pub open spec fn half(len: i32) -> int {
    if len >= 0 {
        len as int / 2
    } else {
        -((-(len as int)) / 2)
    }
}

/// What the voxel-to-RAS transform of a volume is computed from. The floats
/// are bit patterns.
#[derive(Debug, Clone, PartialEq)]
pub struct RasGeometry {
    /// Voxel sizes along the three spatial axes.
    pub delta: [u32; 3],
    /// Direction cosines, a 3x3 matrix row by row.
    pub mdc_raw: [u32; 9],
    /// RAS coordinates of the center voxel.
    pub p_xyz_c: [u32; 3],
    /// Column, row and slice index of the center voxel.
    pub p_crs_c: [i32; 3],
}

impl Default for FsMghHeader {
    fn default() -> (hdr: FsMghHeader)
        ensures
            hdr.mgh_format_version == 1,
            hdr.dim1len == 0,
            hdr.dim2len == 0,
            hdr.dim3len == 0,
            hdr.dim4len == 0,
            hdr.dtype == MRI_INT,
            hdr.dof == 0,
            hdr.is_ras_good == 0,
            hdr.delta@ == Seq::new(3, |i: int| 0u32),
            hdr.mdc_raw@ == Seq::new(9, |i: int| 0u32),
            hdr.p_xyz_c@ == Seq::new(3, |i: int| 0u32),
    {
        let hdr = FsMghHeader {
            mgh_format_version: 1,
            dim1len: 0,
            dim2len: 0,
            dim3len: 0,
            dim4len: 0,
            dtype: MRI_INT,
            dof: 0,
            is_ras_good: 0,
            delta: [0, 0, 0],
            mdc_raw: [0, 0, 0, 0, 0, 0, 0, 0, 0],
            p_xyz_c: [0, 0, 0],
        };
        assert(hdr.delta@ =~= Seq::new(3, |i: int| 0u32));
        assert(hdr.mdc_raw@ =~= Seq::new(9, |i: int| 0u32));
        assert(hdr.p_xyz_c@ =~= Seq::new(3, |i: int| 0u32));
        hdr
    }
}

impl FsMghHeader {
    /// Reads an MGH header. The reader stands at the start of the header.
    ///
    /// Fails with [`NeuroformatsError::InvalidFsMghFormat`] where the version
    /// number is not 1, and with an I/O error where the input ends inside
    /// the header.
    pub fn from_reader(input: &mut ByteReader) -> (r: Result<FsMghHeader, NeuroformatsError>)
        ensures
            final(input).went(
                old(input),
                r,
                parse_mgh_header(old(input).contents(), old(input).offset()),
            ),
    {
        let ghost bytes = input.contents();
        let ghost pos = input.offset();
        let _ = input.position();
        let mgh_format_version = input.read_i32()?;
        if mgh_format_version != MGH_VERSION_CODE {
            return Err(NeuroformatsError::InvalidFsMghFormat);
        }
        let dim1len = input.read_i32()?;
        let dim2len = input.read_i32()?;
        let dim3len = input.read_i32()?;
        let dim4len = input.read_i32()?;
        let dtype = input.read_i32()?;
        let dof = input.read_i32()?;
        let is_ras_good = input.read_i16()?;
        let mut hdr = FsMghHeader {
            mgh_format_version,
            dim1len,
            dim2len,
            dim3len,
            dim4len,
            dtype,
            dof,
            is_ras_good,
            delta: [NAN_BITS, NAN_BITS, NAN_BITS],
            mdc_raw: [
                NAN_BITS,
                NAN_BITS,
                NAN_BITS,
                NAN_BITS,
                NAN_BITS,
                NAN_BITS,
                NAN_BITS,
                NAN_BITS,
                NAN_BITS,
            ],
            p_xyz_c: [NAN_BITS, NAN_BITS, NAN_BITS],
        };
        if is_ras_good == 1 {
            let d = input.read_u32s(3)?;
            let m = input.read_u32s(9)?;
            let p = input.read_u32s(3)?;
            hdr.delta = [d[0], d[1], d[2]];
            hdr.mdc_raw = [m[0], m[1], m[2], m[3], m[4], m[5], m[6], m[7], m[8]];
            hdr.p_xyz_c = [p[0], p[1], p[2]];
            assert(hdr.delta@ =~= u32s_at(bytes, pos + 30, 3));
            assert(hdr.mdc_raw@ =~= u32s_at(bytes, pos + 42, 9));
            assert(hdr.p_xyz_c@ =~= u32s_at(bytes, pos + 78, 3));
        } else {
            assert(hdr.delta@ =~= Seq::new(3, |i: int| NAN_BITS));
            assert(hdr.mdc_raw@ =~= Seq::new(9, |i: int| NAN_BITS));
            assert(hdr.p_xyz_c@ =~= Seq::new(3, |i: int| NAN_BITS));
        }
        Ok(hdr)
    }

    /// Reads the header of an MGH or MGZ file from the contents of the file.
    /// A file whose name ends with ".mgz" is decompressed first.
    pub fn from_file(path: &str, contents: Vec<u8>) -> (r: Result<FsMghHeader, NeuroformatsError>)
        ensures
            agrees(
                r,
                match plain_bytes(mgz_name(path@), contents@) {
                    Some(bytes) => parse_mgh_header(bytes, 0).outcome(),
                    None => Err(ErrorKind::Io),
                },
            ),
    {
        let gz = is_mgz_file(path);
        let mut file = open_bytes(gz, contents)?;
        FsMghHeader::from_reader(&mut file)
    }

    /// The four dimensions of the data.
    pub fn dim(&self) -> (d: [usize; 4])
        ensures
            d@ == seq![
                self.dim1len as usize,
                self.dim2len as usize,
                self.dim3len as usize,
                self.dim4len as usize,
            ],
    {
        let d: [usize; 4] = [
            #[verifier::truncate]
            (self.dim1len as usize),
            #[verifier::truncate]
            (self.dim2len as usize),
            #[verifier::truncate]
            (self.dim3len as usize),
            #[verifier::truncate]
            (self.dim4len as usize),
        ];
        assert(d@ =~= seq![
            self.dim1len as usize,
            self.dim2len as usize,
            self.dim3len as usize,
            self.dim4len as usize,
        ]);
        d
    }

    /// The place among the samples of the sample with the four indices, or
    /// `None` where an index is not less than its dimension, or the place is
    /// beyond what a `usize` can count.
    pub fn voxel_index(&self, i: usize, j: usize, k: usize, l: usize) -> (r: Option<usize>)
        ensures
            r == if in_volume(self@, i as int, j as int, k as int, l as int) && voxel_offset(
                self@,
                i as int,
                j as int,
                k as int,
                l as int,
            ) <= usize::MAX {
                Some(voxel_offset(self@, i as int, j as int, k as int, l as int) as usize)
            } else {
                None::<usize>
            },
            r is Some ==> r->Some_0 < voxel_count(self@),
    {
        if self.dim1len <= 0 || self.dim2len <= 0 || self.dim3len <= 0 || self.dim4len <= 0 {
            return None;
        }
        let d1 = self.dim1len as u128;
        let d2 = self.dim2len as u128;
        let d3 = self.dim3len as u128;
        let d4 = self.dim4len as u128;
        let a = i as u128;
        let b = j as u128;
        let c = k as u128;
        let d = l as u128;
        if a >= d1 || b >= d2 || c >= d3 || d >= d4 {
            return None;
        }
        assert(a * d2 + b < d1 * d2 <= 0x4000_0000_0000_0000) by (nonlinear_arith)
            requires
                a < d1 <= 0x8000_0000,
                b < d2 <= 0x8000_0000,
        ;
        let rows = a * d2 + b;
        assert(rows * d3 + c < d1 * d2 * d3 <= 0x2000_0000_0000_0000_0000_0000) by (nonlinear_arith)
            requires
                rows < d1 * d2 <= 0x4000_0000_0000_0000,
                c < d3 <= 0x8000_0000,
        ;
        let slices = rows * d3 + c;
        assert(slices * d4 + d < d1 * d2 * d3 * d4 <= 0x1000_0000_0000_0000_0000_0000_0000_0000)
            by (nonlinear_arith)
            requires
                slices < d1 * d2 * d3 <= 0x2000_0000_0000_0000_0000_0000,
                d < d4 <= 0x8000_0000,
        ;
        let place = slices * d4 + d;
        if place > usize::MAX as u128 {
            None
        } else {
            Some(place as usize)
        }
    }

    /// What the voxel-to-RAS transform is computed from: voxel sizes,
    /// direction cosines and center of the header, and the indices of the
    /// center voxel, which are the halves of the three spatial dimensions.
    ///
    /// Fails with [`NeuroformatsError::NoRasInformationInHeader`] if and only
    /// if the RAS flag of the header is not 1.
    pub fn ras_geometry(&self) -> (r: Result<RasGeometry, NeuroformatsError>)
        ensures
            self.is_ras_good != 1 ==> r is Err && r->Err_0.kind()
                == ErrorKind::NoRasInformationInHeader,
            self.is_ras_good == 1 ==> r is Ok && r->Ok_0.delta == self.delta && r->Ok_0.mdc_raw
                == self.mdc_raw && r->Ok_0.p_xyz_c == self.p_xyz_c && r->Ok_0.p_crs_c@ == seq![
                half(self.dim1len) as i32,
                half(self.dim2len) as i32,
                half(self.dim3len) as i32,
            ],
    {
        if self.is_ras_good != 1 {
            return Err(NeuroformatsError::NoRasInformationInHeader);
        }
        let p_crs_c: [i32; 3] = [self.dim1len / 2, self.dim2len / 2, self.dim3len / 2];
        assert(p_crs_c@ =~= seq![
            half(self.dim1len) as i32,
            half(self.dim2len) as i32,
            half(self.dim3len) as i32,
        ]);
        Ok(
            RasGeometry {
                delta: self.delta,
                mdc_raw: self.mdc_raw,
                p_xyz_c: self.p_xyz_c,
                p_crs_c,
            },
        )
    }
}

/// The bit pattern of the float 1.
pub const ONE_BITS: u32 = 0x3f80_0000;

/// The entry in row `i` and column `j` of the vox2ras matrix that is laid out
/// from the scaled direction cosines `mdc_scaled`, a 3x3 matrix row by row,
/// and from `p_xyz_0`, the RAS coordinates of the first voxel: the upper left
/// 3x3 part is the transpose of the scaled direction cosines, the last column
/// holds the coordinates of the first voxel, and the last row is 0, 0, 0, 1.
pub open spec fn vox2ras_entry(mdc_scaled: Seq<u32>, p_xyz_0: Seq<u32>, i: int, j: int) -> u32 {
    if i < 3 && j < 3 {
        mdc_scaled[3 * j + i]
    } else if i < 3 {
        p_xyz_0[i]
    } else if j < 3 {
        0
    } else {
        ONE_BITS
    }
}

/// Lays out the vox2ras matrix, a 4x4 matrix row by row, from the scaled
/// direction cosines and the RAS coordinates of the first voxel. All floats
/// are bit patterns, and none is computed with.
pub fn vox2ras_layout(mdc_scaled: &[u32; 9], p_xyz_0: &[u32; 3]) -> (m: [u32; 16])
    ensures
        forall|i: int, j: int|
            0 <= i < 4 && 0 <= j < 4 ==> #[trigger] m@[4 * i + j] == vox2ras_entry(
                mdc_scaled@,
                p_xyz_0@,
                i,
                j,
            ),
{
    let m: [u32; 16] = [
        mdc_scaled[0],
        mdc_scaled[3],
        mdc_scaled[6],
        p_xyz_0[0],
        mdc_scaled[1],
        mdc_scaled[4],
        mdc_scaled[7],
        p_xyz_0[1],
        mdc_scaled[2],
        mdc_scaled[5],
        mdc_scaled[8],
        p_xyz_0[2],
        0,
        0,
        0,
        ONE_BITS,
    ];
    assert forall|i: int, j: int| 0 <= i < 4 && 0 <= j < 4 implies #[trigger] m@[4 * i + j]
        == vox2ras_entry(mdc_scaled@, p_xyz_0@, i, j) by {
        if i == 0 {
        } else if i == 1 {
        } else if i == 2 {
        } else {
        }
    }
    m
}

/// The number of samples to read for `hdr`: [`voxel_count`], and the largest
/// `usize` where that is more.
fn samples_to_read(hdr: &FsMghHeader) -> (n: usize)
    ensures
        voxel_count(hdr@) <= usize::MAX ==> n == voxel_count(hdr@),
        voxel_count(hdr@) > usize::MAX ==> n == usize::MAX,
{
    let d1 = hdr.dim1len as i64;
    let d2 = hdr.dim2len as i64;
    let d3 = hdr.dim3len as i64;
    let d4 = hdr.dim4len as i64;
    assert(-0x4000_0000_0000_0000 <= d1 * d2 <= 0x4000_0000_0000_0000) by (nonlinear_arith)
        requires
            -0x8000_0000 <= d1 <= 0x8000_0000,
            -0x8000_0000 <= d2 <= 0x8000_0000,
    ;
    assert(-0x4000_0000_0000_0000 <= d3 * d4 <= 0x4000_0000_0000_0000) by (nonlinear_arith)
        requires
            -0x8000_0000 <= d3 <= 0x8000_0000,
            -0x8000_0000 <= d4 <= 0x8000_0000,
    ;
    let front = (d1 * d2) as i128;
    let back = (d3 * d4) as i128;
    assert(-0x1000_0000_0000_0000_0000_0000_0000_0000 <= front * back
        <= 0x1000_0000_0000_0000_0000_0000_0000_0000) by (nonlinear_arith)
        requires
            -0x4000_0000_0000_0000 <= front <= 0x4000_0000_0000_0000,
            -0x4000_0000_0000_0000 <= back <= 0x4000_0000_0000_0000,
    ;
    let product = front * back;
    assert(product == hdr.dim1len as int * hdr.dim2len as int * hdr.dim3len as int
        * hdr.dim4len as int) by (nonlinear_arith)
        requires
            product == (d1 * d2) * (d3 * d4),
            d1 == hdr.dim1len,
            d2 == hdr.dim2len,
            d3 == hdr.dim3len,
            d4 == hdr.dim4len,
    ;
    if product <= 0 {
        0
    } else if product > usize::MAX as i128 {
        usize::MAX
    } else {
        product as usize
    }
}

impl FsMgh {
    /// Reads an MGH or MGZ file from its contents. A file whose name ends
    /// with ".mgz" is decompressed first.
    ///
    /// Fails as [`FsMghHeader::from_reader`] and [`FsMgh::data_from_reader`]
    /// do, and with an I/O error where the contents of an MGZ file are no
    /// gzip stream.
    pub fn from_file(path: &str, contents: Vec<u8>) -> (r: Result<FsMgh, NeuroformatsError>)
        ensures
            agrees(
                r,
                match plain_bytes(mgz_name(path@), contents@) {
                    Some(bytes) => decode_mgh(bytes),
                    None => Err(ErrorKind::Io),
                },
            ),
    {
        let gz = is_mgz_file(path);
        let mut file = open_bytes(gz, contents)?;
        let header = FsMghHeader::from_reader(&mut file)?;
        file.rewind();
        let data = FsMgh::data_from_reader(&mut file, &header)?;
        Ok(FsMgh { header, data })
    }

    /// Reads the samples of an MGH file. The reader stands at the start of
    /// the file, before the header, which is passed over.
    ///
    /// Fails with [`NeuroformatsError::UnsupportedMriDataTypeInMgh`] where
    /// the data type of the header is none of the four supported ones, and
    /// with an I/O error where the input ends before the last sample.
    pub fn data_from_reader(file: &mut ByteReader, hdr: &FsMghHeader) -> (r: Result<
        FsMghData,
        NeuroformatsError,
    >)
        ensures
            final(file).went(
                old(file),
                r,
                parse_mgh_data(old(file).contents(), old(file).offset(), hdr@),
            ),
    {
        let ghost bytes = file.contents();
        let ghost pos = file.offset();
        let _ = file.position();
        let _header_bytes = file.read_u8s(MGH_DATA_START)?;
        let n = samples_to_read(hdr);
        let _ = file.position();
        if hdr.dtype == MRI_UCHAR {
            let samples = file.read_u8s(n)?;
            Ok(
                FsMghData {
                    mri_uchar: Some(samples),
                    mri_float: None,
                    mri_int: None,
                    mri_short: None,
                },
            )
        } else if hdr.dtype == MRI_INT {
            let samples = file.read_i32s(n)?;
            Ok(
                FsMghData {
                    mri_uchar: None,
                    mri_float: None,
                    mri_int: Some(samples),
                    mri_short: None,
                },
            )
        } else if hdr.dtype == MRI_FLOAT {
            let samples = file.read_u32s(n)?;
            Ok(
                FsMghData {
                    mri_uchar: None,
                    mri_float: Some(samples),
                    mri_int: None,
                    mri_short: None,
                },
            )
        } else if hdr.dtype == MRI_SHORT {
            let samples = file.read_i16s(n)?;
            Ok(
                FsMghData {
                    mri_uchar: None,
                    mri_float: None,
                    mri_int: None,
                    mri_short: Some(samples),
                },
            )
        } else {
            Err(NeuroformatsError::UnsupportedMriDataTypeInMgh)
        }
    }

    /// The four dimensions of the data.
    pub fn dim(&self) -> (d: [usize; 4])
        ensures
            d@ == seq![
                self.header.dim1len as usize,
                self.header.dim2len as usize,
                self.header.dim3len as usize,
                self.header.dim4len as usize,
            ],
    {
        self.header.dim()
    }

    /// What the voxel-to-RAS transform is computed from; see
    /// [`FsMghHeader::ras_geometry`].
    pub fn ras_geometry(&self) -> (r: Result<RasGeometry, NeuroformatsError>)
        ensures
            self.header.is_ras_good != 1 ==> r is Err && r->Err_0.kind()
                == ErrorKind::NoRasInformationInHeader,
            self.header.is_ras_good == 1 ==> r is Ok && r->Ok_0.delta == self.header.delta
                && r->Ok_0.mdc_raw == self.header.mdc_raw && r->Ok_0.p_xyz_c
                == self.header.p_xyz_c && r->Ok_0.p_crs_c@ == seq![
                half(self.header.dim1len) as i32,
                half(self.header.dim2len) as i32,
                half(self.header.dim3len) as i32,
            ],
    {
        self.header.ras_geometry()
    }
}

/// Whether a file of this name is taken to be an MGZ file: whether the final
/// component of the path ends with `.mgz`.
pub open spec fn mgz_name(path: Seq<char>) -> bool {
    match file_name_of(path) {
        Some(name) => ends_with(name, seq!['.', 'm', 'g', 'z']),
        None => false,
    }
}

/// Whether the file name ends with ".mgz".
pub fn is_mgz_file(path: &str) -> (b: bool)
    ensures
        b == mgz_name(path@),
{
    proof {
        reveal_strlit(".mgz");
    }
    match file_name(path) {
        Some(name) => {
            assert(".mgz"@ =~= seq!['.', 'm', 'g', 'z']);
            has_suffix(name.as_str(), ".mgz")
        },
        None => false,
    }
}

/// Reads an MGH or MGZ file from its contents; see [`FsMgh::from_file`].
///
/// The MGH format stores data of up to four dimensions, most often the
/// voxels of a 3D magnetic resonance image. The fourth dimension is by
/// convention the time.
pub fn read_mgh(path: &str, contents: Vec<u8>) -> (r: Result<FsMgh, NeuroformatsError>)
    ensures
        agrees(
            r,
            match plain_bytes(mgz_name(path@), contents@) {
                Some(bytes) => decode_mgh(bytes),
                None => Err(ErrorKind::Io),
            },
        ),
{
    FsMgh::from_file(path, contents)
}

} // verus!
