use flate2::write::GzEncoder;
use flate2::Compression;
use ndarray::{Array1, Array2, Array4};
use neuroformats::fs_mgh::{is_mgz_file, vox2ras_layout, MGH_DATA_START, NAN_BITS, ONE_BITS};
use neuroformats::{
    read_mgh, ByteReader, ErrorKind, FsMgh, FsMghHeader, MRI_FLOAT, MRI_INT, MRI_SHORT, MRI_UCHAR,
};
use std::io::Write;

const MGZ_FILE: &str = "resources/subjects_dir/subject1/mri/brain.mgz";
const MGH_FILE: &str = "resources/mgh/tiny.mgh";

fn gzip(bytes: &[u8]) -> Vec<u8> {
    let mut e = GzEncoder::new(Vec::new(), Compression::fast());
    e.write_all(bytes).unwrap();
    e.finish().unwrap()
}

/// The first 284 bytes of an MGH file.
fn header_bytes(dims: [i32; 4], dtype: i32, ras_good: i16, ras: &[f32]) -> Vec<u8> {
    let mut bytes = Vec::new();
    bytes.extend_from_slice(&1i32.to_be_bytes());
    for d in dims {
        bytes.extend_from_slice(&d.to_be_bytes());
    }
    bytes.extend_from_slice(&dtype.to_be_bytes());
    bytes.extend_from_slice(&0i32.to_be_bytes());
    bytes.extend_from_slice(&ras_good.to_be_bytes());
    for v in ras {
        bytes.extend_from_slice(&v.to_be_bytes());
    }
    bytes.resize(MGH_DATA_START, 0);
    bytes
}

const BRAIN_RAS: [f32; 15] = [
    1.0, 1.0, 1.0, -1., 0., 0., 0., 0., -1., 0., 1., 0., -0.49995422, 29.372742, -48.90473,
];

/// A volume of the size of the brain volume of the demo subject, gzipped.
fn demo_mgz_bytes() -> Vec<u8> {
    let mut bytes = header_bytes([256, 256, 256, 1], MRI_UCHAR, 1, &BRAIN_RAS);
    let mut voxels = vec![0u8; 256 * 256 * 256];
    voxels[(99 * 256 + 99) * 256 + 99] = 77;
    voxels[(109 * 256 + 109) * 256 + 109] = 71;
    // Bright voxels, so that all intensities sum up to 121035479.
    for v in voxels[1_000_000..1_474_648].iter_mut() {
        *v = 255;
    }
    voxels[1_474_648] = 91;
    bytes.extend_from_slice(&voxels);
    gzip(&bytes)
}

fn tiny_mgh_bytes() -> Vec<u8> {
    let mut bytes = header_bytes([3, 3, 3, 1], MRI_INT, -1, &[]);
    for v in 0..27i32 {
        bytes.extend_from_slice(&(v - 5).to_be_bytes());
    }
    bytes
}

fn floats(bits: &[u32]) -> Vec<f32> {
    bits.iter().map(|b| f32::from_bits(*b)).collect()
}

fn all_close(a: &[f32], b: &[f32], tol: f32) -> bool {
    a.len() == b.len() && a.iter().zip(b.iter()).all(|(x, y)| (x - y).abs() <= tol)
}

#[test]
fn the_brain_mgz_file_can_be_read() {
    let mgh = read_mgh(MGZ_FILE, demo_mgz_bytes()).unwrap();

    // Test MGH header.
    assert_eq!(mgh.header.dim1len, 256);
    assert_eq!(mgh.header.dim2len, 256);
    assert_eq!(mgh.header.dim3len, 256);
    assert_eq!(mgh.header.dim4len, 1);
    assert_eq!(mgh.header.dtype, MRI_UCHAR);
    assert_eq!(mgh.header.is_ras_good, 1);

    let expected_delta: Vec<f32> = vec![1.0, 1.0, 1.0];
    let expected_mdc: Array2<f32> =
        Array2::from_shape_vec((3, 3), [-1., 0., 0., 0., 0., -1., 0., 1., 0.].to_vec()).unwrap();
    let expected_p_xyz_c: Array1<f32> = Array1::from_vec(vec![-0.49995422, 29.372742, -48.90473]);

    let delta: Vec<f32> = floats(&mgh.header.delta);
    let mdc: Array2<f32> = Array2::from_shape_vec((3, 3), floats(&mgh.header.mdc_raw)).unwrap();
    let p_xyz_c: Array1<f32> = Array1::from_vec(floats(&mgh.header.p_xyz_c));

    assert!(all_close(&delta, &expected_delta, 1e-5));
    assert!(all_close(mdc.as_slice().unwrap(), expected_mdc.as_slice().unwrap(), 1e-5));
    assert!(all_close(p_xyz_c.as_slice().unwrap(), expected_p_xyz_c.as_slice().unwrap(), 1e-5));

    // Test MGH data.
    let dim = mgh.dim();
    let place = mgh.header.voxel_index(99, 99, 99, 0).unwrap();
    let samples = mgh.data.mri_uchar.unwrap();
    assert_eq!(samples[place], 77);
    let data: Array4<u8> = Array4::from_shape_vec((dim[0], dim[1], dim[2], dim[3]), samples).unwrap();
    assert_eq!(data.ndim(), 4);
    assert_eq!(data[[99, 99, 99, 0]], 77); // try on command line: mri_info --voxel 99 99 99 resources/subjects_dir/subject1/mri/brain.mgz
    assert_eq!(data[[109, 109, 109, 0]], 71);
    assert_eq!(data[[0, 0, 0, 0]], 0);

    assert_eq!(data.mapv(|a| a as i32).sum(), 121035479);
}

#[test]
fn the_demo_mgh_file_can_be_read() {
    let mgh = read_mgh(MGH_FILE, tiny_mgh_bytes()).unwrap();

    assert_eq!(mgh.header.dim1len, 3);
    assert_eq!(mgh.header.dim2len, 3);
    assert_eq!(mgh.header.dim3len, 3);
    assert_eq!(mgh.header.dim4len, 1);

    assert_eq!(mgh.dim(), [3 as usize, 3 as usize, 3 as usize, 1 as usize]);
    assert_eq!(mgh.header.dim(), [3 as usize, 3 as usize, 3 as usize, 1 as usize]);

    assert_eq!(mgh.header.is_ras_good, -1);

    // Without valid RAS information the RAS fields are NaN.
    assert_eq!(mgh.header.delta, [NAN_BITS; 3]);
    assert_eq!(mgh.header.mdc_raw, [NAN_BITS; 9]);
    assert_eq!(mgh.header.p_xyz_c, [NAN_BITS; 3]);
    assert!(f32::from_bits(NAN_BITS).is_nan());
    assert_eq!(NAN_BITS, f32::NAN.to_bits());

    assert_eq!(mgh.data.mri_int.unwrap(), (0..27).map(|v| v - 5).collect::<Vec<i32>>());
    assert_eq!(mgh.data.mri_uchar, None);
    assert_eq!(mgh.data.mri_float, None);
    assert_eq!(mgh.data.mri_short, None);
}

#[test]
fn the_data_type_of_the_header_selects_the_samples() {
    let mut uchar = header_bytes([2, 1, 1, 2], 0, 0, &[]);
    uchar.extend_from_slice(&[1, 2, 3, 254, 9]);
    let mgh = read_mgh("a.mgh", uchar).unwrap();
    assert_eq!(mgh.data.mri_uchar, Some(vec![1, 2, 3, 254]));
    assert_eq!(mgh.data.mri_int, None);

    let mut short = header_bytes([1, 2, 1, 1], MRI_SHORT, 0, &[]);
    short.extend_from_slice(&[0xff, 0xfe, 0x01, 0x00]);
    let mgh = read_mgh("a.mgh", short).unwrap();
    assert_eq!(mgh.data.mri_short, Some(vec![-2, 256]));
    assert_eq!(mgh.data.mri_uchar, None);

    let mut float = header_bytes([1, 1, 2, 1], MRI_FLOAT, 0, &[]);
    float.extend_from_slice(&1.5f32.to_be_bytes());
    float.extend_from_slice(&(-0.0f32).to_be_bytes());
    let mgh = read_mgh("a.mgh", float).unwrap();
    assert_eq!(mgh.data.mri_float, Some(vec![1.5f32.to_bits(), 0x8000_0000]));

    let mut int = header_bytes([1, 1, 1, 1], MRI_INT, 0, &[]);
    int.extend_from_slice(&(-3i32).to_be_bytes());
    let mgh = read_mgh("a.mgh", int).unwrap();
    assert_eq!(mgh.data.mri_int, Some(vec![-3]));
}

#[test]
fn an_unknown_data_type_is_not_supported() {
    for dtype in [99, 2, 5, -1] {
        let mut bytes = header_bytes([1, 1, 1, 1], dtype, 0, &[]);
        bytes.extend_from_slice(&[0; 8]);
        let err = read_mgh("a.mgh", bytes.clone()).unwrap_err();
        assert_eq!(err.kind(), ErrorKind::UnsupportedMriDataTypeInMgh);
        assert_eq!(err.message(), "Invalid or unsupported MRI_DTYPE");

        let mut input = ByteReader::new(bytes);
        let header = FsMghHeader::from_reader(&mut input).unwrap();
        assert_eq!(header.dtype, dtype);
        assert_eq!(input.position(), 30);
        input.rewind();
        let err = FsMgh::data_from_reader(&mut input, &header).unwrap_err();
        assert_eq!(err.kind(), ErrorKind::UnsupportedMriDataTypeInMgh);
        assert_eq!(input.position(), 284);
    }
}

#[test]
fn an_mgh_file_of_another_version_is_invalid() {
    let mut bytes = header_bytes([1, 1, 1, 1], 0, 0, &[]);
    bytes[3] = 2;
    bytes.push(0);
    let err = read_mgh("a.mgh", bytes).unwrap_err();
    assert_eq!(err.kind(), ErrorKind::InvalidFsMghFormat);
}

#[test]
fn a_truncated_mgh_file_gives_an_io_error() {
    let whole = tiny_mgh_bytes();
    for cut in [0, 3, 4, 29, 30, 283, 284, 285, whole.len() - 1] {
        let err = read_mgh(MGH_FILE, whole[..cut].to_vec()).unwrap_err();
        assert_eq!(err.kind(), ErrorKind::Io, "cut at {}", cut);
    }
    // With valid RAS information the header is sixty bytes longer.
    let ras = header_bytes([0, 0, 0, 0], 0, 1, &BRAIN_RAS);
    let mut input = ByteReader::new(ras[..89].to_vec());
    assert_eq!(FsMghHeader::from_reader(&mut input).unwrap_err().kind(), ErrorKind::Io);
    let mut input = ByteReader::new(ras[..90].to_vec());
    assert!(FsMghHeader::from_reader(&mut input).is_ok());
    assert_eq!(input.position(), 90);
}

#[test]
fn dimensions_that_are_not_positive_mean_no_samples() {
    let mut bytes = header_bytes([4, 0, 4, 1], MRI_UCHAR, 0, &[]);
    bytes.extend_from_slice(&[1, 2, 3]);
    let mgh = read_mgh("a.mgh", bytes).unwrap();
    assert_eq!(mgh.data.mri_uchar, Some(vec![]));
    assert_eq!(mgh.header.voxel_index(0, 0, 0, 0), None);

    let mut bytes = header_bytes([-4, 1, 1, 1], MRI_UCHAR, 0, &[]);
    bytes.extend_from_slice(&[1, 2, 3]);
    let mgh = read_mgh("a.mgh", bytes).unwrap();
    assert_eq!(mgh.data.mri_uchar, Some(vec![]));

    // More samples than any input can hold.
    let mut bytes = header_bytes([i32::MAX, i32::MAX, i32::MAX, i32::MAX], MRI_UCHAR, 0, &[]);
    bytes.extend_from_slice(&[1, 2, 3]);
    let err = read_mgh("a.mgh", bytes).unwrap_err();
    assert_eq!(err.kind(), ErrorKind::Io);
}

#[test]
fn the_last_index_of_a_voxel_changes_fastest() {
    let header = FsMghHeader {
        dim1len: 2,
        dim2len: 3,
        dim3len: 4,
        dim4len: 5,
        ..FsMghHeader::default()
    };
    assert_eq!(header.voxel_index(0, 0, 0, 0), Some(0));
    assert_eq!(header.voxel_index(0, 0, 0, 1), Some(1));
    assert_eq!(header.voxel_index(0, 0, 1, 0), Some(5));
    assert_eq!(header.voxel_index(0, 1, 0, 0), Some(20));
    assert_eq!(header.voxel_index(1, 0, 0, 0), Some(60));
    assert_eq!(header.voxel_index(1, 2, 3, 4), Some(119));
    assert_eq!(header.voxel_index(2, 0, 0, 0), None);
    assert_eq!(header.voxel_index(0, 3, 0, 0), None);
    assert_eq!(header.voxel_index(0, 0, 4, 0), None);
    assert_eq!(header.voxel_index(0, 0, 0, 5), None);
}

#[test]
fn the_ras_geometry_needs_valid_ras_information() {
    let mgh = read_mgh(MGH_FILE, tiny_mgh_bytes()).unwrap();
    let err = mgh.ras_geometry().unwrap_err();
    assert_eq!(err.kind(), ErrorKind::NoRasInformationInHeader);
    assert_eq!(err.message(), "The MGH header does not contain valid RAS information.");

    for flag in [0i16, -1, 2] {
        let header = FsMghHeader { is_ras_good: flag, ..FsMghHeader::default() };
        let err = header.ras_geometry().unwrap_err();
        assert_eq!(err.kind(), ErrorKind::NoRasInformationInHeader);
    }
}

#[test]
fn the_ras_geometry_holds_the_center_voxel() {
    let mut input = ByteReader::new(header_bytes([256, 255, -7, 1], MRI_UCHAR, 1, &BRAIN_RAS));
    let header = FsMghHeader::from_reader(&mut input).unwrap();
    let geometry = header.ras_geometry().unwrap();
    assert_eq!(geometry.p_crs_c, [128, 127, -3]);
    assert_eq!(floats(&geometry.delta), vec![1.0, 1.0, 1.0]);
    assert_eq!(floats(&geometry.mdc_raw), vec![-1., 0., 0., 0., 0., -1., 0., 1., 0.]);
    assert_eq!(floats(&geometry.p_xyz_c), vec![-0.49995422, 29.372742, -48.90473]);
}

#[test]
fn the_default_mgh_header_is_that_of_an_empty_volume() {
    let header = FsMghHeader::default();
    assert_eq!(header.mgh_format_version, 1);
    assert_eq!(header.dim(), [0, 0, 0, 0]);
    assert_eq!(header.dtype, MRI_INT);
    assert_eq!(header.dof, 0);
    assert_eq!(header.is_ras_good, 0);
    assert_eq!(floats(&header.delta), vec![0.0; 3]);
    assert_eq!(floats(&header.mdc_raw), vec![0.0; 9]);
    assert_eq!(floats(&header.p_xyz_c), vec![0.0; 3]);
}

#[test]
fn mgz_files_are_told_by_their_name() {
    assert_eq!(is_mgz_file("brain.mgz"), true);
    assert_eq!(is_mgz_file("mri/brain.mgz"), true);
    assert_eq!(is_mgz_file("brain.mgh"), false);
    assert_eq!(is_mgz_file("brain.gz"), false);
    assert_eq!(is_mgz_file("mri.mgz/brain.mgh"), false);

    let plain = tiny_mgh_bytes();
    let packed = gzip(&plain);
    let mgh = read_mgh("tiny.mgz", packed.clone()).unwrap();
    assert_eq!(mgh, read_mgh(MGH_FILE, plain.clone()).unwrap());
    assert_eq!(FsMghHeader::from_file("tiny.mgz", packed.clone()).unwrap(), mgh.header);
    assert_eq!(read_mgh("tiny.mgh", packed).unwrap_err().kind(), ErrorKind::InvalidFsMghFormat);
    assert_eq!(read_mgh("tiny.mgz", plain).unwrap_err().kind(), ErrorKind::Io);
}

#[test]
fn the_vox2ras_matrix_is_laid_out_row_by_row() {
    let scaled: [u32; 9] = [11, 12, 13, 21, 22, 23, 31, 32, 33];
    let first_voxel: [u32; 3] = [1, 2, 3];
    let m = vox2ras_layout(&scaled, &first_voxel);
    assert_eq!(m, [11, 21, 31, 1, 12, 22, 32, 2, 13, 23, 33, 3, 0, 0, 0, ONE_BITS]);
    assert_eq!(f32::from_bits(ONE_BITS), 1.0);
    assert_eq!(f32::from_bits(m[12]), 0.0);
}

#[test]
fn the_vox2ras_matrix_can_be_computed() {
    let mgh = read_mgh(MGZ_FILE, demo_mgz_bytes()).unwrap();

    // The terms of the matrix come from the header.
    let geometry = mgh.header.ras_geometry().unwrap();
    assert_eq!(geometry.p_crs_c, [128, 128, 128]);

    // The float arithmetic of the matrix, done here with ndarray.
    let delta = floats(&geometry.delta);
    let mdc = Array2::from_shape_vec((3, 3), floats(&geometry.mdc_raw)).unwrap();
    let d = Array2::from_diag(&Array1::from_vec(delta));
    let mdc_scaled = mdc.dot(&d);
    let p_crs_c = Array1::from_vec(geometry.p_crs_c.iter().map(|c| *c as f32).collect());
    let p_xyz_c = Array1::from_vec(floats(&geometry.p_xyz_c));
    let p_xyz_0 = &p_xyz_c - &mdc_scaled.t().dot(&p_crs_c);

    // Test vox2ras computation
    let scaled_bits: Vec<u32> = mdc_scaled.iter().map(|v| v.to_bits()).collect();
    let scaled_bits: [u32; 9] = scaled_bits.try_into().unwrap();
    let first_bits = [p_xyz_0[0].to_bits(), p_xyz_0[1].to_bits(), p_xyz_0[2].to_bits()];
    let layout = vox2ras_layout(&scaled_bits, &first_bits);
    let vox2ras = Array2::from_shape_vec((4, 4), floats(&layout)).unwrap();
    assert_eq!(vox2ras.len(), 16);

    let expected_vox2ras_ar: Vec<f32> = [
        -1., 0., 0., 0., 0., 0., -1., 0., 0., 1., 0., 0., 127.5, -98.6273, 79.0953, 1.,
    ]
    .to_vec();
    let expected_vox2ras =
        Array2::from_shape_vec((4, 4), expected_vox2ras_ar).unwrap().t().into_owned();
    assert!(all_close(
        vox2ras.as_slice().unwrap(),
        expected_vox2ras.as_standard_layout().as_slice().unwrap(),
        1e-2
    ));

    // Example: Use the vox2ras matrix to compute the RAS coords for voxel at indices (32, 32, 32).
    let my_voxel_ijk: Array1<f32> = Array1::from_vec([32.0, 32.0, 32.0, 1.0].to_vec()); // the 4th value in the vector is for homogenous coordinates.
    let my_voxel_ras = vox2ras.dot(&my_voxel_ijk);

    let expected_voxel_ras: Vec<f32> = vec![95.500046, -66.62726, 47.09527, 1.0];
    assert!(all_close(&my_voxel_ras.to_vec(), &expected_voxel_ras, 1e-2));

    // The matrix takes the center voxel to the center that the header holds.
    let center = Array1::from_vec(vec![128.0f32, 128.0, 128.0, 1.0]);
    let ras = vox2ras.dot(&center);
    assert!(all_close(&ras.to_vec()[..3], &floats(&geometry.p_xyz_c), 1e-2));
}
