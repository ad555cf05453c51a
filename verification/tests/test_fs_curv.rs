use flate2::write::GzEncoder;
use flate2::Compression;
use neuroformats::fs_curv::CURV_MAGIC_CODE_U8;
use neuroformats::{read_curv, write_curv, ByteReader, ErrorKind, FsCurv, FsCurvHeader};
use std::io::Write;

const CURV_FILE: &str = "resources/subjects_dir/subject1/surf/lh.thickness";

/// Per-vertex data of the size of the left hemisphere of the demo subject:
/// thickness values from 0 to 5 mm.
fn demo_curv() -> FsCurv {
    let data: Vec<u32> = (0..149244u32)
        .map(|v| ((v % 501) as f32 / 100.0).to_bits())
        .collect();
    FsCurv {
        header: FsCurvHeader {
            curv_magic: [255; 3],
            num_vertices: 149244,
            num_faces: 298484,
            num_values_per_vertex: 1,
        },
        data,
    }
}

fn floats(bits: &[u32]) -> Vec<f32> {
    bits.iter().map(|b| f32::from_bits(*b)).collect()
}

fn min_max(values: &[f32]) -> (f32, f32) {
    let mut min = values[0];
    let mut max = values[0];
    for v in values {
        if *v < min {
            min = *v;
        } else if *v > max {
            max = *v;
        }
    }
    (min, max)
}

fn gzip(bytes: &[u8]) -> Vec<u8> {
    let mut e = GzEncoder::new(Vec::new(), Compression::fast());
    e.write_all(bytes).unwrap();
    e.finish().unwrap()
}

#[test]
fn the_demo_curv_file_can_be_read() {
    let curv = read_curv(CURV_FILE, write_curv(&demo_curv())).unwrap();

    assert_eq!(149244, curv.header.num_vertices);
    assert_eq!(298484, curv.header.num_faces);
    assert_eq!(1, curv.header.num_values_per_vertex);
    assert_eq!(149244, curv.data.len());

    let (min, max) = min_max(&floats(&curv.data));
    assert!(approx::AbsDiffEq::abs_diff_eq(&0.0f32, &min, 1e-10));
    assert!(approx::AbsDiffEq::abs_diff_eq(&5.0f32, &max, 1e-10));
}

#[test]
fn a_curv_file_can_be_written_and_reread() {
    let curv = read_curv(CURV_FILE, write_curv(&demo_curv())).unwrap();

    let tfile_path = "temp-curv-file.curv";
    let written = write_curv(&curv);

    let curv_re = read_curv(tfile_path, written).unwrap();

    assert_eq!(149244, curv_re.header.num_vertices);
    assert_eq!(298484, curv_re.header.num_faces);
    assert_eq!(1, curv_re.header.num_values_per_vertex);
    assert_eq!(149244, curv_re.data.len());

    let (min, max) = min_max(&floats(&curv_re.data));
    assert!(approx::AbsDiffEq::abs_diff_eq(&0.0f32, &min, 1e-10));
    assert!(approx::AbsDiffEq::abs_diff_eq(&5.0f32, &max, 1e-10));

    assert_eq!(curv_re, curv);
}

#[test]
fn a_curv_file_is_written_byte_by_byte() {
    let curv = FsCurv {
        header: FsCurvHeader {
            curv_magic: [1, 2, 3],
            num_vertices: 2,
            num_faces: -2,
            num_values_per_vertex: 1,
        },
        data: vec![1.0f32.to_bits(), (-2.5f32).to_bits()],
    };
    assert_eq!(
        write_curv(&curv),
        vec![
            255, 255, 255, 0, 0, 0, 2, 0xff, 0xff, 0xff, 0xfe, 0, 0, 0, 1, 0x3f, 0x80, 0, 0, 0xc0,
            0x20, 0, 0
        ]
    );
}

#[test]
fn a_curv_file_is_read_byte_by_byte() {
    let bytes = vec![
        255, 255, 255, 0, 0, 0, 2, 0, 0, 0, 7, 0, 0, 0, 1, 0x3f, 0x80, 0, 0, 0x7f, 0xc0, 0, 1, 9,
    ];
    let curv = read_curv("lh.curv", bytes).unwrap();
    assert_eq!(curv.header.curv_magic, [CURV_MAGIC_CODE_U8; 3]);
    assert_eq!(curv.header.num_vertices, 2);
    assert_eq!(curv.header.num_faces, 7);
    assert_eq!(curv.header.num_values_per_vertex, 1);
    // The values come out bit by bit, a NaN with its payload too.
    assert_eq!(curv.data, vec![0x3f800000, 0x7fc00001]);
    assert_eq!(f32::from_bits(curv.data[0]), 1.0);
    assert!(f32::from_bits(curv.data[1]).is_nan());
}

#[test]
fn a_gzipped_curv_file_is_told_by_its_name() {
    let plain = write_curv(&demo_curv());
    let packed = gzip(&plain);
    assert!(packed.len() < plain.len());

    let curv = read_curv("surf/lh.thickness.gz", packed.clone()).unwrap();
    assert_eq!(curv, demo_curv());
    let header = FsCurvHeader::from_file("surf/lh.thickness.gz", packed.clone()).unwrap();
    assert_eq!(header, demo_curv().header);

    // Under another name the same bytes are no curv file.
    let err = read_curv("surf/lh.thickness", packed).unwrap_err();
    assert_eq!(err.kind(), ErrorKind::InvalidCurvFormat);

    // And a plain file under a ".gz" name is no gzip stream.
    let err = read_curv("surf/lh.thickness.gz", plain).unwrap_err();
    assert_eq!(err.kind(), ErrorKind::Io);
}

#[test]
fn a_curv_file_with_a_wrong_magic_number_is_invalid() {
    let mut bytes = write_curv(&demo_curv());
    bytes[2] = 254;
    let err = read_curv(CURV_FILE, bytes).unwrap_err();
    assert_eq!(err.kind(), ErrorKind::InvalidCurvFormat);
    assert_eq!(err.message(), "Invalid Curv file");

    // The magic number is looked at before the rest of the header is read.
    let mut input = ByteReader::new(vec![255, 0, 255]);
    let err = FsCurvHeader::from_reader(&mut input).unwrap_err();
    assert_eq!(err.kind(), ErrorKind::InvalidCurvFormat);
    assert_eq!(input.position(), 3);
}

#[test]
fn a_truncated_curv_file_gives_an_io_error() {
    let whole = vec![255, 255, 255, 0, 0, 0, 2, 0, 0, 0, 7, 0, 0, 0, 1, 0, 0, 0, 1, 0, 0, 0, 2];
    for cut in 0..whole.len() {
        let err = read_curv("lh.curv", whole[..cut].to_vec()).unwrap_err();
        assert_eq!(err.kind(), ErrorKind::Io, "cut at {}", cut);
    }
    assert_eq!(read_curv("lh.curv", whole).unwrap().data, vec![1, 2]);
}

#[test]
fn a_negative_number_of_vertices_means_no_values() {
    let bytes = vec![255, 255, 255, 0xff, 0xff, 0xff, 0xff, 0, 0, 0, 7, 0, 0, 0, 1, 1, 2, 3, 4];
    let curv = read_curv("lh.curv", bytes).unwrap();
    assert_eq!(curv.header.num_vertices, -1);
    assert_eq!(curv.data.len(), 0);
    // Written and read again it is the same.
    let again = read_curv("lh.curv", write_curv(&curv)).unwrap();
    assert_eq!(again, curv);
}

#[test]
fn values_behind_the_stated_number_are_not_read() {
    let bytes = vec![255, 255, 255, 0, 0, 0, 1, 0, 0, 0, 7, 0, 0, 0, 1, 0, 0, 0, 1, 0, 0, 0, 2];
    let mut input = ByteReader::new(bytes);
    let header = FsCurvHeader::from_reader(&mut input).unwrap();
    assert_eq!(input.position(), 15);
    input.rewind();
    let data = FsCurv::curv_data_from_reader(&mut input, &header).unwrap();
    assert_eq!(data, vec![1]);
    assert_eq!(input.position(), 19);
}

#[test]
fn the_default_curv_header_is_that_of_an_empty_file() {
    let header = FsCurvHeader::default();
    assert_eq!(header.curv_magic, [255, 255, 255]);
    assert_eq!(header.num_vertices, 0);
    assert_eq!(header.num_faces, 0);
    assert_eq!(header.num_values_per_vertex, 1);
}
