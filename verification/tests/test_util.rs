use neuroformats::util::{
    is_gz_file, read_fixed_length_string, read_fs_variable_length_string,
    read_nul_terminated_string,
};
use neuroformats::float::{float_is_nan, float_less};
use neuroformats::{vec32minmax, ByteReader, ErrorKind, NeuroformatsError};

#[test]
fn a_variable_length_fs_string_can_be_read() {
    // Create our "file".
    let mut bytes: Vec<u8> = Vec::new();
    bytes.extend_from_slice(b"test\x0A\x0A");
    bytes.extend_from_slice(&[166 as u8]);

    // Start at the beginning.
    let mut c = ByteReader::new(bytes);

    // Re-read the data.
    let s = read_fs_variable_length_string(&mut c).unwrap();
    assert_eq!(6, c.position());
    let out = c.read_to_end();

    assert_eq!(s, "test\n\n");
    assert_eq!(out, &[166]);
    assert_eq!(7, c.position());
}

#[test]
fn a_fixed_length_nul_terminated_string_can_be_read() {
    let mut c = ByteReader::new(b"test\x0A\x0Atest\x00".to_vec());

    let s = read_fixed_length_string(&mut c, 11 as usize).unwrap();
    let out = c.read_to_end();

    assert_eq!(s, "test\n\ntest");
    assert_eq!(out, &[] as &[u8]);
    assert_eq!(11, c.position());
}

#[test]
fn a_fixed_length_without_termination_char_can_be_read() {
    let mut c = ByteReader::new(b"test\x0A\x0Atestdonotreadthis".to_vec());

    let s = read_fixed_length_string(&mut c, 10 as usize).unwrap();

    assert_eq!(s, "test\n\ntest");
    assert_eq!(10, c.position());

    let out: Vec<u8> = c.read_to_end();
    assert_eq!(out, b"donotreadthis");
    assert_eq!(23, c.position());
}

#[test]
fn a_fixed_length_string_keeps_embedded_nul_bytes() {
    let mut c = ByteReader::new(vec![b'a', 0, b'b', 0, b'!']);
    let s = read_fixed_length_string(&mut c, 4).unwrap();
    assert_eq!(s, "a\0b");
    assert_eq!(4, c.position());
}

#[test]
fn a_fixed_length_string_of_length_zero_is_empty() {
    let mut c = ByteReader::new(vec![1, 2, 3]);
    let s = read_fixed_length_string(&mut c, 0).unwrap();
    assert_eq!(s, "");
    assert_eq!(0, c.position());
}

#[test]
fn a_fixed_length_string_fails_on_short_input() {
    let mut c = ByteReader::new(b"abc".to_vec());
    let err = read_fixed_length_string(&mut c, 4).unwrap_err();
    assert_eq!(err.kind(), ErrorKind::Io);
    assert_eq!(3, c.position());
}

#[test]
fn a_variable_length_string_without_double_linefeed_fails() {
    let mut c = ByteReader::new(b"test\x0Atest\x0A".to_vec());
    let err = read_fs_variable_length_string(&mut c).unwrap_err();
    assert_eq!(err.kind(), ErrorKind::Io);
    assert_eq!(10, c.position());
}

#[test]
fn a_variable_length_string_ends_at_the_first_double_linefeed() {
    let mut c = ByteReader::new(b"\x0A\x0A\x0A\x0Arest".to_vec());
    let s = read_fs_variable_length_string(&mut c).unwrap();
    assert_eq!(s, "\n\n");
    assert_eq!(2, c.position());
}

#[test]
fn bytes_above_ascii_become_the_characters_of_their_code() {
    let mut c = ByteReader::new(vec![0xe9, 0x0a, 0x0a]);
    let s = read_fs_variable_length_string(&mut c).unwrap();
    assert_eq!(s, "\u{e9}\n\n");
}

#[test]
fn a_nul_terminated_string_can_be_read() {
    let mut c = ByteReader::new(b"name\x00rest".to_vec());
    let s = read_nul_terminated_string(&mut c).unwrap();
    assert_eq!(s, "name");
    assert_eq!(5, c.position());
    assert_eq!(c.read_to_end(), b"rest");
}

#[test]
fn a_nul_terminated_string_without_nul_fails() {
    let mut c = ByteReader::new(b"name".to_vec());
    let err = read_nul_terminated_string(&mut c).unwrap_err();
    assert_eq!(err.kind(), ErrorKind::Io);
}

#[test]
fn gz_files_are_told_by_their_name() {
    assert_eq!(is_gz_file("example.gz"), true);
    assert_eq!(is_gz_file("example.txt"), false);
    assert_eq!(is_gz_file("some/dir.gz/example.curv"), false);
    assert_eq!(is_gz_file("some/dir/lh.thickness.gz"), true);
    assert_eq!(is_gz_file("gz"), false);
    assert_eq!(is_gz_file(".gz"), true);
    assert_eq!(is_gz_file(""), false);
    assert_eq!(is_gz_file("some/dir.gz/.."), false);
    // The name of the file is the last component of the path.
    assert_eq!(is_gz_file("some/dir/lh.thickness.gz/"), true);
    assert_eq!(is_gz_file("some/dir/lh.thickness.gz/."), true);
}

#[test]
fn the_reader_reads_big_endian_numbers() {
    let mut c = ByteReader::new(vec![0x01, 0xff, 0xfe, 0xff, 0xff, 0xff, 0xfe, 0x3f, 0x80, 0, 0, 7]);
    assert_eq!(c.read_u8().unwrap(), 1);
    assert_eq!(c.read_i16().unwrap(), -2);
    assert_eq!(c.read_i32().unwrap(), -2);
    assert_eq!(c.read_u32().unwrap(), 1.0f32.to_bits());
    assert_eq!(c.remaining(), 1);
    let err = c.read_i16().unwrap_err();
    assert_eq!(err.kind(), ErrorKind::Io);
    assert_eq!(c.position(), 12);
    c.rewind();
    assert_eq!(c.read_i32().unwrap(), 0x01fffeff);
}

fn bits(values: &[f32]) -> Vec<u32> {
    values.iter().map(|v| v.to_bits()).collect()
}

#[test]
fn the_min_and_max_of_an_f32_vector_without_nan_values_can_be_computed() {
    let v: Vec<f32> = vec![0.4, 0.5, 0.9, 0.01];
    let (min, max) = vec32minmax(&bits(&v), true);
    let (min, max) = (f32::from_bits(min), f32::from_bits(max));
    assert!(approx::AbsDiffEq::abs_diff_eq(&min, &0.01, 1e-8));
    assert!(approx::AbsDiffEq::abs_diff_eq(&max, &0.9, 1e-8));
}

#[test]
fn the_min_and_max_of_an_f32_vector_with_nan_values_can_be_computed() {
    let v: Vec<f32> = vec![0.4, 0.5, 0.9, std::f32::NAN, 0.01];
    let (min, max) = vec32minmax(&bits(&v), true);
    let (min, max) = (f32::from_bits(min), f32::from_bits(max));
    assert!(approx::AbsDiffEq::abs_diff_eq(&min, &0.01, 1e-8));
    assert!(approx::AbsDiffEq::abs_diff_eq(&max, &0.9, 1e-8));
}

#[test]
fn the_min_and_max_are_the_first_of_equal_values() {
    let nan = f32::NAN.to_bits();
    assert_eq!(vec32minmax(&bits(&[1.5]), false), (1.5f32.to_bits(), 1.5f32.to_bits()));
    assert_eq!(vec32minmax(&bits(&[0.0, -0.0]), false), (0, 0));
    assert_eq!(vec32minmax(&bits(&[-0.0, 0.0]), false), (0x8000_0000, 0x8000_0000));
    assert_eq!(
        vec32minmax(&[nan, nan, 3.0f32.to_bits(), nan, (-2.0f32).to_bits(), nan], true),
        ((-2.0f32).to_bits(), 3.0f32.to_bits())
    );
    assert_eq!(
        vec32minmax(&bits(&[f32::INFINITY, -1.0, f32::NEG_INFINITY, f32::MAX, 7.0]), false),
        (f32::NEG_INFINITY.to_bits(), f32::INFINITY.to_bits())
    );
    assert_eq!(
        vec32minmax(&bits(&[-1.0, -3.0, -2.0, -3.0]), true),
        ((-3.0f32).to_bits(), (-1.0f32).to_bits())
    );
}

#[test]
fn floats_are_ordered_on_their_bits_as_floats_are() {
    let samples = [
        0.0f32, -0.0, 1.0, -1.0, 1.5, -1.5, 0.01, 0.9, f32::MIN_POSITIVE, -f32::MIN_POSITIVE,
        f32::MAX, f32::MIN, f32::INFINITY, f32::NEG_INFINITY, f32::NAN, -f32::NAN,
        f32::from_bits(0x7f80_0001), f32::from_bits(0xffff_ffff), f32::from_bits(1),
        f32::from_bits(0x8000_0001), 1e-40, -1e-40, 3.4e38, -3.4e38,
    ];
    for a in samples {
        assert_eq!(float_is_nan(a.to_bits()), a.is_nan(), "{}", a);
        for b in samples {
            assert_eq!(float_less(a.to_bits(), b.to_bits()), a < b, "{} {}", a, b);
        }
    }
}

#[test]
fn an_io_error_becomes_an_error_of_the_library() {
    let io = std::io::Error::new(std::io::ErrorKind::NotFound, "no such file");
    let err = NeuroformatsError::from(io);
    assert_eq!(err.kind(), ErrorKind::Io);
    assert_eq!(err.message(), "no such file");
    assert!(matches!(err, NeuroformatsError::Io(_)));
}

#[test]
fn each_error_has_its_kind_and_its_message() {
    let cases = [
        (NeuroformatsError::InvalidCurvFormat, ErrorKind::InvalidCurvFormat, "Invalid Curv file"),
        (
            NeuroformatsError::InvalidFsSurfaceFormat,
            ErrorKind::InvalidFsSurfaceFormat,
            "Invalid FreeSurfer surf file",
        ),
        (
            NeuroformatsError::InvalidFsLabelFormat,
            ErrorKind::InvalidFsLabelFormat,
            "Invalid FreeSurfer label file",
        ),
        (
            NeuroformatsError::InvalidWavefrontObjectFormat,
            ErrorKind::InvalidWavefrontObjectFormat,
            "Invalid Wavefront Object format file or unsupported dialect",
        ),
        (
            NeuroformatsError::UnsupportedFsAnnotFormatVersion,
            ErrorKind::UnsupportedFsAnnotFormatVersion,
            "Unsupported FreeSurfer annot file format version",
        ),
        (
            NeuroformatsError::EmptyWavefrontObjectFile,
            ErrorKind::EmptyWavefrontObjectFile,
            "The Wavefront Object mesh file does not contain a mesh",
        ),
        (
            NeuroformatsError::InvalidFsMghFormat,
            ErrorKind::InvalidFsMghFormat,
            "Invalid FreeSurfer MGH file",
        ),
        (
            NeuroformatsError::UnsupportedMriDataTypeInMgh,
            ErrorKind::UnsupportedMriDataTypeInMgh,
            "Invalid or unsupported MRI_DTYPE",
        ),
        (
            NeuroformatsError::NoRasInformationInHeader,
            ErrorKind::NoRasInformationInHeader,
            "The MGH header does not contain valid RAS information.",
        ),
        (
            NeuroformatsError::VertexColorCountMismatch,
            ErrorKind::VertexColorCountMismatch,
            "The number of vertex colors does not match the number of vertices",
        ),
    ];
    for (err, kind, message) in cases {
        assert_eq!(err.kind(), kind);
        assert_eq!(err.message(), message);
    }
}
