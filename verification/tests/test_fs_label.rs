use neuroformats::float::floats_equal;
use neuroformats::fs_label::parse_decimal_i32;
use neuroformats::{read_label, ErrorKind, FsLabel, FsLabelText};

const LABEL_FILE: &str = "resources/subjects_dir/subject1/label/lh.entorhinal_exvivo.label";

/// The text of a label with `declared` in its header and `lines` entries.
fn label_text(declared: i32, lines: usize) -> Vec<u8> {
    let mut text = format!("#!ascii label  , from subject {} vox2ras=TkReg\n{}\n", LABEL_FILE, declared);
    for i in 0..lines {
        let vertex = 88792 + 3 * i;
        let x = -13.0 - (i % 40) as f32 * 0.25;
        let y = -5.0 + (i % 7) as f32 * 0.5;
        let z = -24.0 - (i % 11) as f32 * 0.125;
        let value = (i % 5) as f32 * 0.2;
        text.push_str(&format!("{}  {:.3}  {:.3}  {:.3} {:.10}\n", vertex, x, y, z, value));
    }
    text.into_bytes()
}

fn bits(column: &[Vec<u8>]) -> Vec<u32> {
    column
        .iter()
        .map(|t| std::str::from_utf8(t).unwrap().parse::<f32>().unwrap().to_bits())
        .collect()
}

fn as_label(text: &FsLabelText) -> FsLabel {
    FsLabel::from_columns(
        text.vertex_index.clone(),
        bits(&text.coord1),
        bits(&text.coord2),
        bits(&text.coord3),
        bits(&text.value),
    )
    .unwrap()
}

fn label_of_values(values: &[f32]) -> FsLabel {
    let n = values.len();
    FsLabel {
        vertex_index: (0..n as i32).collect(),
        coord1: vec![0; n],
        coord2: vec![0; n],
        coord3: vec![0; n],
        value: values.iter().map(|v| v.to_bits()).collect(),
    }
}

#[test]
fn the_demo_surface_label_file_can_be_read() {
    let label = read_label(&label_text(1085, 1085)).unwrap();

    let expected_vertex_count: usize = 1085;
    assert_eq!(expected_vertex_count, label.vertex_index.len());
    assert_eq!(expected_vertex_count, label.coord1.len());
    assert_eq!(expected_vertex_count, label.coord2.len());
    assert_eq!(expected_vertex_count, label.coord3.len());
    assert_eq!(expected_vertex_count, label.value.len());
}

#[test]
fn the_label_utility_functions_work() {
    let label = as_label(&read_label(&label_text(1085, 1085)).unwrap());

    let num_surface_verts: usize = 160_000;
    let label_mask = label.is_surface_vertex_in_label(num_surface_verts);
    assert_eq!(num_surface_verts, label_mask.len());

    let surface_data = label.as_surface_data(num_surface_verts, f32::NAN.to_bits());
    assert_eq!(num_surface_verts, surface_data.len());

    assert_eq!(false, label.is_binary());
}

#[test]
fn a_label_with_fewer_lines_than_declared_is_malformed() {
    let err = read_label(&label_text(1085, 1084)).unwrap_err();
    assert_eq!(err.kind(), ErrorKind::InvalidFsLabelFormat);
    assert_eq!(err.message(), "Invalid FreeSurfer label file");

    let err = read_label(&label_text(1085, 1086)).unwrap_err();
    assert_eq!(err.kind(), ErrorKind::InvalidFsLabelFormat);
    let err = read_label(&label_text(-1, 0)).unwrap_err();
    assert_eq!(err.kind(), ErrorKind::InvalidFsLabelFormat);
    assert!(read_label(&label_text(0, 0)).is_ok());
}

#[test]
fn the_fields_of_a_label_line_are_split_at_whitespace() {
    let text = b"# a comment with 5 words\n3\n7 1.5 -2 3e2 0.25\n  8\t1\x0b2\x0c3   4   and more \n-9 a b c d\r\n";
    let label = read_label(text).unwrap();
    assert_eq!(label.vertex_index, vec![7, 8, -9]);
    assert_eq!(label.coord1, vec![b"1.5".to_vec(), b"1".to_vec(), b"a".to_vec()]);
    assert_eq!(label.coord2, vec![b"-2".to_vec(), b"2".to_vec(), b"b".to_vec()]);
    assert_eq!(label.coord3, vec![b"3e2".to_vec(), b"3".to_vec(), b"c".to_vec()]);
    assert_eq!(label.value, vec![b"0.25".to_vec(), b"4".to_vec(), b"d".to_vec()]);
}

#[test]
fn the_last_line_of_a_label_needs_no_line_feed() {
    let label = read_label(b"#\n2\n1 0 0 0 0\n2 0 0 0 0.5").unwrap();
    assert_eq!(label.vertex_index, vec![1, 2]);
    assert_eq!(label.value[1], b"0.5");
    // A carriage return without a line feed behind it belongs to the line.
    let label = read_label(b"#\n1\n1 0 0 0 0.5\r").unwrap();
    assert_eq!(label.value[0], b"0.5");
    let label = read_label(b"#\n1\n1 0 0 0 5\rx").unwrap();
    assert_eq!(label.value[0], b"5");
    // The header line is taken as it is.
    let label = read_label(b"#\r\n+1\r\n1 0 0 0 0.5\r\n").unwrap();
    assert_eq!(label.vertex_index, vec![1]);
}

#[test]
fn a_label_without_header_is_empty() {
    assert_eq!(read_label(b"").unwrap().vertex_index.len(), 0);
    assert_eq!(read_label(b"# only a comment").unwrap().vertex_index.len(), 0);
    assert_eq!(read_label(b"\n").unwrap().vertex_index.len(), 0);
    assert_eq!(read_label(b"#\n0").unwrap().vertex_index.len(), 0);
}

#[test]
fn malformed_label_lines_are_rejected() {
    for text in [
        &b"#\nmany\n"[..],
        b"#\n1 \n1 0 0 0 0\n",
        b"#\n\n",
        b"#\n1\n1 0 0 0\n",
        b"#\n1\n\n",
        b"#\n2\n1 0 0 0 0\n\n",
        b"#\n1\n1.0 0 0 0 0\n",
        b"#\n1\nx 0 0 0 0\n",
        b"#\n1\n99999999999 0 0 0 0\n",
        b"#\n1\n1 0 0 0 0\n\n",
    ] {
        let err = read_label(text).unwrap_err();
        assert_eq!(err.kind(), ErrorKind::InvalidFsLabelFormat);
    }
}

#[test]
fn decimal_numbers_are_read_as_the_standard_library_reads_them() {
    for text in [
        "0", "7", "-7", "+7", "0007", "-0", "+0", "2147483647", "-2147483648", "2147483648",
        "-2147483649", "00000000000000000000002147483647", "99999999999999999999999999", "", "-",
        "+", "--1", "+-1", "1-", "1 ", " 1", "1.0", "0x10", "1e3", "١", "12a", "a12",
        "4294967296", "4294967297", "-4294967296", "42949672960", "-00000000000000000000000",
    ] {
        assert_eq!(parse_decimal_i32(text.as_bytes()), text.parse::<i32>().ok(), "{:?}", text);
    }
}

#[test]
fn the_columns_of_a_label_must_be_of_one_length() {
    let label = FsLabel::from_columns(vec![1, 2], vec![3, 4], vec![5, 6], vec![7, 8], vec![9, 10]).unwrap();
    assert_eq!(label.vertex_index, vec![1, 2]);
    assert_eq!(label.coord1, vec![3, 4]);
    assert_eq!(label.coord2, vec![5, 6]);
    assert_eq!(label.coord3, vec![7, 8]);
    assert_eq!(label.value, vec![9, 10]);
    let err = FsLabel::from_columns(vec![1, 2], vec![3, 4], vec![5, 6], vec![7, 8], vec![9]).unwrap_err();
    assert_eq!(err.kind(), ErrorKind::InvalidFsLabelFormat);
    let err = FsLabel::from_columns(vec![1], vec![3, 4], vec![5, 6], vec![7, 8], vec![9, 10]).unwrap_err();
    assert_eq!(err.kind(), ErrorKind::InvalidFsLabelFormat);
    assert!(FsLabel::from_columns(vec![], vec![], vec![], vec![], vec![]).is_ok());
}

#[test]
fn a_label_is_binary_if_all_its_values_are_equal() {
    assert_eq!(label_of_values(&[0.0]).is_binary(), true);
    assert_eq!(label_of_values(&[0.0, 0.0, 0.0]).is_binary(), true);
    assert_eq!(label_of_values(&[1.5, 1.5]).is_binary(), true);
    assert_eq!(label_of_values(&[1.5, 1.5, 1.25]).is_binary(), false);
    assert_eq!(label_of_values(&[1.25, 1.5, 1.5]).is_binary(), false);
    // Zero equals zero, of whatever sign.
    assert_eq!(label_of_values(&[0.0, -0.0]).is_binary(), true);
    // A NaN equals nothing, itself included.
    assert_eq!(label_of_values(&[f32::NAN]).is_binary(), true);
    assert_eq!(label_of_values(&[f32::NAN, f32::NAN]).is_binary(), false);
    assert_eq!(label_of_values(&[1.0, f32::NAN]).is_binary(), false);
    assert_eq!(label_of_values(&[f32::INFINITY, f32::INFINITY]).is_binary(), true);
}

#[test]
fn floats_are_equal_on_their_bits_as_floats_are() {
    let samples = [
        0.0f32, -0.0, 1.0, -1.0, 1.5, f32::MIN_POSITIVE, -f32::MIN_POSITIVE, f32::MAX, f32::MIN,
        f32::INFINITY, f32::NEG_INFINITY, f32::NAN, -f32::NAN, f32::from_bits(0x7f80_0001),
        f32::from_bits(0xffff_ffff), f32::from_bits(1), f32::from_bits(0x8000_0001),
    ];
    for a in samples {
        for b in samples {
            assert_eq!(floats_equal(a.to_bits(), b.to_bits()), a == b, "{} {}", a, b);
        }
    }
}

#[test]
fn the_mask_of_a_label_is_set_at_its_vertices() {
    let label = FsLabel {
        vertex_index: vec![4, 0, 4],
        coord1: vec![0; 3],
        coord2: vec![0; 3],
        coord3: vec![0; 3],
        value: vec![10, 20, 30],
    };
    assert_eq!(label.is_surface_vertex_in_label(6), vec![true, false, false, false, true, false]);
    assert_eq!(label.is_surface_vertex_in_label(5), vec![true, false, false, false, true]);
    // Where two entries name one vertex, the later one counts.
    assert_eq!(label.as_surface_data(6, 7), vec![20, 7, 7, 7, 30, 7]);
    assert_eq!(label_of_values(&[]).as_surface_data(2, 7), vec![7, 7]);
    assert_eq!(label_of_values(&[]).is_surface_vertex_in_label(0), Vec::<bool>::new());
}
