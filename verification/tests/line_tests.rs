use print3rs_core::gcode::{render_body, GField, GValue};
use print3rs_core::line::{check_line, serialize_sequenced_at, serialize_unsequenced_value, GcodeLineWriter};

fn g1234() -> GValue {
    let mut buffer = ryu::Buffer::new();
    let y = buffer.format(2.3f32);
    GValue::Record(
        b"G1234".to_vec(),
        vec![
            GField { name: b"x".to_vec(), value: GValue::Int(-1) },
            GField { name: b"y".to_vec(), value: GValue::Text(y.as_bytes().to_vec()) },
        ],
    )
}

#[test]
fn renders_every_primitive() {
    assert_eq!(render_body(&GValue::Bool(true)), b"1".to_vec());
    assert_eq!(render_body(&GValue::Bool(false)), b"0".to_vec());
    assert_eq!(render_body(&GValue::Int(-42)), b"-42".to_vec());
    assert_eq!(render_body(&GValue::Int(i64::MIN)), b"-9223372036854775808".to_vec());
    assert_eq!(render_body(&GValue::Uint(18446744073709551615)), b"18446744073709551615".to_vec());
    assert_eq!(render_body(&GValue::Uint(0)), b"0".to_vec());
    assert_eq!(render_body(&GValue::Text(b"hello *\n".to_vec())), b"hello *\n".to_vec());
    assert_eq!(render_body(&GValue::Empty), Vec::<u8>::new());
    assert_eq!(render_body(&GValue::Named(b"M115".to_vec())), b"M115".to_vec());
}

#[test]
fn renders_records_and_lists() {
    assert_eq!(render_body(&g1234()), b"G1234X-1Y2.3".to_vec());
    let nested = GValue::List(vec![
        GValue::Named(b"G1".to_vec()),
        GValue::Record(
            Vec::new(),
            vec![GField { name: b"feed".to_vec(), value: GValue::Uint(1200) }],
        ),
    ]);
    assert_eq!(render_body(&nested), b"G1F1200".to_vec());
    assert_eq!(render_body(&GValue::List(Vec::new())), Vec::<u8>::new());
}

#[test]
fn sequenced_lines_carry_matching_checksums() {
    let line1 = serialize_sequenced_at(&g1234(), 1);
    assert_eq!(line1, b"N1G1234X-1Y2.3*14\n".to_vec());
    let line2 = serialize_sequenced_at(&g1234(), 2);
    assert_eq!(line2, b"N2G1234X-1Y2.3*13\n".to_vec());
    let line3 = serialize_sequenced_at(&g1234(), 3);
    assert_eq!(line3, b"N3G1234X-1Y2.3*12\n".to_vec());
    assert!(check_line(&line1));
    assert!(check_line(&line2));
    assert!(check_line(&line3));
}

#[test]
fn check_line_rejects_tampering() {
    let mut line = serialize_sequenced_at(&g1234(), 1);
    line[3] ^= 0x01;
    assert!(!check_line(&line));
    assert!(!check_line(&b"no star here\n".to_vec()));
    assert!(!check_line(&b"missing newline*14".to_vec()));
    assert!(!check_line(&b"empty digits*\n".to_vec()));
    assert!(!check_line(&Vec::new()));
}

#[test]
fn unsequenced_body_sits_inside_sequenced_line() {
    let body = render_body(&g1234());
    let unsequenced = serialize_unsequenced_value(&g1234());
    let mut expected = body.clone();
    expected.push(b'\n');
    assert_eq!(unsequenced, expected);
    let sequenced = serialize_sequenced_at(&g1234(), 17);
    let prefix_len = "N17".len();
    assert_eq!(&sequenced[prefix_len..prefix_len + body.len()], body.as_slice());
    assert_eq!(*sequenced.last().unwrap(), b'\n');
}

#[test]
fn line_writer_tracks_checksum_incrementally() {
    let mut writer = GcodeLineWriter::new();
    writer.write(b"N1G1234");
    writer.write(b"X-1Y2.3");
    assert_eq!(writer.buffer, b"N1G1234X-1Y2.3".to_vec());
    assert_eq!(writer.checksum, 14);
    let mut fold_only = GcodeLineWriter::new();
    fold_only.checksum(b"N1G1234X-1Y2.3");
    assert_eq!(fold_only.buffer, Vec::<u8>::new());
    assert_eq!(fold_only.checksum, 14);
}
