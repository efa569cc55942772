use print3rs_core::gcode::{GField, GValue};
use print3rs_core::serializer::{Serializer, SharedSerializer};

fn m1234() -> GValue {
    GValue::Named(b"M1234".to_vec())
}

fn g1234() -> GValue {
    let mut buffer = ryu::Buffer::new();
    let y = buffer.format(2.3f32);
    GValue::Record(
        b"G1234".to_vec(),
        vec![
            GField { name: b"x".to_vec(), value: GValue::Int(-1) },
            GField { name: b"y".to_vec(), value: GValue::Text(y.as_bytes().to_vec()) },
        ],
    )
}

#[test]
fn unit_serialize_works() {
    let mut writer = Serializer::default();
    let out = writer.serialize_unsequenced(&m1234());
    let expected: &[u8] = b"M1234\n";
    assert_eq!(out, expected.to_vec());

    let out = writer.serialize(&g1234());
    let expected: &[u8] = b"N1G1234X-1Y2.3*14\n";
    assert_eq!(out.1, expected.to_vec());
}

#[test]
fn counter_advances_line_by_line() {
    let mut writer = Serializer::default();
    let first = writer.serialize(&g1234());
    assert_eq!(first.0, 1);
    assert_eq!(first.1, b"N1G1234X-1Y2.3*14\n".to_vec());
    let second = writer.serialize(&g1234());
    assert_eq!(second.0, 2);
    assert_eq!(second.1, b"N2G1234X-1Y2.3*13\n".to_vec());
    let third = writer.serialize(&g1234());
    assert_eq!(third.0, 3);
    assert_eq!(third.1, b"N3G1234X-1Y2.3*12\n".to_vec());
}

#[test]
fn unsequenced_leaves_counter_alone() {
    let mut writer = Serializer::default();
    let a = writer.serialize_unsequenced(&g1234());
    let b = writer.serialize_unsequenced(&g1234());
    assert_eq!(a, b);
    assert_eq!(a, b"G1234X-1Y2.3\n".to_vec());
    let sequenced = writer.serialize(&g1234());
    assert_eq!(sequenced.0, 1);
}

#[test]
fn set_sequence_takes_effect_next_line() {
    let mut writer = Serializer::new();
    writer.set_sequence(5);
    let out = writer.serialize(&m1234());
    assert_eq!(out.0, 5);
    assert!(out.1.starts_with(b"N5M1234*"));
    let next = writer.serialize(&m1234());
    assert_eq!(next.0, 6);
}

#[test]
fn serialize_into_appends_to_buffer() {
    let mut writer = Serializer::new();
    let mut buffer: Vec<u8> = b"G28\n".to_vec();
    let n = writer.serialize_into(&mut buffer, &g1234());
    assert_eq!(n, 1);
    assert_eq!(buffer, b"G28\nN1G1234X-1Y2.3*14\n".to_vec());
    writer.serialize_unsequenced_into(&mut buffer, &m1234());
    assert_eq!(buffer, b"G28\nN1G1234X-1Y2.3*14\nM1234\n".to_vec());
    let n = writer.serialize_into(&mut buffer, &m1234());
    assert_eq!(n, 2);
}

#[test]
fn shared_counter_spans_clones() {
    let shared = SharedSerializer::new();
    let other = shared.clone();
    let first = shared.serialize(&g1234());
    assert_eq!(first.0, 1);
    assert_eq!(first.1, b"N1G1234X-1Y2.3*14\n".to_vec());
    let second = other.serialize(&g1234());
    assert_eq!(second.0, 2);
    assert_eq!(second.1, b"N2G1234X-1Y2.3*13\n".to_vec());
    let third = shared.serialize(&g1234());
    assert_eq!(third.0, 3);
    assert_eq!(third.1, b"N3G1234X-1Y2.3*12\n".to_vec());
}

#[test]
fn shared_counter_claims_distinct_numbers_concurrently() {
    let runtime = tokio::runtime::Builder::new_current_thread().build().unwrap();
    runtime.block_on(async {
        let shared = SharedSerializer::new();
        let other = shared.clone();
        let a = tokio::spawn(async move { shared.serialize(&g1234()) });
        let b = tokio::spawn(async move { other.serialize(&g1234()) });
        let a = a.await.unwrap();
        let b = b.await.unwrap();
        let mut numbers = vec![a.0, b.0];
        numbers.sort();
        assert_eq!(numbers, vec![1, 2]);
        for out in [a, b] {
            let expected = match out.0 {
                1 => b"N1G1234X-1Y2.3*14\n".to_vec(),
                _ => b"N2G1234X-1Y2.3*13\n".to_vec(),
            };
            assert_eq!(out.1, expected);
        }
    });
}

#[test]
fn shared_set_sequence_resets_counter() {
    let shared = SharedSerializer::default();
    shared.set_sequence(100);
    let out = shared.serialize(&m1234());
    assert_eq!(out.0, 100);
    assert!(out.1.starts_with(b"N100M1234*"));
    let unsequenced = shared.serialize_unsequenced(&m1234());
    assert_eq!(unsequenced, b"M1234\n".to_vec());
    let next = shared.serialize(&m1234());
    assert_eq!(next.0, 101);
}

#[test]
fn counter_wraps_at_the_top() {
    let mut writer = Serializer::new();
    writer.set_sequence(i32::MAX);
    let out = writer.serialize(&m1234());
    assert_eq!(out.0, i32::MAX);
    let next = writer.serialize(&m1234());
    assert_eq!(next.0, i32::MIN);
}
