use protobuf::rt::bytes_size;
use protobuf::rt::compute_raw_varint32_size;
use protobuf::rt::compute_raw_varint64_size;
use protobuf::rt::int32_size;
use protobuf::rt::int64_size;
use protobuf::rt::sint32_size;
use protobuf::rt::sint64_size;
use protobuf::rt::string_size;
use protobuf::rt::tag_size;
use protobuf::rt::uint32_size;
use protobuf::rt::uint64_size;
use protobuf::rt::value_varint_zigzag_size_no_tag;
use protobuf::rt::ProtobufVarint;
use protobuf::rt::ProtobufVarintZigzag;

#[test]
fn varint64_size_at_boundaries() {
    assert_eq!(compute_raw_varint64_size(0), 1);
    assert_eq!(compute_raw_varint64_size(127), 1);
    assert_eq!(compute_raw_varint64_size(128), 2);
    assert_eq!(compute_raw_varint64_size(16383), 2);
    assert_eq!(compute_raw_varint64_size(16384), 3);
    assert_eq!(compute_raw_varint64_size((1 << 63) - 1), 9);
    assert_eq!(compute_raw_varint64_size(1 << 63), 10);
    assert_eq!(compute_raw_varint64_size(u64::MAX), 10);
}

#[test]
fn varint32_size_at_most_five() {
    assert_eq!(compute_raw_varint32_size(0), 1);
    assert_eq!(compute_raw_varint32_size(300), 2);
    assert_eq!(compute_raw_varint32_size((1 << 28) - 1), 4);
    assert_eq!(compute_raw_varint32_size(1 << 28), 5);
    assert_eq!(compute_raw_varint32_size(u32::MAX), 5);
}

#[test]
fn varint_size_is_monotonic_on_samples() {
    let mut prev = 0;
    for shift in 0..64 {
        let v: u64 = 1 << shift;
        let s = compute_raw_varint64_size(v);
        assert!(s >= prev);
        assert!(1 <= s && s <= 10);
        prev = s;
    }
}

#[test]
fn tag_sizes() {
    assert_eq!(tag_size(1), 1);
    assert_eq!(tag_size(15), 1);
    assert_eq!(tag_size(16), 2);
    assert_eq!(tag_size(2047), 2);
    assert_eq!(tag_size(2048), 3);
    assert_eq!(tag_size(536_870_911), 5);
}

#[test]
fn tag_size_does_not_depend_on_wire_type() {
    for field_number in [1u32, 15, 16, 2047, 2048, 262_143, 262_144, 536_870_911] {
        for wire_type in 0u64..8 {
            let tag = ((field_number as u64) << 3) | wire_type;
            assert_eq!(compute_raw_varint64_size(tag), tag_size(field_number));
        }
    }
}

#[test]
fn len_varint_of_each_type() {
    assert_eq!(300u64.len_varint(), 2);
    assert_eq!(300u32.len_varint(), 2);
    assert_eq!(300i64.len_varint(), 2);
    assert_eq!(300i32.len_varint(), 2);
    assert_eq!((-1i64).len_varint(), 10);
    assert_eq!((-1i32).len_varint(), 10);
    assert_eq!(i32::MIN.len_varint(), 10);
    assert_eq!(true.len_varint(), 1);
    assert_eq!(false.len_varint(), 1);
}

#[test]
fn negative_int32_is_sign_extended() {
    assert_eq!(int32_size(1, -1), 11);
    assert_eq!(int32_size(1, -1), int64_size(1, -1));
    assert_eq!(int32_size(1, i32::MIN), int64_size(1, i32::MIN as i64));
    assert_eq!(int32_size(1, 1), 2);
    assert_eq!(int64_size(16, 150), 4);
}

#[test]
fn unsigned_sizes() {
    assert_eq!(uint32_size(1, u32::MAX), 6);
    assert_eq!(uint64_size(1, u64::MAX), 11);
    assert_eq!(uint64_size(1, 0), 2);
}

#[test]
fn zigzag_sizes() {
    assert_eq!((-1i32).len_varint_zigzag(), 1);
    assert_eq!(0i32.len_varint_zigzag(), 1);
    assert_eq!((-64i32).len_varint_zigzag(), 1);
    assert_eq!(63i32.len_varint_zigzag(), 1);
    assert_eq!(64i32.len_varint_zigzag(), 2);
    assert_eq!((-65i32).len_varint_zigzag(), 2);
    assert_eq!(i32::MIN.len_varint_zigzag(), 5);
    assert_eq!(i32::MAX.len_varint_zigzag(), 5);
    assert_eq!(i64::MIN.len_varint_zigzag(), 10);
    assert_eq!(i64::MAX.len_varint_zigzag(), 10);
    assert_eq!(value_varint_zigzag_size_no_tag(-1i64), 1);
    assert_eq!(sint32_size(1, -1), 2);
    assert_eq!(sint32_size(1, 64), 3);
    assert_eq!(sint64_size(1, i64::MIN), 11);
}

#[test]
fn length_delimited_sizes() {
    assert_eq!(bytes_size(1, &[]), 2);
    assert_eq!(bytes_size(1, &[0u8; 127]), 129);
    assert_eq!(bytes_size(1, &[0u8; 200]), 203);
    assert_eq!(string_size(2, "hello"), 7);
    // `é` takes two bytes in UTF-8
    assert_eq!(string_size(2, "h\u{e9}llo"), 8);
}
