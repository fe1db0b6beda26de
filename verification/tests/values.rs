use mem_storage::encoding::{decode_le, encode_le, swap_bytes, MAX_WIDTH};
use mem_storage::memory::{decode_view, encode_view};
use mem_storage::Value;

#[test]
fn to_le_keeps_the_value() {
    assert_eq!(Value::to_le(0x1234u16), 0x1234);
    assert_eq!(Value::to_le(-5i64), -5);
    assert_eq!(Value::to_le(u128::MAX), u128::MAX);
}

#[test]
fn to_be_reverses_the_bytes() {
    assert_eq!(Value::to_be(0x12u8), 0x12);
    assert_eq!(Value::to_be(-3i8), -3);
    assert_eq!(Value::to_be(0x1234u16), 0x3412);
    assert_eq!(Value::to_be(0x0102i16), 0x0201);
    assert_eq!(Value::to_be(-2i16), i16::from_be_bytes((-2i16).to_le_bytes()));
    assert_eq!(Value::to_be(0x1122_3344u32), 0x4433_2211);
    assert_eq!(Value::to_be(1i32), 0x0100_0000);
    assert_eq!(Value::to_be(i32::MIN), 0x80);
    assert_eq!(Value::to_be(0x0123_4567_89AB_CDEFu64), 0xEFCD_AB89_6745_2301);
    assert_eq!(Value::to_be(-256i64), 0x00FF_FFFF_FFFF_FFFF);
    assert_eq!(
        Value::to_be(0x0011_2233_4455_6677_8899_AABB_CCDD_EEFFu128),
        0xFFEE_DDCC_BBAA_9988_7766_5544_3322_1100
    );
    assert_eq!(Value::to_be(i128::MIN), 0x80);
}

#[test]
fn to_be_twice_gives_the_value_back() {
    assert_eq!(Value::to_be(Value::to_be(0xBEEFu16)), 0xBEEF);
    assert_eq!(Value::to_be(Value::to_be(-123_456i32)), -123_456);
    assert_eq!(Value::to_be(Value::to_be(i64::MIN + 77)), i64::MIN + 77);
    assert_eq!(Value::to_be(Value::to_be(u128::MAX / 3)), u128::MAX / 3);
    assert_eq!(Value::to_be(Value::to_be(i128::MIN + 1)), i128::MIN + 1);
}

#[test]
fn bit_pattern_of_unsigned_is_the_value() {
    assert_eq!(Value::to_bits(0xA5u8), 0xA5);
    assert_eq!(Value::to_bits(u16::MAX), 0xFFFF);
    assert_eq!(Value::to_bits(7u32), 7);
    assert_eq!(Value::to_bits(u64::MAX), 0xFFFF_FFFF_FFFF_FFFF);
    assert_eq!(Value::to_bits(u128::MAX), u128::MAX);
    assert_eq!(<u8 as Value>::from_bits(0xA5), 0xA5);
    assert_eq!(<u16 as Value>::from_bits(0xFFFF), u16::MAX);
    assert_eq!(<u32 as Value>::from_bits(7), 7);
    assert_eq!(<u64 as Value>::from_bits(0xFFFF_FFFF_FFFF_FFFF), u64::MAX);
    assert_eq!(<u128 as Value>::from_bits(u128::MAX), u128::MAX);
}

#[test]
fn bit_pattern_of_signed_is_twos_complement() {
    assert_eq!(Value::to_bits(-1i8), 0xFF);
    assert_eq!(Value::to_bits(i8::MIN), 0x80);
    assert_eq!(Value::to_bits(i8::MAX), 0x7F);
    assert_eq!(Value::to_bits(-2i16), 0xFFFE);
    assert_eq!(Value::to_bits(i32::MIN), 0x8000_0000);
    assert_eq!(Value::to_bits(-1i64), 0xFFFF_FFFF_FFFF_FFFF);
    assert_eq!(Value::to_bits(5i64), 5);
    assert_eq!(Value::to_bits(-1i128), u128::MAX);
    assert_eq!(Value::to_bits(i128::MIN), 1u128 << 127);
    assert_eq!(Value::to_bits(i128::MAX), (1u128 << 127) - 1);

    assert_eq!(<i8 as Value>::from_bits(0xFF), -1);
    assert_eq!(<i8 as Value>::from_bits(0x80), i8::MIN);
    assert_eq!(<i8 as Value>::from_bits(0x7F), i8::MAX);
    assert_eq!(<i16 as Value>::from_bits(0xFFFE), -2);
    assert_eq!(<i32 as Value>::from_bits(0x8000_0000), i32::MIN);
    assert_eq!(<i64 as Value>::from_bits(0xFFFF_FFFF_FFFF_FFFF), -1);
    assert_eq!(<i64 as Value>::from_bits(5), 5);
    assert_eq!(<i128 as Value>::from_bits(u128::MAX), -1);
    assert_eq!(<i128 as Value>::from_bits(1u128 << 127), i128::MIN);
    assert_eq!(<i128 as Value>::from_bits((1u128 << 127) - 1), i128::MAX);
}

#[test]
fn decode_le_reads_least_significant_byte_first() {
    assert_eq!(decode_le(&[]), 0);
    assert_eq!(decode_le(&[0x2A]), 0x2A);
    assert_eq!(decode_le(&[0xCD, 0xAB, 0x00, 0x00]), 0xABCD);
    assert_eq!(decode_le(&[0x00, 0x00, 0x01]), 0x01_0000);
    assert_eq!(decode_le(&[0xFF; 16]), u128::MAX);
    let bytes: Vec<u8> = (1..=16).collect();
    assert_eq!(bytes.len(), MAX_WIDTH);
    assert_eq!(decode_le(&bytes), 0x100F_0E0D_0C0B_0A09_0807_0605_0403_0201);
}

#[test]
fn encode_le_writes_least_significant_byte_first() {
    let mut four = [0x55u8; 4];
    encode_le(0xDDFF_EEAA, &mut four);
    assert_eq!(four, [0xAA, 0xEE, 0xFF, 0xDD]);

    let mut two = [0x55u8; 2];
    encode_le(0x0003_0201, &mut two);
    assert_eq!(two, [0x01, 0x02]);

    let mut none: [u8; 0] = [];
    encode_le(7, &mut none);
    assert_eq!(none, []);

    let mut sixteen = [0u8; 16];
    encode_le(0x100F_0E0D_0C0B_0A09_0807_0605_0403_0201, &mut sixteen);
    assert_eq!(sixteen, [1, 2, 3, 4, 5, 6, 7, 8, 9, 10, 11, 12, 13, 14, 15, 16]);
}

#[test]
fn swap_bytes_reverses_within_the_width() {
    assert_eq!(swap_bytes(0x12, 1), 0x12);
    assert_eq!(swap_bytes(0x1234, 2), 0x3412);
    assert_eq!(swap_bytes(0x0000_0001, 4), 0x0100_0000);
    assert_eq!(swap_bytes(0x1122_3344, 4), 0x4433_2211);
    assert_eq!(swap_bytes(0xAB, 0), 0);
    assert_eq!(swap_bytes(0x1122_3344, 2), 0x4433);
    assert_eq!(swap_bytes(1, 16), 1u128 << 120);
    assert_eq!(swap_bytes(0x0123_4567_89AB_CDEF, 8), 0xEFCD_AB89_6745_2301);
}

#[test]
fn decode_view_decodes_or_hands_the_error_on() {
    let bytes = [0xFE, 0xFF];
    assert_eq!(decode_view::<i16, &str>(Ok(&bytes)), Ok(-2));
    assert_eq!(decode_view::<u16, &str>(Ok(&bytes)), Ok(0xFFFE));
    assert_eq!(decode_view::<u16, &str>(Err("no such range")), Err("no such range"));
    assert_eq!(decode_view::<u128, u32>(Err(17)), Err(17));
}

#[test]
fn encode_view_fills_or_hands_the_error_on() {
    let mut bytes = [0u8; 4];
    assert_eq!(encode_view::<i32, &str>(Ok(&mut bytes), -2), Ok(()));
    assert_eq!(bytes, [0xFE, 0xFF, 0xFF, 0xFF]);
    assert_eq!(encode_view::<i32, &str>(Err("no such range"), -2), Err("no such range"));
    assert_eq!(encode_view::<u8, u32>(Err(17), 1), Err(17));
}
