use iec61850::iec61850::data::{
    floating_point_bits, floating_point_bytes, from_integer_to_i32, from_unsigned_to_u32, le_u32,
    low_32_bits, reverse_byte, signed, Bitstring, Iec61850Data, Iec61850DataError, Timestamp,
};
use time::format_description::well_known::Rfc3339;
use time::OffsetDateTime;

fn timestamp(date_time: OffsetDateTime) -> Timestamp {
    Timestamp { seconds: date_time.unix_timestamp(), nanoseconds: date_time.nanosecond() }
}

#[test]
fn test_from_utc_time_to_offset_date_time() {
    let utc_time = [0, 0, 0, 0, 0, 0, 0, 0];
    let offset_date_time = Timestamp::from_utc_time(&utc_time).unwrap();
    assert_eq!(offset_date_time, timestamp(OffsetDateTime::from_unix_timestamp(0).unwrap()));
}

#[test]
fn test_from_bitstring_to_bit_string() {
    let bs: Vec<bool> = [0, 1, 1, 1, 1, 0, 1, 1, 1, 0].iter().map(|b| *b == 1).collect();
    let bitstring = Bitstring::from_bits(&bs, 16);
    let bit_string = bitstring.to_bits();
    assert_eq!(bs, bit_string);
}

#[test]
fn test_from_bitstring_to_bit_string_single_byte() {
    let bs: Vec<bool> = [0, 1, 0, 0, 1, 1].iter().map(|b| *b == 1).collect();
    let bitstring = Bitstring::from_bits(&bs, 8);
    let bit_string = bitstring.to_bits();
    assert_eq!(bs, bit_string);
}

#[test]
fn test_from_offset_date_time_to_binary_time() {
    // January 15, 2024 14:30:45.123 UTC
    let offset_date_time =
        OffsetDateTime::from_unix_timestamp_nanos(1_705_329_045_123_000_000).unwrap();
    let binary_time = vec![0x03, 0x1D, 0x32, 0x83, 0x39, 0x20];

    let from_binary_time = Timestamp::from_binary_time(&binary_time).unwrap();
    let from_offsetdatetime = timestamp(offset_date_time).to_binary_time();

    assert_eq!(binary_time, from_offsetdatetime);
    assert_eq!(timestamp(offset_date_time), from_binary_time);
}

#[test]
fn test_from_binary_time_to_offset_date_time() {
    let binary_time = [0x03, 0x1b, 0xce, 0xc6, 0x3b, 0xbd];
    let offset_date_time = Timestamp::from_binary_time(&binary_time).unwrap();
    assert_eq!(
        offset_date_time,
        timestamp(OffsetDateTime::parse("2025-11-14T14:29:14.054Z", &Rfc3339).unwrap())
    );
}

#[test]
fn bits_are_packed_least_significant_first() {
    let bs: Vec<bool> = [0, 1, 1, 1, 1, 0, 1, 1, 1, 0].iter().map(|b| *b == 1).collect();
    let packed = Bitstring::from_bits(&bs, 16);
    assert_eq!(packed, Bitstring { bytes: vec![0xDE, 0x01], padding: 6 });
    assert_eq!(Bitstring::from_bits(&[], 0), Bitstring { bytes: vec![], padding: 0 });
    assert_eq!(Bitstring::from_bits(&[true; 8], 8), Bitstring { bytes: vec![0xFF], padding: 0 });
    assert_eq!(
        Bitstring::from_bits(&[true; 9], 300),
        Bitstring { bytes: vec![0xFF, 0x01], padding: (291 % 256) as u8 }
    );
    assert_eq!(
        Bitstring { bytes: vec![0x32], padding: 2 }.to_bits(),
        vec![false, true, false, false, true, true]
    );
    assert_eq!(Bitstring { bytes: vec![0x01], padding: 8 }.to_bits(), Vec::<bool>::new());
    assert_eq!(reverse_byte(0x4C), 0x32);
    assert_eq!(reverse_byte(0x01), 0x80);
    for byte in 0..=255u8 {
        assert_eq!(reverse_byte(byte), byte.reverse_bits());
    }
}

#[test]
fn binary_time_of_four_bytes_counts_from_the_unix_epoch() {
    assert_eq!(
        Timestamp::from_binary_time(&[0x00, 0x00, 0x03, 0xE9]),
        Ok(Timestamp { seconds: 1, nanoseconds: 1_000_000 })
    );
    assert_eq!(
        Timestamp::from_binary_time(&[0x00, 0x00, 0x03, 0xE9, 0x00]),
        Ok(Timestamp { seconds: 1, nanoseconds: 1_000_000 })
    );
    assert_eq!(
        Timestamp::from_binary_time(&[0, 0, 0, 0, 0, 0]),
        Ok(Timestamp { seconds: 441_763_200, nanoseconds: 0 })
    );
    assert_eq!(
        Timestamp::from_binary_time(&[0xff, 0xff, 0xff, 0xff, 0xff, 0xff]),
        Ok(Timestamp {
            seconds: (65535 * 86_400_000i64 + 441_763_200_000 + 4_294_967_295) / 1000,
            nanoseconds: 295_000_000
        })
    );
    assert_eq!(Timestamp::from_binary_time(&[0, 0, 0]), Err(Iec61850DataError::MissingData));
    assert_eq!(Timestamp::from_binary_time(&[]), Err(Iec61850DataError::MissingData));
}

#[test]
fn binary_time_before_1984_is_the_start_of_1984() {
    let early = Timestamp { seconds: 0, nanoseconds: 999_000_000 };
    assert_eq!(early.to_binary_time(), vec![0, 0, 0, 0, 0, 0]);
    let at = Timestamp { seconds: 441_763_200, nanoseconds: 1_000_000 };
    assert_eq!(at.to_binary_time(), vec![0, 0, 0, 1, 0, 0]);
    let next_day = Timestamp { seconds: 441_763_200 + 86_400, nanoseconds: 0 };
    assert_eq!(next_day.to_binary_time(), vec![0, 0, 0, 0, 0, 1]);
    assert_eq!(at.millisecond(), 1);
}

#[test]
fn utc_time_bytes() {
    assert_eq!(
        Timestamp::from_utc_time(&[1, 0, 0, 0, 0, 0, 0, 0]),
        Ok(Timestamp { seconds: 1000, nanoseconds: 0 })
    );
    assert_eq!(
        Timestamp::from_utc_time(&[0, 0, 0, 0, 0x89, 0x41, 0x00, 0xff]),
        Ok(Timestamp { seconds: (0x41_8900 / 16777), nanoseconds: 0 })
    );
    assert_eq!(
        Timestamp::from_utc_time(&[0xff, 0xff, 0xff, 0xff, 0, 0, 0x80, 0]),
        Ok(Timestamp { seconds: -1000 - 128_001, nanoseconds: 0 })
    );
    assert_eq!(
        Timestamp::from_utc_time(&[0xff, 0xff, 0xff, 0x7f, 0, 0, 0, 0]),
        Err(Iec61850DataError::InvalidTimestamp)
    );
    assert_eq!(
        Timestamp::from_utc_time(&[0x00, 0x00, 0x00, 0x80, 0, 0, 0, 0]),
        Err(Iec61850DataError::InvalidTimestamp)
    );
    let time = Timestamp { seconds: 0x0102_0304, nanoseconds: 500_000_000 };
    let fraction = 500u32 * 16777 + 108;
    assert_eq!(
        time.to_utc_time(),
        [
            0x04,
            0x03,
            0x02,
            0x01,
            (fraction % 256) as u8,
            (fraction / 256 % 256) as u8,
            (fraction / 65536) as u8,
            0
        ]
    );
    let early = Timestamp { seconds: -1, nanoseconds: 0 };
    assert_eq!(early.to_utc_time(), [0xff, 0xff, 0xff, 0xff, 0, 0, 0, 0]);
}

#[test]
fn range_of_timestamps() {
    // 253402300799 is the last second of the year 9999.
    assert_eq!(
        Timestamp::from_utc_time(&[0xBC, 0x9C, 0x1A, 0x0F, 0, 0, 0, 0]),
        Ok(Timestamp { seconds: 253_402_300_000, nanoseconds: 0 })
    );
    assert_eq!(
        Timestamp::from_utc_time(&[0xBC, 0x9C, 0x1A, 0x0F, 0x8B, 0xCC, 0x00, 0]),
        Ok(Timestamp { seconds: 253_402_300_799, nanoseconds: 0 })
    );
    assert_eq!(
        Timestamp::from_utc_time(&[0xBC, 0x9C, 0x1A, 0x0F, 0xCD, 0xCC, 0x00, 0]),
        Err(Iec61850DataError::InvalidTimestamp)
    );
    assert_eq!(
        Timestamp::from_utc_time(&[0xBD, 0x9C, 0x1A, 0x0F, 0, 0, 0, 0]),
        Err(Iec61850DataError::InvalidTimestamp)
    );
    // -377705116800 is the first second of the year -9999.
    assert_eq!(
        Timestamp::from_utc_time(&[0x64, 0xAD, 0x7C, 0xE9, 0, 0, 0, 0]),
        Ok(Timestamp { seconds: -377_705_116_000, nanoseconds: 0 })
    );
    assert_eq!(
        Timestamp::from_utc_time(&[0x63, 0xAD, 0x7C, 0xE9, 0, 0, 0, 0]),
        Err(Iec61850DataError::InvalidTimestamp)
    );
}

#[test]
fn numbers() {
    assert_eq!(le_u32(0x78, 0x56, 0x34, 0x12), 0x1234_5678);
    assert_eq!(signed(0xffff_ffff), -1);
    assert_eq!(signed(0x7fff_ffff), 0x7fff_ffff);
    assert_eq!(signed(0x8000_0000), -0x8000_0000);
    assert_eq!(low_32_bits(-1), 0xffff_ffff);
    assert_eq!(low_32_bits(0x1_0000_0005), 5);
    assert_eq!(low_32_bits(i64::MIN), 0);
    assert_eq!(from_integer_to_i32(-5), Ok(-5));
    assert_eq!(from_integer_to_i32(i32::MAX as i128), Ok(i32::MAX));
    assert_eq!(from_integer_to_i32(i32::MAX as i128 + 1), Err(Iec61850DataError::InvalidData));
    assert_eq!(from_integer_to_i32(i32::MIN as i128 - 1), Err(Iec61850DataError::InvalidData));
    assert_eq!(from_unsigned_to_u32(0), Ok(0));
    assert_eq!(from_unsigned_to_u32(u32::MAX as i128), Ok(u32::MAX));
    assert_eq!(from_unsigned_to_u32(-1), Err(Iec61850DataError::InvalidData));
    assert_eq!(from_unsigned_to_u32(u32::MAX as i128 + 1), Err(Iec61850DataError::InvalidData));
}

#[test]
fn floating_point_numbers_as_bits() {
    let bits = 1.5f32.to_bits();
    let bytes = floating_point_bytes(bits);
    assert_eq!(bytes, vec![0, 0x00, 0x00, 0xC0, 0x3F]);
    assert_eq!(floating_point_bits(&bytes), Ok(bits));
    assert_eq!(f32::from_bits(floating_point_bits(&[8, 0, 0, 0x80, 0xBF]).unwrap()), -1.0);
    assert_eq!(floating_point_bits(&[1, 2, 3, 4]), Ok(0x0403_0201));
    assert_eq!(floating_point_bits(&[1, 2, 3]), Err(Iec61850DataError::InvalidData));
}

#[test]
fn typed_values_come_out_of_data() {
    assert_eq!(bool::try_from(Iec61850Data::Bool(true)), Ok(true));
    assert_eq!(bool::try_from(Iec61850Data::Unsigned(1)), Err(Iec61850DataError::InvalidData));
    assert_eq!(u32::try_from(Iec61850Data::Unsigned(9)), Ok(9));
    assert_eq!(u32::try_from(Iec61850Data::Integer(9)), Err(Iec61850DataError::InvalidData));
    assert_eq!(i32::try_from(Iec61850Data::Integer(-9)), Ok(-9));
    assert_eq!(i32::try_from(Iec61850Data::Unsigned(9)), Err(Iec61850DataError::InvalidData));
    assert_eq!(Vec::<u8>::try_from(Iec61850Data::OctetString(vec![1])), Ok(vec![1]));
    assert_eq!(
        Vec::<u8>::try_from(Iec61850Data::Bool(true)),
        Err(Iec61850DataError::InvalidData)
    );
    let bits = Bitstring { bytes: vec![1], padding: 0 };
    assert_eq!(Bitstring::try_from(Iec61850Data::BitString(bits.clone())), Ok(bits));
    assert_eq!(
        Bitstring::try_from(Iec61850Data::OctetString(vec![1])),
        Err(Iec61850DataError::InvalidData)
    );
    assert_eq!(String::try_from(Iec61850Data::String("a".to_owned())), Ok("a".to_owned()));
    assert_eq!(String::try_from(Iec61850Data::MMSString("b".to_owned())), Ok("b".to_owned()));
    assert_eq!(String::try_from(Iec61850Data::Bool(true)), Err(Iec61850DataError::InvalidData));
    let time = Timestamp { seconds: 5, nanoseconds: 6 };
    assert_eq!(Timestamp::try_from(Iec61850Data::UtcTime(time)), Ok(time));
    assert_eq!(Timestamp::try_from(Iec61850Data::BinaryTime(time)), Ok(time));
    assert_eq!(
        Timestamp::try_from(Iec61850Data::Integer(5)),
        Err(Iec61850DataError::InvalidData)
    );
    assert_eq!(Iec61850Data::FloatingPoint(7).into_floating_point(), Ok(7));
    assert_eq!(
        Iec61850Data::Unsigned(7).into_floating_point(),
        Err(Iec61850DataError::InvalidData)
    );
    assert_eq!(
        Iec61850Data::Array(vec![Iec61850Data::Structure(vec![])]).into_floating_point(),
        Err(Iec61850DataError::InvalidData)
    );
}
