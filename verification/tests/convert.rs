use iec61850::iec61850::convert::MmsData;
use iec61850::iec61850::data::{Bitstring, Iec61850Data, Iec61850DataError, Timestamp};

fn bits(text: &str) -> Vec<bool> {
    text.chars().filter(|c| *c != ' ').map(|c| c == '1').collect()
}

#[test]
fn mms_data_becomes_typed_data() {
    let value = MmsData::Structure(vec![
        MmsData::Bool(true),
        MmsData::Array(vec![MmsData::Integer(-5), MmsData::Integer(6)]),
        MmsData::BitString(bits("0111 1011 10")),
        MmsData::Unsigned(7),
        MmsData::FloatingPoint(vec![8, 0x00, 0x00, 0xC0, 0x3F]),
        MmsData::OctetString(vec![1, 2]),
        MmsData::VisibleString("abc".to_owned()),
        MmsData::BinaryTime(vec![0x03, 0x1D, 0x32, 0x83, 0x39, 0x20]),
        MmsData::MmsString("def".to_owned()),
        MmsData::UtcTime([2, 0, 0, 0, 0, 0, 0, 0]),
    ]);
    assert_eq!(
        Iec61850Data::from_mms(value),
        Ok(Iec61850Data::Structure(vec![
            Iec61850Data::Bool(true),
            Iec61850Data::Array(vec![Iec61850Data::Integer(-5), Iec61850Data::Integer(6)]),
            Iec61850Data::BitString(Bitstring { bytes: vec![0xDE, 0x01], padding: 6 }),
            Iec61850Data::Unsigned(7),
            Iec61850Data::FloatingPoint(1.5f32.to_bits()),
            Iec61850Data::OctetString(vec![1, 2]),
            Iec61850Data::String("abc".to_owned()),
            Iec61850Data::BinaryTime(Timestamp {
                seconds: 1_705_329_045,
                nanoseconds: 123_000_000
            }),
            Iec61850Data::MMSString("def".to_owned()),
            Iec61850Data::UtcTime(Timestamp { seconds: 2000, nanoseconds: 0 }),
        ]))
    );
}

#[test]
fn the_first_value_that_cannot_be_converted_names_the_error() {
    let value = MmsData::Array(vec![
        MmsData::Bool(true),
        MmsData::Structure(vec![MmsData::BinaryTime(vec![1, 2, 3])]),
        MmsData::Integer(i128::MAX),
    ]);
    assert_eq!(Iec61850Data::from_mms(value), Err(Iec61850DataError::MissingData));
    assert_eq!(
        Iec61850Data::from_mms(MmsData::Integer(i32::MAX as i128 + 1)),
        Err(Iec61850DataError::InvalidData)
    );
    assert_eq!(
        Iec61850Data::from_mms(MmsData::Unsigned(-1)),
        Err(Iec61850DataError::InvalidData)
    );
    assert_eq!(
        Iec61850Data::from_mms(MmsData::FloatingPoint(vec![1, 2, 3])),
        Err(Iec61850DataError::InvalidData)
    );
    assert_eq!(
        Iec61850Data::from_mms(MmsData::UtcTime([0xff, 0xff, 0xff, 0x7f, 0, 0, 0, 0])),
        Err(Iec61850DataError::InvalidTimestamp)
    );
    assert_eq!(Iec61850Data::from_mms(MmsData::Array(vec![])), Ok(Iec61850Data::Array(vec![])));
    assert_eq!(
        Iec61850Data::from_mms(MmsData::BitString(vec![])),
        Ok(Iec61850Data::BitString(Bitstring { bytes: vec![], padding: 0 }))
    );
    assert_eq!(
        Iec61850Data::from_mms(MmsData::BitString(bits("1000 0000"))),
        Ok(Iec61850Data::BitString(Bitstring { bytes: vec![0x01], padding: 0 }))
    );
}

#[test]
fn typed_data_becomes_mms_data() {
    let value = Iec61850Data::Array(vec![
        Iec61850Data::Bool(false),
        Iec61850Data::Structure(vec![Iec61850Data::Integer(-1), Iec61850Data::Unsigned(1)]),
        Iec61850Data::BitString(Bitstring { bytes: vec![0xDE, 0x01], padding: 6 }),
        Iec61850Data::FloatingPoint(1.5f32.to_bits()),
        Iec61850Data::OctetString(vec![9]),
        Iec61850Data::String("abc".to_owned()),
        Iec61850Data::BinaryTime(Timestamp { seconds: 1_705_329_045, nanoseconds: 123_000_000 }),
        Iec61850Data::MMSString("".to_owned()),
        Iec61850Data::UtcTime(Timestamp { seconds: 1, nanoseconds: 0 }),
    ]);
    assert_eq!(
        value.to_mms(),
        Ok(MmsData::Array(vec![
            MmsData::Bool(false),
            MmsData::Structure(vec![MmsData::Integer(-1), MmsData::Unsigned(1)]),
            MmsData::BitString(bits("0111 1011 10")),
            MmsData::FloatingPoint(vec![0, 0x00, 0x00, 0xC0, 0x3F]),
            MmsData::OctetString(vec![9]),
            MmsData::VisibleString("abc".to_owned()),
            MmsData::BinaryTime(vec![0x03, 0x1D, 0x32, 0x83, 0x39, 0x20]),
            MmsData::MmsString("".to_owned()),
            MmsData::UtcTime([1, 0, 0, 0, 0, 0, 0, 0]),
        ]))
    );
}

#[test]
fn typed_data_that_has_no_mms_form() {
    assert_eq!(
        Iec61850Data::String("tab\t".to_owned()).to_mms(),
        Err(Iec61850DataError::InvalidStringConversion)
    );
    assert_eq!(
        Iec61850Data::MMSString("é".to_owned()).to_mms(),
        Err(Iec61850DataError::InvalidStringConversion)
    );
    assert_eq!(
        Iec61850Data::BitString(Bitstring { bytes: vec![1], padding: 9 }).to_mms(),
        Err(Iec61850DataError::InvalidData)
    );
    assert_eq!(
        Iec61850Data::BitString(Bitstring { bytes: vec![1], padding: 8 }).to_mms(),
        Ok(MmsData::BitString(vec![]))
    );
    assert_eq!(
        Iec61850Data::UtcTime(Timestamp { seconds: 0, nanoseconds: 1_000_000_000 }).to_mms(),
        Err(Iec61850DataError::InvalidTimestamp)
    );
    assert_eq!(
        Iec61850Data::BinaryTime(Timestamp { seconds: i64::MAX, nanoseconds: 0 }).to_mms(),
        Err(Iec61850DataError::InvalidTimestamp)
    );
    assert_eq!(
        Iec61850Data::Structure(vec![
            Iec61850Data::Bool(true),
            Iec61850Data::Array(vec![Iec61850Data::String("\n".to_owned())]),
            Iec61850Data::UtcTime(Timestamp { seconds: 0, nanoseconds: u32::MAX }),
        ])
        .to_mms(),
        Err(Iec61850DataError::InvalidStringConversion)
    );
}

#[test]
fn conversion_there_and_back() {
    let value = MmsData::Structure(vec![
        MmsData::Bool(true),
        MmsData::BitString(bits("1010 1")),
        MmsData::Integer(-7),
        MmsData::VisibleString("x y".to_owned()),
        MmsData::BinaryTime(vec![0x03, 0x1D, 0x32, 0x83, 0x39, 0x20]),
    ]);
    let there = Iec61850Data::from_mms(value).unwrap();
    let back = there.to_mms().unwrap();
    assert_eq!(
        back,
        MmsData::Structure(vec![
            MmsData::Bool(true),
            MmsData::BitString(bits("1010 1")),
            MmsData::Integer(-7),
            MmsData::VisibleString("x y".to_owned()),
            MmsData::BinaryTime(vec![0x03, 0x1D, 0x32, 0x83, 0x39, 0x20]),
        ])
    );
}
