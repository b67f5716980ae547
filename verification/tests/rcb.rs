use iec61850::iec61850::data::{Bitstring, Iec61850Data, Iec61850DataError, Timestamp};
use iec61850::iec61850::rcb::{
    BufferedReportControlBlock, OptionalFields, ReportControlBlock, ReportControlBlockError,
    TriggerOptions, UnbufferedReportControlBlock,
};

#[test]
fn test_trigger_options() {
    // In the mms the bit 0 is the MSB. This is why we reverse the bits.
    let data = Bitstring { bytes: vec![0x4C_u8.reverse_bits()], padding: 2 };

    let options: Vec<TriggerOptions> = Iec61850Data::BitString(data.clone()).try_into().unwrap();
    assert_eq!(
        options,
        vec![TriggerOptions::DataChange, TriggerOptions::Integrity, TriggerOptions::Gi]
    );
    let bs: Bitstring = options.into();
    assert_eq!(bs, data);
}

#[test]
fn test_optional_fields() {
    // In the mms the bit 0 is the MSB. This is why we reverse the bits and the
    // bytes.
    let data =
        Bitstring { bytes: vec![0x7b_u8.reverse_bits(), 0x80_u8.reverse_bits()], padding: 6 };
    let options: Vec<OptionalFields> = Iec61850Data::BitString(data.clone()).try_into().unwrap();
    assert_eq!(
        options,
        vec![
            OptionalFields::SequenceNumber,
            OptionalFields::ReportTimestamp,
            OptionalFields::ReasonForTransmission,
            OptionalFields::DataSetName,
            OptionalFields::BufferOverflow,
            OptionalFields::EntryID,
            OptionalFields::ConfigurationRevision,
        ]
    );
    let bs: Bitstring = options.into();
    assert_eq!(bs, data);
}

fn bits(bytes: &[u8], padding: u8) -> Iec61850Data {
    Iec61850Data::BitString(Bitstring { bytes: bytes.to_vec(), padding })
}

fn text(value: &str) -> Iec61850Data {
    Iec61850Data::String(value.to_owned())
}

fn unbuffered_data() -> Vec<Iec61850Data> {
    vec![
        text("rpt-1"),
        Iec61850Data::Bool(true),
        Iec61850Data::Bool(false),
        text("LD0/LLN0$ds1"),
        Iec61850Data::Unsigned(7),
        bits(&[0x06, 0x00], 6),
        Iec61850Data::Unsigned(50),
        Iec61850Data::Unsigned(3),
        bits(&[0x12], 2),
        Iec61850Data::Unsigned(1000),
        Iec61850Data::Bool(true),
    ]
}

fn buffered_data() -> Vec<Iec61850Data> {
    vec![
        Iec61850Data::MMSString("brcb".to_owned()),
        Iec61850Data::Bool(false),
        text("LD0/LLN0$ds2"),
        Iec61850Data::Unsigned(1),
        bits(&[0x00, 0x02], 6),
        Iec61850Data::Unsigned(0),
        Iec61850Data::Unsigned(99),
        bits(&[0x20], 2),
        Iec61850Data::Unsigned(5000),
        Iec61850Data::Bool(false),
        Iec61850Data::Bool(true),
        Iec61850Data::OctetString(vec![1, 2, 3, 4, 5, 6, 7, 8]),
        Iec61850Data::BinaryTime(Timestamp { seconds: 1_700_000_000, nanoseconds: 5_000_000 }),
        Iec61850Data::Integer(-3),
    ]
}

#[test]
fn trigger_option_codes() {
    assert_eq!(TriggerOptions::DataChange.code(), 0x02);
    assert_eq!(TriggerOptions::QualityChange.code(), 0x04);
    assert_eq!(TriggerOptions::DataUpdate.code(), 0x08);
    assert_eq!(TriggerOptions::Integrity.code(), 0x10);
    assert_eq!(TriggerOptions::Gi.code(), 0x20);
    assert_eq!(TriggerOptions::from_data(bits(&[0xff], 2)).unwrap().len(), 5);
    assert_eq!(TriggerOptions::from_data(bits(&[0xc1], 2)), Ok(vec![]));
    assert_eq!(
        TriggerOptions::from_data(bits(&[0x0c], 2)),
        Ok(vec![TriggerOptions::QualityChange, TriggerOptions::DataUpdate])
    );
    assert_eq!(
        TriggerOptions::from_data(bits(&[], 0)),
        Err(Iec61850DataError::InvalidConversion)
    );
    assert_eq!(
        TriggerOptions::from_data(bits(&[1, 2], 0)),
        Err(Iec61850DataError::InvalidConversion)
    );
    assert_eq!(
        TriggerOptions::from_data(Iec61850Data::Bool(true)),
        Err(Iec61850DataError::InvalidConversion)
    );
    assert_eq!(
        TriggerOptions::to_bitstring(vec![TriggerOptions::Gi, TriggerOptions::DataChange]),
        Bitstring { bytes: vec![0x22], padding: 2 }
    );
    assert_eq!(TriggerOptions::to_bitstring(vec![]), Bitstring { bytes: vec![0], padding: 2 });
    assert_eq!(
        Iec61850Data::from(vec![TriggerOptions::Integrity]),
        bits(&[0x10], 2)
    );
}

#[test]
fn optional_field_codes() {
    let all = [
        (OptionalFields::SequenceNumber, 0x0002u16),
        (OptionalFields::ReportTimestamp, 0x0004),
        (OptionalFields::ReasonForTransmission, 0x0008),
        (OptionalFields::DataSetName, 0x0010),
        (OptionalFields::DataReference, 0x0020),
        (OptionalFields::BufferOverflow, 0x0040),
        (OptionalFields::EntryID, 0x0080),
        (OptionalFields::ConfigurationRevision, 0x0100),
        (OptionalFields::Segmentation, 0x0200),
    ];
    for (field, code) in all {
        assert_eq!(field.code(), code);
        let bytes = code.to_le_bytes();
        assert_eq!(OptionalFields::from_data(bits(&bytes, 6)), Ok(vec![field]));
        assert_eq!(
            OptionalFields::to_bitstring(vec![field]),
            Bitstring { bytes: bytes.to_vec(), padding: 6 }
        );
    }
    assert_eq!(OptionalFields::from_data(bits(&[0xff, 0xff], 6)).unwrap().len(), 9);
    assert_eq!(OptionalFields::from_data(bits(&[0x01, 0xfc], 6)), Ok(vec![]));
    assert_eq!(
        OptionalFields::from_data(bits(&[0x01], 6)),
        Err(Iec61850DataError::InvalidConversion)
    );
    assert_eq!(
        OptionalFields::from_data(Iec61850Data::Unsigned(2)),
        Err(Iec61850DataError::InvalidConversion)
    );
    assert_eq!(
        Iec61850Data::from(vec![OptionalFields::Segmentation, OptionalFields::SequenceNumber]),
        bits(&[0x02, 0x02], 6)
    );
}

#[test]
fn unbuffered_report_control_block_from_data() {
    let rcb =
        UnbufferedReportControlBlock::from_data("LLN0$RP$urcb01".to_owned(), unbuffered_data())
            .unwrap();
    assert_eq!(
        rcb,
        UnbufferedReportControlBlock {
            name: "LLN0$RP$urcb01".to_owned(),
            id: "rpt-1".to_owned(),
            enabled: true,
            reservation: false,
            dataset: "LD0/LLN0$ds1".to_owned(),
            config_rev: 7,
            optional_fields: vec![OptionalFields::SequenceNumber, OptionalFields::ReportTimestamp],
            buffer_time: 50,
            sequence_number: 3,
            trigger_options: vec![TriggerOptions::DataChange, TriggerOptions::Integrity],
            integrity_period: 1000,
            gi: true,
        }
    );
}

#[test]
fn buffered_report_control_block_from_data() {
    let rcb =
        BufferedReportControlBlock::from_data("LLN0$BR$brcb01".to_owned(), buffered_data()).unwrap();
    assert_eq!(
        rcb,
        BufferedReportControlBlock {
            name: "LLN0$BR$brcb01".to_owned(),
            id: "brcb".to_owned(),
            enabled: false,
            dataset: "LD0/LLN0$ds2".to_owned(),
            config_rev: 1,
            optional_fields: vec![OptionalFields::Segmentation],
            buffer_time: 0,
            sequence_number: 99,
            trigger_options: vec![TriggerOptions::Gi],
            integrity_period: 5000,
            gi: false,
            purge_buffer: true,
            entry_id: vec![1, 2, 3, 4, 5, 6, 7, 8],
            time_of_entry: Timestamp { seconds: 1_700_000_000, nanoseconds: 5_000_000 },
            reservation_time: -3,
        }
    );
}

#[test]
fn report_control_block_kind_follows_the_length() {
    let buffered = ReportControlBlock::from_data("b".to_owned(), buffered_data()).unwrap();
    assert!(matches!(buffered, ReportControlBlock::Buffered(_)));
    let unbuffered = ReportControlBlock::from_data("u".to_owned(), unbuffered_data()).unwrap();
    assert!(matches!(unbuffered, ReportControlBlock::Unbuffered(_)));
    let mut short = unbuffered_data();
    short.pop();
    assert_eq!(
        ReportControlBlock::from_data("x".to_owned(), short),
        Err(ReportControlBlockError::InvalidDataLength { length: 10 })
    );
    assert_eq!(
        ReportControlBlock::from_data("x".to_owned(), vec![]),
        Err(ReportControlBlockError::InvalidDataLength { length: 0 })
    );
}

#[test]
fn report_control_block_errors_name_the_field() {
    let mut data = unbuffered_data();
    data[10] = Iec61850Data::Unsigned(1);
    assert_eq!(
        UnbufferedReportControlBlock::from_data("x".to_owned(), data),
        Err(ReportControlBlockError::InvalidConversion {
            field: "gi".to_owned(),
            source: Iec61850DataError::InvalidData
        })
    );
    let mut data = unbuffered_data();
    data[8] = bits(&[1, 2], 2);
    data[0] = Iec61850Data::Bool(true);
    assert_eq!(
        UnbufferedReportControlBlock::from_data("x".to_owned(), data),
        Err(ReportControlBlockError::InvalidConversion {
            field: "trigger_options".to_owned(),
            source: Iec61850DataError::InvalidConversion
        })
    );
    let mut data = unbuffered_data();
    data.remove(0);
    assert_eq!(
        UnbufferedReportControlBlock::from_data("x".to_owned(), data),
        Err(ReportControlBlockError::MissingField { field: "id".to_owned() })
    );
    assert_eq!(
        UnbufferedReportControlBlock::from_data("x".to_owned(), vec![]),
        Err(ReportControlBlockError::MissingField { field: "gi".to_owned() })
    );
    assert_eq!(
        BufferedReportControlBlock::from_data("x".to_owned(), vec![]),
        Err(ReportControlBlockError::MissingField { field: "reservation_time".to_owned() })
    );
    let mut data = buffered_data();
    data[12] = Iec61850Data::Unsigned(1);
    assert_eq!(
        BufferedReportControlBlock::from_data("x".to_owned(), data),
        Err(ReportControlBlockError::InvalidConversion {
            field: "time_of_entry".to_owned(),
            source: Iec61850DataError::InvalidData
        })
    );
    let mut data = buffered_data();
    data.remove(0);
    data.remove(0);
    assert_eq!(
        BufferedReportControlBlock::from_data("x".to_owned(), data),
        Err(ReportControlBlockError::MissingField { field: "enabled".to_owned() })
    );
    // More values than fields: the last ones are read.
    let mut data = unbuffered_data();
    data.insert(0, Iec61850Data::Integer(0));
    assert!(UnbufferedReportControlBlock::from_data("x".to_owned(), data).is_ok());
}
