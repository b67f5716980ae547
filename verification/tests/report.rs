use iec61850::iec61850::data::{Bitstring, Iec61850Data, Iec61850DataError, Timestamp};
use iec61850::iec61850::rcb::{OptionalFields, TriggerOptions};
use iec61850::iec61850::report::{count_ones, has_field, ones, Cursor, Report, ReportError};
use iec61850::mms::client::AccessResult;

fn bits(bytes: &[u8], padding: u8) -> Iec61850Data {
    Iec61850Data::BitString(Bitstring { bytes: bytes.to_vec(), padding })
}

fn text(value: &str) -> Iec61850Data {
    Iec61850Data::String(value.to_owned())
}

fn full_report() -> Vec<Iec61850Data> {
    vec![
        text("rpt-1"),
        // every optional field
        bits(&[0xfe, 0x03], 6),
        Iec61850Data::Unsigned(17),
        Iec61850Data::UtcTime(Timestamp { seconds: 1000, nanoseconds: 0 }),
        text("LD0/LLN0$ds1"),
        Iec61850Data::Bool(false),
        Iec61850Data::OctetString(vec![9, 9]),
        Iec61850Data::Unsigned(4),
        Iec61850Data::Unsigned(0),
        Iec61850Data::Bool(true),
        // two members included
        bits(&[0x05], 5),
        text("LD0/MMXU1$MX$A"),
        text("LD0/MMXU1$MX$V"),
        Iec61850Data::Integer(230),
        Iec61850Data::Structure(vec![Iec61850Data::FloatingPoint(1)]),
        bits(&[0x02], 2),
        bits(&[0x30], 2),
        Iec61850Data::Bool(true),
    ]
}

#[test]
fn report_with_every_optional_field() {
    let report = Report::from_values(full_report()).unwrap();
    assert_eq!(
        report,
        Report {
            id: "rpt-1".to_owned(),
            optional_fields: vec![
                OptionalFields::SequenceNumber,
                OptionalFields::ReportTimestamp,
                OptionalFields::ReasonForTransmission,
                OptionalFields::DataSetName,
                OptionalFields::DataReference,
                OptionalFields::BufferOverflow,
                OptionalFields::EntryID,
                OptionalFields::ConfigurationRevision,
                OptionalFields::Segmentation,
            ],
            sequence_number: Some(17),
            time_of_entry: Some(Timestamp { seconds: 1000, nanoseconds: 0 }),
            dataset: Some("LD0/LLN0$ds1".to_owned()),
            buffer_overflow: Some(false),
            entry_id: Some(vec![9, 9]),
            configuration_revision: Some(4),
            sub_sequence_number: Some(0),
            more_segments_follows: Some(true),
            inclusion: Bitstring { bytes: vec![0x05], padding: 5 },
            data_reference: Some(vec!["LD0/MMXU1$MX$A".to_owned(), "LD0/MMXU1$MX$V".to_owned()]),
            values: vec![
                Iec61850Data::Integer(230),
                Iec61850Data::Structure(vec![Iec61850Data::FloatingPoint(1)])
            ],
            reason_for_transmission: Some(vec![
                vec![TriggerOptions::DataChange],
                vec![TriggerOptions::Integrity, TriggerOptions::Gi]
            ]),
        }
    );
}

#[test]
fn report_without_optional_fields() {
    let values =
        vec![text("r"), bits(&[0x00, 0x00], 6), bits(&[0x80], 0), Iec61850Data::Bool(true)];
    let report = Report::from_values(values).unwrap();
    assert_eq!(report.id, "r");
    assert_eq!(report.optional_fields, vec![]);
    assert_eq!(report.sequence_number, None);
    assert_eq!(report.time_of_entry, None);
    assert_eq!(report.dataset, None);
    assert_eq!(report.buffer_overflow, None);
    assert_eq!(report.entry_id, None);
    assert_eq!(report.configuration_revision, None);
    assert_eq!(report.sub_sequence_number, None);
    assert_eq!(report.more_segments_follows, None);
    assert_eq!(report.inclusion, Bitstring { bytes: vec![0x80], padding: 0 });
    assert_eq!(report.data_reference, None);
    assert_eq!(report.values, vec![Iec61850Data::Bool(true)]);
    assert_eq!(report.reason_for_transmission, None);
}

#[test]
fn report_with_nothing_included() {
    let values = vec![text("r"), bits(&[0x28, 0x00], 6), bits(&[0x00, 0x00], 0)];
    let report = Report::from_values(values).unwrap();
    assert_eq!(report.data_reference, Some(vec![]));
    assert_eq!(report.values, vec![]);
    assert_eq!(report.reason_for_transmission, Some(vec![]));
}

#[test]
fn report_errors() {
    assert_eq!(Report::from_values(vec![]), Err(ReportError::InvalidReport));
    assert_eq!(
        Report::from_values(vec![text("r"), bits(&[0, 0], 6)]),
        Err(ReportError::InvalidReport)
    );
    let mut values = full_report();
    values[0] = Iec61850Data::Bool(true);
    assert_eq!(
        Report::from_values(values),
        Err(ReportError::InvalidConversion {
            field: "id".to_owned(),
            source: Iec61850DataError::InvalidData
        })
    );
    let mut values = full_report();
    values[1] = bits(&[0xfe], 6);
    assert_eq!(
        Report::from_values(values),
        Err(ReportError::InvalidConversion {
            field: "optional_fields".to_owned(),
            source: Iec61850DataError::InvalidConversion
        })
    );
    let fields = [
        (2, "sequence_number"),
        (3, "time_of_entry"),
        (4, "dataset"),
        (5, "buffer_overflow"),
        (6, "entry_id"),
        (7, "configuration_revision"),
        (8, "sub_sequence_number"),
        (9, "more_segments_follows"),
        (10, "Inclusion-bitstring "),
        (11, "data_reference"),
        (12, "data_reference"),
    ];
    for (place, field) in fields {
        let mut values = full_report();
        values[place] = Iec61850Data::Array(vec![]);
        assert_eq!(
            Report::from_values(values),
            Err(ReportError::InvalidConversion {
                field: field.to_owned(),
                source: Iec61850DataError::InvalidData
            })
        );
        let mut values = full_report();
        values.truncate(place);
        if place >= 3 {
            assert_eq!(
                Report::from_values(values),
                Err(ReportError::MissingField { field: field.to_owned() })
            );
        }
    }
    let mut values = full_report();
    values[16] = Iec61850Data::Bool(true);
    assert_eq!(
        Report::from_values(values),
        Err(ReportError::InvalidConversion {
            field: "reason_for_transmission".to_owned(),
            source: Iec61850DataError::InvalidConversion
        })
    );
    let mut values = full_report();
    values.truncate(14);
    assert_eq!(
        Report::from_values(values),
        Err(ReportError::MissingField { field: "value".to_owned() })
    );
    let mut values = full_report();
    values.truncate(16);
    assert_eq!(
        Report::from_values(values),
        Err(ReportError::MissingField { field: "reason_for_transmission".to_owned() })
    );
}

#[test]
fn report_from_access_results() {
    let results: Vec<AccessResult<Iec61850Data>> =
        full_report().into_iter().map(AccessResult::Success).collect();
    assert_eq!(Report::from_access_results(results), Report::from_values(full_report()));
    let mut results: Vec<AccessResult<Iec61850Data>> =
        full_report().into_iter().map(AccessResult::Success).collect();
    results[5] = AccessResult::Failure(3);
    results[0] = AccessResult::Success(Iec61850Data::Bool(true));
    assert_eq!(
        Report::from_access_results(results),
        Err(ReportError::FailedToConvertAccessResults { data_access_error: 3 })
    );
    assert_eq!(Report::from_access_results(vec![]), Err(ReportError::InvalidReport));
}

#[test]
fn bits_are_counted() {
    assert_eq!(ones(0), 0);
    assert_eq!(ones(0xff), 8);
    assert_eq!(ones(0x05), 2);
    for byte in 0..=255u8 {
        assert_eq!(ones(byte) as u32, byte.count_ones());
    }
    assert_eq!(count_ones(&vec![0xff, 0x01, 0x00, 0x80]), 10);
    assert_eq!(count_ones(&vec![]), 0);
    assert!(has_field(&vec![OptionalFields::EntryID], OptionalFields::EntryID));
    assert!(!has_field(&vec![OptionalFields::EntryID], OptionalFields::Segmentation));
    assert!(!has_field(&vec![], OptionalFields::Segmentation));
}

#[test]
fn cursor_reads_from_the_front() {
    let mut cursor = Cursor::new(vec![Iec61850Data::Unsigned(1), Iec61850Data::Unsigned(2)]);
    assert_eq!(cursor.next("a"), Ok(Iec61850Data::Unsigned(1)));
    assert_eq!(cursor.next("b"), Ok(Iec61850Data::Unsigned(2)));
    assert_eq!(cursor.next("c"), Err(ReportError::MissingField { field: "c".to_owned() }));
}
