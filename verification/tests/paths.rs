use iec61850::iec61850::data::Iec61850Data;
use iec61850::iec61850::rcb::{ReportControlBlock, ReportControlBlockError};
use iec61850::iec61850::text::{contains_pair, find_char, split_once, str_eq};
use iec61850::iec61850::{
    association_dataset, check_dataset_entries, get_rcb, is_logical_node_name,
    is_report_control_block_name, split_path, to_identifier, trim_start, Iec61850ClientError,
    ObjectPath,
};
use iec61850::mms::client::MmsClientError;

#[test]
fn paths_have_exactly_one_slash() {
    assert_eq!(split_path("LD0/LLN0$ST$Mod"), Ok(("LD0", "LLN0$ST$Mod")));
    assert_eq!(split_path("/"), Ok(("", "")));
    assert_eq!(split_path("a/"), Ok(("a", "")));
    assert_eq!(split_path("/b"), Ok(("", "b")));
    assert_eq!(split_path("é/ü"), Ok(("é", "ü")));
    assert_eq!(split_path(""), Err(Iec61850ClientError::InvalidPath));
    assert_eq!(split_path("LD0"), Err(Iec61850ClientError::InvalidPath));
    assert_eq!(split_path("a/b/c"), Err(Iec61850ClientError::InvalidPath));
    assert_eq!(split_path("a//b"), Err(Iec61850ClientError::InvalidPath));
}

#[test]
fn object_paths() {
    let full = ObjectPath::from("LD0/LLN0$BR$brcb01".to_owned());
    assert_eq!(full, ObjectPath::FullPath("LD0/LLN0$BR$brcb01".to_owned()));
    assert_eq!(full.get_split_path(), Ok(("LD0", "LLN0$BR$brcb01")));
    assert_eq!(full.to_string(), "LD0/LLN0$BR$brcb01");
    let parts = ObjectPath::from(("LD0".to_owned(), "a/b".to_owned()));
    assert_eq!(
        parts,
        ObjectPath::FromLogicalDevice { logical_device: "LD0".to_owned(), path: "a/b".to_owned() }
    );
    assert_eq!(parts.get_split_path(), Ok(("LD0", "a/b")));
    assert_eq!(parts.to_string(), "LD0/a/b");
    let bad = ObjectPath::FullPath("LD0".to_owned());
    assert_eq!(bad.get_split_path(), Err(Iec61850ClientError::InvalidPath));
    assert_eq!(
        full.attribute("RptEna"),
        ObjectPath::FullPath("LD0/LLN0$BR$brcb01$RptEna".to_owned())
    );
    assert_eq!(parts.attribute("GI"), ObjectPath::FullPath("LD0/a/b$GI".to_owned()));
}

#[test]
fn names_of_logical_nodes_and_report_control_blocks() {
    assert!(is_logical_node_name("LLN0"));
    assert!(is_logical_node_name(""));
    assert!(!is_logical_node_name("LLN0$ST"));
    assert!(!is_logical_node_name("$"));
    assert!(is_report_control_block_name("LLN0$BR$brcb01"));
    assert!(is_report_control_block_name("LLN0$RP$urcb01"));
    assert!(is_report_control_block_name("$RP$"));
    assert!(!is_report_control_block_name("LLN0$BR"));
    assert!(!is_report_control_block_name("LLN0$BR$brcb01$RptEna"));
    assert!(!is_report_control_block_name("LLN0$ST$Mod"));
    assert!(!is_report_control_block_name("LLN0$BRX$a"));
    assert!(!is_report_control_block_name("LLN0"));
    assert!(!is_report_control_block_name(""));
}

#[test]
fn identifiers() {
    assert_eq!(to_identifier("LD0"), Ok(()));
    assert_eq!(to_identifier("LLN0$ST$Mod"), Ok(()));
    assert_eq!(to_identifier("Ä"), Err(Iec61850ClientError::ConvertToVisibleString));
    assert_eq!(to_identifier("a\u{0}"), Err(Iec61850ClientError::ConvertToVisibleString));
}

#[test]
fn data_sets_of_the_association_start_with_an_at_sign() {
    assert_eq!(association_dataset("@ds1"), Some("ds1"));
    assert_eq!(association_dataset("@@ds1@"), Some("ds1@"));
    assert_eq!(association_dataset("@"), Some(""));
    assert_eq!(association_dataset("LD0/ds1"), None);
    assert_eq!(association_dataset(""), None);
    assert_eq!(trim_start("@@a@", '@'), "a@");
    assert_eq!(trim_start("a", '@'), "a");
    assert_eq!(trim_start("@@", '@'), "");
    assert_eq!(trim_start("", '@'), "");
}

#[test]
fn entries_of_a_data_set() {
    let entries = vec!["LD0/LLN0$ST$Mod".to_owned(), "LD0/MMXU1$MX$A".to_owned()];
    assert_eq!(check_dataset_entries(Some("LD0"), &entries), Ok(()));
    assert_eq!(check_dataset_entries(None, &entries), Ok(()));
    assert_eq!(
        check_dataset_entries(Some("LD1"), &entries),
        Err(Iec61850ClientError::InvalidPath)
    );
    let mixed = vec!["LD0/a".to_owned(), "LD1/b".to_owned()];
    assert_eq!(check_dataset_entries(None, &mixed), Ok(()));
    assert_eq!(check_dataset_entries(Some("LD0"), &mixed), Err(Iec61850ClientError::InvalidPath));
    let bad = vec!["LD0/a".to_owned(), "LD0".to_owned()];
    assert_eq!(check_dataset_entries(None, &bad), Err(Iec61850ClientError::InvalidPath));
    let bad = vec!["LD0/a/b".to_owned()];
    assert_eq!(check_dataset_entries(Some("LD0"), &bad), Err(Iec61850ClientError::InvalidPath));
    assert_eq!(check_dataset_entries(Some("LD0"), &vec![]), Ok(()));
}

#[test]
fn report_control_block_from_what_was_read() {
    assert_eq!(get_rcb("x".to_owned(), vec![]), Err(Iec61850ClientError::InvalidDataLength));
    assert_eq!(
        get_rcb("x".to_owned(), vec![Iec61850Data::Bool(true)]),
        Err(Iec61850ClientError::InvalidData)
    );
    assert_eq!(
        get_rcb("x".to_owned(), vec![Iec61850Data::Structure(vec![])]),
        Err(Iec61850ClientError::CreateReportControlBlock {
            source: ReportControlBlockError::InvalidDataLength { length: 0 }
        })
    );
    let values = vec![
        Iec61850Data::String("id".to_owned()),
        Iec61850Data::Bool(true),
        Iec61850Data::Bool(false),
        Iec61850Data::String("ds".to_owned()),
        Iec61850Data::Unsigned(1),
        Iec61850Data::from(Vec::<iec61850::iec61850::rcb::OptionalFields>::new()),
        Iec61850Data::Unsigned(2),
        Iec61850Data::Unsigned(3),
        Iec61850Data::from(Vec::<iec61850::iec61850::rcb::TriggerOptions>::new()),
        Iec61850Data::Unsigned(4),
        Iec61850Data::Bool(true),
    ];
    let rcb = get_rcb(
        "LLN0$RP$u".to_owned(),
        vec![Iec61850Data::Bool(false), Iec61850Data::Structure(values)],
    )
    .unwrap();
    match rcb {
        ReportControlBlock::Unbuffered(rcb) => {
            assert_eq!(rcb.name, "LLN0$RP$u");
            assert_eq!(rcb.id, "id");
            assert_eq!(rcb.integrity_period, 4);
        }
        ReportControlBlock::Buffered(_) => panic!("an unbuffered block was read"),
    }
}

#[test]
fn client_error_from_mms_error() {
    assert_eq!(
        Iec61850ClientError::from(MmsClientError::ReceiveResponse),
        Iec61850ClientError::Client { source: MmsClientError::ReceiveResponse }
    );
}

#[test]
fn strings() {
    assert_eq!(find_char("a$b$c", '$'), 1);
    assert_eq!(find_char("abc", '$'), 3);
    assert_eq!(find_char("", '$'), 0);
    assert_eq!(find_char("äö$", '$'), 2);
    assert_eq!(split_once("a$b$c", '$'), Some(("a", "b$c")));
    assert_eq!(split_once("$", '$'), Some(("", "")));
    assert_eq!(split_once("äö$ü", '$'), Some(("äö", "ü")));
    assert_eq!(split_once("abc", '$'), None);
    assert!(str_eq("abc", "abc"));
    assert!(!str_eq("abc", "abd"));
    assert!(!str_eq("abc", "ab"));
    assert!(str_eq("", ""));
    assert!(contains_pair("LLN0$BR$b", 'B', 'R'));
    assert!(contains_pair("BR", 'B', 'R'));
    assert!(!contains_pair("B$R", 'B', 'R'));
    assert!(!contains_pair("RB", 'B', 'R'));
    assert!(!contains_pair("B", 'B', 'R'));
    assert!(!contains_pair("", 'B', 'R'));
}
