use environment_sanity::error::FatalError;
use environment_sanity::error::FileKind;
use environment_sanity::records::readDelimitedRecords;
use environment_sanity::ASCII_NUL;
use environment_sanity::LINE_FEED;

fn read(content: &[u8]) -> Result<Vec<Vec<u8>>, FatalError> {
    readDelimitedRecords(FileKind::Black, &content.to_vec(), LINE_FEED)
}

#[test]
fn splits_on_linefeed_excluding_delimiter() {
    let records = read(b"alpha\nbeta").unwrap();
    assert_eq!(records, vec![b"alpha".to_vec(), b"beta".to_vec()]);
}

#[test]
fn trailing_delimiter_yields_no_empty_record() {
    let records = read(b"alpha\nbeta\n").unwrap();
    assert_eq!(records, vec![b"alpha".to_vec(), b"beta".to_vec()]);
}

#[test]
fn trailing_record_after_final_delimiter_is_yielded_if_non_empty() {
    let records = read(b"alpha\nbeta\ngamma").unwrap();
    assert_eq!(
        records,
        vec![b"alpha".to_vec(), b"beta".to_vec(), b"gamma".to_vec()]
    );
}

#[test]
fn empty_content_has_no_records() {
    let records = read(b"").unwrap();
    assert!(records.is_empty());
}

#[test]
fn empty_record_in_the_middle_is_kept() {
    let records = read(b"alpha\n\nbeta").unwrap();
    assert_eq!(
        records,
        vec![b"alpha".to_vec(), b"".to_vec(), b"beta".to_vec()]
    );
}

#[test]
fn nul_byte_is_fatal_with_record_index_and_column() {
    let result = read(b"alpha\nbe\x00ta\ngamma");
    match result {
        Err(FatalError::NulInRecord {
            kind,
            record,
            column,
        }) => {
            assert_eq!(kind, FileKind::Black);
            assert_eq!(record, 1);
            assert_eq!(column, 2);
        }
        _ => panic!("expected a NUL record error"),
    }
}

#[test]
fn nul_scan_reports_the_first_offending_record() {
    let result = read(b"\x00\nalso\x00bad");
    match result {
        Err(FatalError::NulInRecord { record, column, .. }) => {
            assert_eq!(record, 0);
            assert_eq!(column, 0);
        }
        _ => panic!("expected a NUL record error"),
    }
}

#[test]
fn nul_is_checked_whatever_the_file_kind() {
    let result = readDelimitedRecords(FileKind::Settings, &b"a\x00".to_vec(), LINE_FEED);
    match result {
        Err(FatalError::NulInRecord { kind, .. }) => assert_eq!(kind, FileKind::Settings),
        _ => panic!("expected a NUL record error"),
    }
}

#[test]
fn nul_constant_is_the_scanned_byte() {
    assert_eq!(ASCII_NUL, 0);
    assert_eq!(LINE_FEED, 0x0a);
}
