use environment_sanity::black_list::BlackList;
use environment_sanity::error::FatalError;
use environment_sanity::variable::EnvironmentVariable;
use environment_sanity::white_list::WhiteList;

fn name(text: &str) -> EnvironmentVariable {
    EnvironmentVariable::fromText(text)
}

#[test]
fn black_list_holds_its_defaults() {
    let blackList = BlackList::new(vec![name("HOME"), name("LD_PRELOAD")]);
    assert!(blackList.isBlackListed(&name("HOME")));
    assert!(blackList.isBlackListed(&name("LD_PRELOAD")));
    assert!(!blackList.isBlackListed(&name("PATH")));
    assert!(blackList.isNotBlackListed(&name("PATH")));
}

#[test]
fn black_list_comparison_is_byte_exact() {
    let blackList = BlackList::new(vec![name("HOME")]);
    assert!(!blackList.isBlackListed(&name("home")));
    assert!(!blackList.isBlackListed(&name("HOME ")));
}

#[test]
fn black_list_duplicates_collapse_silently() {
    let blackList = BlackList::new(vec![name("HOME"), name("HOME")]);
    assert!(blackList.isBlackListed(&name("HOME")));
}

#[test]
fn black_list_grows_from_file_records() {
    let mut blackList = BlackList::new(vec![name("HOME")]);
    blackList
        .addToFromFile(&b"EDITOR\nVISUAL\n".to_vec())
        .unwrap();
    assert!(blackList.isBlackListed(&name("HOME")));
    assert!(blackList.isBlackListed(&name("EDITOR")));
    assert!(blackList.isBlackListed(&name("VISUAL")));
}

#[test]
fn black_list_file_with_nul_is_fatal_and_changes_nothing() {
    let mut blackList = BlackList::new(vec![name("HOME")]);
    let result = blackList.addToFromFile(&b"EDITOR\nVIS\x00UAL".to_vec());
    match result {
        Err(FatalError::NulInRecord { record, column, .. }) => {
            assert_eq!(record, 1);
            assert_eq!(column, 3);
        }
        _ => panic!("expected a NUL record error"),
    }
    assert!(!blackList.isBlackListed(&name("EDITOR")));
}

#[test]
fn white_list_holds_its_defaults_when_disjoint() {
    let blackList = BlackList::new(vec![name("HOME")]);
    let whiteList = WhiteList::new(&blackList, vec![name("PATH"), name("TMPDIR")]).unwrap();
    assert!(whiteList.isWhiteListed(&name("PATH")));
    assert!(whiteList.isWhiteListed(&name("TMPDIR")));
    assert!(!whiteList.isWhiteListed(&name("HOME")));
}

#[test]
fn overlapping_defaults_abort_at_construction_time() {
    let blackList = BlackList::new(vec![name("HOME")]);
    let result = WhiteList::new(&blackList, vec![name("PATH"), name("HOME")]);
    match result {
        Err(FatalError::DefaultWhiteListedNameIsBlackListed { name: offending }) => {
            assert_eq!(offending, name("HOME"));
        }
        _ => panic!("expected the default-collision error"),
    }
}

#[test]
fn white_list_file_round_trip() {
    let blackList = BlackList::new(vec![name("HOME")]);
    let mut whiteList = WhiteList::new(&blackList, vec![name("TERM")]).unwrap();
    let warnings = whiteList
        .addToFromFile(&b"PATH\nTMPDIR".to_vec())
        .unwrap();
    assert!(warnings.is_empty());
    assert!(whiteList.isWhiteListed(&name("PATH")));
    assert!(whiteList.isWhiteListed(&name("TMPDIR")));
    assert!(whiteList.isWhiteListed(&name("TERM")));
    assert!(!whiteList.isWhiteListed(&name("HOME")));
}

#[test]
fn black_listed_white_file_record_is_dropped_with_a_warning() {
    let blackList = BlackList::new(vec![name("HOME")]);
    let mut whiteList = WhiteList::new(&blackList, vec![name("PATH")]).unwrap();
    let warnings = whiteList
        .addToFromFile(&b"TERM\nHOME\nTMPDIR".to_vec())
        .unwrap();
    assert_eq!(warnings.len(), 1);
    assert_eq!(warnings[0].0, 1);
    assert_eq!(warnings[0].1, name("HOME"));
    assert!(!whiteList.isWhiteListed(&name("HOME")));
    assert!(whiteList.isWhiteListed(&name("TERM")));
    assert!(whiteList.isWhiteListed(&name("TMPDIR")));
}

#[test]
fn white_list_file_with_nul_reports_the_record_index() {
    let blackList = BlackList::new(vec![name("HOME")]);
    let mut whiteList = WhiteList::new(&blackList, vec![name("PATH")]).unwrap();
    let result = whiteList.addToFromFile(&b"TERM\nDIS\x00PLAY".to_vec());
    match result {
        Err(FatalError::NulInRecord { record, column, .. }) => {
            assert_eq!(record, 1);
            assert_eq!(column, 3);
        }
        _ => panic!("expected a NUL record error"),
    }
    assert!(!whiteList.isWhiteListed(&name("TERM")));
}
