use environment_sanity::environment_map::EnvironmentMap;
use environment_sanity::error::FatalError;
use environment_sanity::settings_list::SettingsList;
use environment_sanity::variable::EnvironmentVariable;

fn name(text: &str) -> EnvironmentVariable {
    EnvironmentVariable::fromText(text)
}

fn defaults_with_tz() -> EnvironmentMap {
    let mut defaults = EnvironmentMap::new();
    defaults.insert(name("TZ"), b"Etc/UTC".to_vec());
    defaults
}

#[test]
fn file_sourced_setting_overrides_a_default_with_the_same_name() {
    let mut settings = SettingsList::new(defaults_with_tz());
    settings
        .addToFromFile(&b"TZ\tEurope/London".to_vec())
        .unwrap();
    let environment = settings.addSettingsToEnvironment(EnvironmentMap::new());
    assert_eq!(
        environment.get(&name("TZ")).unwrap(),
        &b"Europe/London".to_vec()
    );
}

#[test]
fn later_file_record_overrides_an_earlier_one() {
    let mut settings = SettingsList::new(EnvironmentMap::new());
    settings
        .addToFromFile(&b"TZ\tEurope/London\nTZ\tEurope/Paris".to_vec())
        .unwrap();
    let environment = settings.addSettingsToEnvironment(EnvironmentMap::new());
    assert_eq!(
        environment.get(&name("TZ")).unwrap(),
        &b"Europe/Paris".to_vec()
    );
}

#[test]
fn only_the_first_tab_separates_name_from_value() {
    let mut settings = SettingsList::new(EnvironmentMap::new());
    settings
        .addToFromFile(&b"MESSAGE\tone\ttwo".to_vec())
        .unwrap();
    let environment = settings.addSettingsToEnvironment(EnvironmentMap::new());
    assert_eq!(
        environment.get(&name("MESSAGE")).unwrap(),
        &b"one\ttwo".to_vec()
    );
}

#[test]
fn empty_record_is_skipped() {
    let mut settings = SettingsList::new(EnvironmentMap::new());
    settings
        .addToFromFile(&b"TZ\tEtc/UTC\n\nLANG\tC".to_vec())
        .unwrap();
    let environment = settings.addSettingsToEnvironment(EnvironmentMap::new());
    assert_eq!(environment.get(&name("TZ")).unwrap(), &b"Etc/UTC".to_vec());
    assert_eq!(environment.get(&name("LANG")).unwrap(), &b"C".to_vec());
}

#[test]
fn record_without_a_tab_is_fatal_with_its_record_index() {
    let mut settings = SettingsList::new(defaults_with_tz());
    let result = settings.addToFromFile(&b"LANG\tC\nNOTABHERE\nTZ\tUTC".to_vec());
    match result {
        Err(FatalError::NoTabInSettingsRecord { record }) => assert_eq!(record, 1),
        _ => panic!("expected the missing-tab error"),
    }
    let environment = settings.addSettingsToEnvironment(EnvironmentMap::new());
    assert_eq!(environment.get(&name("TZ")).unwrap(), &b"Etc/UTC".to_vec());
    assert!(environment.get(&name("LANG")).is_none());
}

#[test]
fn settings_file_with_nul_is_fatal() {
    let mut settings = SettingsList::new(EnvironmentMap::new());
    let result = settings.addToFromFile(&b"TZ\tEtc\x00UTC".to_vec());
    match result {
        Err(FatalError::NulInRecord { record, column, .. }) => {
            assert_eq!(record, 0);
            assert_eq!(column, 6);
        }
        _ => panic!("expected a NUL record error"),
    }
}

#[test]
fn empty_value_after_tab_is_allowed() {
    let mut settings = SettingsList::new(EnvironmentMap::new());
    settings.addToFromFile(&b"EMPTY\t".to_vec()).unwrap();
    let environment = settings.addSettingsToEnvironment(EnvironmentMap::new());
    assert_eq!(environment.get(&name("EMPTY")).unwrap(), &b"".to_vec());
}

#[test]
fn overlay_keeps_unrelated_entries_of_the_base() {
    let mut base = EnvironmentMap::new();
    base.insert(name("PATH"), b"/usr/bin".to_vec());
    let mut settings = SettingsList::new(EnvironmentMap::new());
    settings.addToFromFile(&b"TZ\tEtc/UTC".to_vec()).unwrap();
    let environment = settings.addSettingsToEnvironment(base);
    assert_eq!(
        environment.get(&name("PATH")).unwrap(),
        &b"/usr/bin".to_vec()
    );
    assert_eq!(environment.get(&name("TZ")).unwrap(), &b"Etc/UTC".to_vec());
}
