use environment_sanity::black_list::BlackList;
use environment_sanity::environment_map::EnvironmentMap;
use environment_sanity::settings_list::SettingsList;
use environment_sanity::variable::EnvironmentVariable;
use environment_sanity::white_list::WhiteList;

fn name(text: &str) -> EnvironmentVariable {
    EnvironmentVariable::fromText(text)
}

fn entry(n: &str, v: &[u8]) -> (EnvironmentVariable, Vec<u8>) {
    (name(n), v.to_vec())
}

#[test]
fn filter_excludes_black_listed_and_keeps_white_listed_present_names() {
    let blackList = BlackList::new(vec![name("HOME"), name("LD_PRELOAD")]);
    let whiteList =
        WhiteList::new(&blackList, vec![name("PATH"), name("TMPDIR")]).unwrap();
    let inherited = vec![
        entry("HOME", b"/root"),
        entry("PATH", b"/usr/bin"),
        entry("LD_PRELOAD", b"evil.so"),
        entry("EDITOR", b"vi"),
    ];
    let filtered = whiteList.filterEnvironment(&inherited);
    assert!(filtered.get(&name("HOME")).is_none());
    assert!(filtered.get(&name("LD_PRELOAD")).is_none());
    assert!(filtered.get(&name("EDITOR")).is_none());
    assert_eq!(filtered.get(&name("PATH")).unwrap(), &b"/usr/bin".to_vec());
    assert!(filtered.get(&name("TMPDIR")).is_none());
}

#[test]
fn filter_keeps_the_later_entry_on_a_repeated_name() {
    let blackList = BlackList::new(vec![name("HOME")]);
    let whiteList = WhiteList::new(&blackList, vec![name("PATH")]).unwrap();
    let inherited = vec![entry("PATH", b"/old"), entry("PATH", b"/new")];
    let filtered = whiteList.filterEnvironment(&inherited);
    assert_eq!(filtered.get(&name("PATH")).unwrap(), &b"/new".to_vec());
}

#[test]
fn a_name_in_both_lists_is_always_excluded() {
    let blackList = BlackList::new(vec![name("PATH")]);
    let mut whiteList = WhiteList::new(&blackList, vec![name("TMPDIR")]).unwrap();
    let warnings = whiteList.addToFromFile(&b"PATH".to_vec()).unwrap();
    assert_eq!(warnings.len(), 1);
    let inherited = vec![entry("PATH", b"/usr/bin")];
    let filtered = whiteList.filterEnvironment(&inherited);
    assert!(filtered.get(&name("PATH")).is_none());
}

#[test]
fn settings_bypass_both_lists() {
    let blackList = BlackList::new(vec![name("HOME")]);
    let whiteList = WhiteList::new(&blackList, vec![name("PATH")]).unwrap();
    let inherited = vec![entry("HOME", b"/inherited"), entry("PATH", b"/usr/bin")];
    let filtered = whiteList.filterEnvironment(&inherited);
    let mut defaults = EnvironmentMap::new();
    defaults.insert(name("HOME"), b"/canonical".to_vec());
    defaults.insert(name("NEITHER_LISTED"), b"still here".to_vec());
    let settings = SettingsList::new(defaults);
    let environment = settings.addSettingsToEnvironment(filtered);
    assert_eq!(
        environment.get(&name("HOME")).unwrap(),
        &b"/canonical".to_vec()
    );
    assert_eq!(
        environment.get(&name("NEITHER_LISTED")).unwrap(),
        &b"still here".to_vec()
    );
    assert_eq!(environment.get(&name("PATH")).unwrap(), &b"/usr/bin".to_vec());
}

#[test]
fn settings_overwrite_a_filtered_entry_with_the_same_name() {
    let blackList = BlackList::new(vec![]);
    let whiteList = WhiteList::new(&blackList, vec![name("TMPDIR")]).unwrap();
    let inherited = vec![entry("TMPDIR", b"/tmp")];
    let filtered = whiteList.filterEnvironment(&inherited);
    let mut defaults = EnvironmentMap::new();
    defaults.insert(name("TMPDIR"), b"/root/.environment-sanity/tmp/ls".to_vec());
    let settings = SettingsList::new(defaults);
    let environment = settings.addSettingsToEnvironment(filtered);
    assert_eq!(
        environment.get(&name("TMPDIR")).unwrap(),
        &b"/root/.environment-sanity/tmp/ls".to_vec()
    );
}

#[test]
fn into_entries_spells_the_final_mapping() {
    let mut map = EnvironmentMap::new();
    map.insert(name("A"), b"1".to_vec());
    map.insert(name("A"), b"2".to_vec());
    map.insert(name("B"), b"3".to_vec());
    let entries = map.intoEntries();
    let mut last_a: Option<Vec<u8>> = None;
    let mut last_b: Option<Vec<u8>> = None;
    for (n, v) in entries {
        if n == name("A") {
            last_a = Some(v);
        } else if n == name("B") {
            last_b = Some(v);
        }
    }
    assert_eq!(last_a.unwrap(), b"2".to_vec());
    assert_eq!(last_b.unwrap(), b"3".to_vec());
}
