//! The deterministic merge pipeline: build the black list, build the white
//! list validated against it, build the settings list, filter a snapshot of
//! the inherited environment through both lists, and overlay the settings.
//! Every configuration file is optional; absence changes nothing. The run
//! either completes the whole merge or stops at the first fatal condition
//! with nothing produced.

use vstd::prelude::*;
use crate::LINE_FEED;
use crate::black_list::BlackList;
use crate::environment_map::EnvironmentMap;
use crate::error::FatalError;
use crate::error::FileKind;
use crate::records::file_records;
use crate::records::names_in;
use crate::records::is_first_nul_error;
use crate::records::records_nul_free;
use crate::settings_list::SettingsList;
use crate::settings_list::apply_settings_records;
use crate::settings_list::is_first_missing_tab;
use crate::settings_list::settings_records_well_formed;
use crate::variable::EnvironmentVariable;
use crate::white_list::WhiteList;
use crate::white_list::collisions;
use crate::white_list::filtered_environment;
use crate::white_list::names_in_not_black;
use crate::white_list::warnings_match;

verus! {

/// The black-listed names after seeding with the defaults and applying an
/// optional black-list file.
pub open spec fn black_names(defaults: Seq<Seq<u8>>, file: Option<Seq<u8>>) -> Set<Seq<u8>> {
    match file {
        None => names_in(defaults),
        Some(content) => names_in(defaults).union(names_in(file_records(content, LINE_FEED))),
    }
}

/// The white-listed names after seeding with the defaults and applying an
/// optional white-list file, whose black-listed records are dropped.
pub open spec fn white_names(
    defaults: Seq<Seq<u8>>,
    file: Option<Seq<u8>>,
    black: Set<Seq<u8>>,
) -> Set<Seq<u8>> {
    match file {
        None => names_in(defaults),
        Some(content) => names_in(defaults).union(
            names_in_not_black(file_records(content, LINE_FEED), black),
        ),
    }
}

/// The settings after seeding with the computed defaults and applying an
/// optional settings file, whose entries overwrite on a shared name.
pub open spec fn settings_map(
    defaults: Map<Seq<u8>, Seq<u8>>,
    file: Option<Seq<u8>>,
) -> Map<Seq<u8>, Seq<u8>> {
    match file {
        None => defaults,
        Some(content) => apply_settings_records(defaults, file_records(content, LINE_FEED)),
    }
}

/// The warnings an optional white-list file provokes.
pub open spec fn white_file_warnings(file: Option<Seq<u8>>, black: Set<Seq<u8>>) -> Seq<
    (int, Seq<u8>),
> {
    match file {
        None => Seq::empty(),
        Some(content) => collisions(file_records(content, LINE_FEED), black),
    }
}

/// Whether an optional list file is free of NUL bytes in every record.
pub open spec fn list_file_nul_free(file: Option<Seq<u8>>) -> bool {
    match file {
        None => true,
        Some(content) => records_nul_free(file_records(content, LINE_FEED)),
    }
}

/// Whether no default white-list name is black-listed.
pub open spec fn white_defaults_disjoint(defaults: Seq<Seq<u8>>, black: Set<Seq<u8>>) -> bool {
    forall|i: int| 0 <= i < defaults.len() ==> !black.contains(#[trigger] defaults[i])
}

/// Whether an optional settings file is free of NUL bytes and every
/// non-empty record holds its tab separator.
pub open spec fn settings_file_well_formed(file: Option<Seq<u8>>) -> bool {
    match file {
        None => true,
        Some(content) => records_nul_free(file_records(content, LINE_FEED))
            && settings_records_well_formed(file_records(content, LINE_FEED)),
    }
}

/// Runs the whole merge on plain inputs: the built-in defaults, the three
/// optional configuration-file contents, and a snapshot of the inherited
/// environment. On success it returns the final environment to hand to
/// process replacement, with the white-list warnings to report; on the first
/// fatal condition it returns that error and nothing is produced.
pub fn prepareEnvironment(
    defaultBlackList: Vec<EnvironmentVariable>,
    blackListFileContent: Option<Vec<u8>>,
    defaultWhiteList: Vec<EnvironmentVariable>,
    whiteListFileContent: Option<Vec<u8>>,
    defaultSettingsList: EnvironmentMap,
    settingsFileContent: Option<Vec<u8>>,
    environment: Vec<(EnvironmentVariable, Vec<u8>)>,
) -> (r: Result<(EnvironmentMap, Vec<(usize, EnvironmentVariable)>), FatalError>)
    ensures
        ({
            let blackSet = black_names(
                defaultBlackList.deep_view(),
                blackListFileContent.deep_view(),
            );
            let whiteSet = white_names(
                defaultWhiteList.deep_view(),
                whiteListFileContent.deep_view(),
                blackSet,
            );
            let settings = settings_map(defaultSettingsList@, settingsFileContent.deep_view());
            match r {
                Ok((finalEnvironment, warnings)) => {
                    &&& list_file_nul_free(blackListFileContent.deep_view())
                    &&& white_defaults_disjoint(defaultWhiteList.deep_view(), blackSet)
                    &&& list_file_nul_free(whiteListFileContent.deep_view())
                    &&& settings_file_well_formed(settingsFileContent.deep_view())
                    &&& finalEnvironment@ == filtered_environment(
                        environment.deep_view(),
                        blackSet,
                        whiteSet,
                    ).union_prefer_right(settings)
                    &&& warnings_match(
                        warnings@,
                        white_file_warnings(whiteListFileContent.deep_view(), blackSet),
                    )
                },
                Err(e) => match e {
                    FatalError::NulInRecord { kind, record, column } => {
                        if kind == FileKind::Black {
                            blackListFileContent.deep_view() matches Some(content)
                                && is_first_nul_error(
                                file_records(content, LINE_FEED),
                                record as int,
                                column as int,
                            )
                        } else if kind == FileKind::White {
                            &&& list_file_nul_free(blackListFileContent.deep_view())
                            &&& white_defaults_disjoint(defaultWhiteList.deep_view(), blackSet)
                            &&& whiteListFileContent.deep_view() matches Some(content)
                                && is_first_nul_error(
                                file_records(content, LINE_FEED),
                                record as int,
                                column as int,
                            )
                        } else {
                            &&& list_file_nul_free(blackListFileContent.deep_view())
                            &&& white_defaults_disjoint(defaultWhiteList.deep_view(), blackSet)
                            &&& list_file_nul_free(whiteListFileContent.deep_view())
                            &&& settingsFileContent.deep_view() matches Some(content)
                                && is_first_nul_error(
                                file_records(content, LINE_FEED),
                                record as int,
                                column as int,
                            )
                        }
                    },
                    FatalError::DefaultWhiteListedNameIsBlackListed { name } => {
                        &&& list_file_nul_free(blackListFileContent.deep_view())
                        &&& exists|k: int|
                            {
                                &&& 0 <= k < defaultWhiteList.deep_view().len()
                                &&& name@ == defaultWhiteList.deep_view()[k]
                                &&& blackSet.contains(#[trigger] defaultWhiteList.deep_view()[k])
                                &&& forall|j: int|
                                    0 <= j < k ==> !blackSet.contains(
                                        #[trigger] defaultWhiteList.deep_view()[j],
                                    )
                            }
                    },
                    FatalError::NoTabInSettingsRecord { record } => {
                        &&& list_file_nul_free(blackListFileContent.deep_view())
                        &&& white_defaults_disjoint(defaultWhiteList.deep_view(), blackSet)
                        &&& list_file_nul_free(whiteListFileContent.deep_view())
                        &&& settingsFileContent.deep_view() matches Some(content)
                            && records_nul_free(file_records(content, LINE_FEED))
                            && is_first_missing_tab(
                            file_records(content, LINE_FEED),
                            record as int,
                        )
                    },
                    _ => false,
                },
            }
        }),
{
    let ghost blackSet = black_names(defaultBlackList.deep_view(), blackListFileContent.deep_view());
    let mut blackList = BlackList::new(defaultBlackList);
    match &blackListFileContent {
        None => {},
        Some(content) => {
            proof {
                assert(content@ =~= content.deep_view());
            }
            match blackList.addToFromFile(content) {
                Ok(()) => {},
                Err(e) => {
                    return Err(e);
                },
            }
        },
    }
    proof {
        assert(blackList@ == blackSet);
    }
    let mut whiteList = match WhiteList::new(&blackList, defaultWhiteList) {
        Ok(whiteList) => whiteList,
        Err(e) => {
            return Err(e);
        },
    };
    let warnings = match &whiteListFileContent {
        None => Vec::new(),
        Some(content) => {
            proof {
                assert(content@ =~= content.deep_view());
            }
            match whiteList.addToFromFile(content) {
                Ok(warnings) => warnings,
                Err(e) => {
                    return Err(e);
                },
            }
        },
    };
    proof {
        assert(whiteList@ == white_names(
            defaultWhiteList.deep_view(),
            whiteListFileContent.deep_view(),
            blackSet,
        ));
    }
    let mut settingsList = SettingsList::new(defaultSettingsList);
    match &settingsFileContent {
        None => {},
        Some(content) => {
            proof {
                assert(content@ =~= content.deep_view());
            }
            match settingsList.addToFromFile(content) {
                Ok(()) => {},
                Err(e) => {
                    return Err(e);
                },
            }
        },
    }
    let filtered = whiteList.filterEnvironment(&environment);
    let finalEnvironment = settingsList.addSettingsToEnvironment(filtered);
    Ok((finalEnvironment, warnings))
}

} // verus!
