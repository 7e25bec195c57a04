//! Forced name/value overrides, applied after filtering and therefore
//! bypassing both the black and the white list. A settings file holds one
//! `name<TAB>value` pair per record: the first tab byte is the separator and
//! any further tab belongs to the value. A file-sourced entry overwrites a
//! default entry with the same name.

use vstd::prelude::*;
use vstd::slice::slice_subrange;
use vstd::slice::slice_to_vec;
use crate::LINE_FEED;
use crate::TAB;
use crate::bytes::contains_byte;
use crate::bytes::find_byte;
use crate::bytes::first_index_of_byte;
use crate::bytes::lemma_first_index_of_byte;
use crate::environment_map::EnvironmentMap;
use crate::error::FatalError;
use crate::error::FileKind;
use crate::records::file_records;
use crate::records::is_first_nul_error;
use crate::records::readDelimitedRecords;
use crate::records::records_nul_free;
use crate::variable::EnvironmentVariable;

verus! {

/// The name of a settings record: the bytes before its first tab.
pub open spec fn parsed_name(record: Seq<u8>) -> Seq<u8> {
    record.subrange(0, first_index_of_byte(record, TAB))
}

/// The value of a settings record: the bytes after its first tab.
pub open spec fn parsed_value(record: Seq<u8>) -> Seq<u8> {
    record.subrange(first_index_of_byte(record, TAB) + 1, record.len() as int)
}

/// Whether every non-empty settings record holds a tab separator.
pub open spec fn settings_records_well_formed(rs: Seq<Seq<u8>>) -> bool {
    forall|k: int| 0 <= k < rs.len() ==> (#[trigger] rs[k]).len() == 0 || contains_byte(rs[k], TAB)
}

/// The diagnostic of the first non-empty record without a tab separator.
pub open spec fn is_first_missing_tab(rs: Seq<Seq<u8>>, record: int) -> bool {
    &&& 0 <= record < rs.len()
    &&& rs[record].len() > 0
    &&& !contains_byte(rs[record], TAB)
    &&& forall|j: int|
        0 <= j < record ==> (#[trigger] rs[j]).len() == 0 || contains_byte(rs[j], TAB)
}

/// The mapping after applying a settings file's records in order: an empty
/// record changes nothing, and every other record inserts its name and
/// value, overwriting any earlier entry — a default included.
pub open spec fn apply_settings_records(
    m: Map<Seq<u8>, Seq<u8>>,
    rs: Seq<Seq<u8>>,
) -> Map<Seq<u8>, Seq<u8>>
    decreases rs.len(),
{
    if rs.len() == 0 {
        m
    } else {
        let front = apply_settings_records(m, rs.drop_last());
        if rs.last().len() == 0 {
            front
        } else {
            front.insert(parsed_name(rs.last()), parsed_value(rs.last()))
        }
    }
}

/// The forced settings: a mapping from name to value, seeded with computed
/// per-program defaults and optionally extended from a file.
#[derive(Debug)]
pub struct SettingsList {
    settings: EnvironmentMap,
}

impl View for SettingsList {
    type V = Map<Seq<u8>, Seq<u8>>;

    closed spec fn view(&self) -> Map<Seq<u8>, Seq<u8>> {
        self.settings@
    }
}

impl SettingsList {
    /// Seeds the settings list with the computed per-program defaults.
    pub fn new(defaultSettingsList: EnvironmentMap) -> (r: Self)
        ensures
            r@ == defaultSettingsList@,
    {
        SettingsList { settings: defaultSettingsList }
    }

    /// Overlays every settings entry onto `environment`, inserting or
    /// overwriting; this final step has no awareness of black or white lists.
    pub fn addSettingsToEnvironment(self, environment: EnvironmentMap) -> (r: EnvironmentMap)
        ensures
            r@ == environment@.union_prefer_right(self@),
    {
        self.settings.overlayOnto(environment)
    }

    /// Extends the settings from a settings file's content: each non-empty
    /// record is split at its first tab into a name and a value; a non-empty
    /// record without a tab aborts the run, naming the record.
    pub fn addToFromFile(&mut self, fileContent: &Vec<u8>) -> (r: Result<(), FatalError>)
        ensures
            match r {
                Ok(()) => {
                    let rs = file_records(fileContent@, LINE_FEED);
                    &&& final(self)@ == apply_settings_records(old(self)@, rs)
                    &&& records_nul_free(rs)
                    &&& settings_records_well_formed(rs)
                },
                Err(e) => {
                    let rs = file_records(fileContent@, LINE_FEED);
                    &&& final(self)@ == old(self)@
                    &&& match e {
                        FatalError::NulInRecord { kind, record, column } => kind
                            == FileKind::Settings && is_first_nul_error(
                            rs,
                            record as int,
                            column as int,
                        ),
                        FatalError::NoTabInSettingsRecord { record } => records_nul_free(rs)
                            && is_first_missing_tab(rs, record as int),
                        _ => false,
                    }
                },
            },
    {
        let records = match readDelimitedRecords(FileKind::Settings, fileContent, LINE_FEED) {
            Ok(records) => records,
            Err(e) => {
                return Err(e);
            },
        };
        let ghost rs = records.deep_view();
        let mut k: usize = 0;
        while k < records.len()
            invariant
                k <= records@.len(),
                rs == records.deep_view(),
                rs == file_records(fileContent@, LINE_FEED),
                records_nul_free(rs),
                forall|j: int|
                    0 <= j < k ==> (#[trigger] rs[j]).len() == 0 || contains_byte(rs[j], TAB),
            decreases records@.len() - k,
        {
            proof {
                assert(records@[k as int]@ =~= rs[k as int]);
            }
            if records[k].len() > 0 {
                if find_byte(records[k].as_slice(), TAB).is_none() {
                    return Err(FatalError::NoTabInSettingsRecord { record: k });
                }
            }
            k = k + 1;
        }
        let ghost beforeMap = self@;
        proof {
            assert(rs.take(0) =~~= Seq::<Seq<u8>>::empty());
        }
        let mut k: usize = 0;
        while k < records.len()
            invariant
                k <= records@.len(),
                rs == records.deep_view(),
                settings_records_well_formed(rs),
                beforeMap == old(self)@,
                self@ == apply_settings_records(beforeMap, rs.take(k as int)),
            decreases records@.len() - k,
        {
            let record = records[k].as_slice();
            proof {
                assert(record@ =~= rs[k as int]);
                assert(rs.take(k + 1).drop_last() =~~= rs.take(k as int));
                assert(rs.take(k + 1).last() == rs[k as int]);
                lemma_first_index_of_byte(record@, TAB);
            }
            if record.len() > 0 {
                match find_byte(record, TAB) {
                    None => {
                        proof {
                            assert(contains_byte(rs[k as int], TAB));
                            assert(false);
                        }
                    },
                    Some(tabIndex) => {
                        let name = EnvironmentVariable::fromRawBytesWithoutADelimiter(
                            slice_to_vec(slice_subrange(record, 0, tabIndex)),
                        );
                        let value = slice_to_vec(
                            slice_subrange(record, tabIndex + 1, record.len()),
                        );
                        proof {
                            assert(name@ == parsed_name(rs[k as int]));
                            assert(value@ == parsed_value(rs[k as int]));
                        }
                        self.settings.insert(name, value);
                    },
                }
            }
            proof {
                assert(self@ == apply_settings_records(beforeMap, rs.take(k + 1)));
            }
            k = k + 1;
        }
        proof {
            assert(rs.take(rs.len() as int) =~~= rs);
        }
        Ok(())
    }
}

} // verus!
