//! Names that must never reach the launched program's environment.
//! Membership is monotonic: once a name is inserted, from the built-in
//! defaults or from a file, it is never removed within a run.

use vstd::prelude::*;
use crate::LINE_FEED;
use crate::error::FatalError;
use crate::error::FileKind;
use crate::records::file_records;
use crate::records::lemma_names_in_take_all;
use crate::records::lemma_names_in_take_step;
use crate::records::names_in;
use crate::records::readDelimitedRecords;
use crate::records::records_nul_free;
use crate::variable::EnvironmentVariable;

verus! {

/// The set of black-listed names.
#[derive(Debug)]
pub struct BlackList {
    names: Vec<EnvironmentVariable>,
}

impl View for BlackList {
    type V = Set<Seq<u8>>;

    closed spec fn view(&self) -> Set<Seq<u8>> {
        names_in(self.names.deep_view())
    }
}

impl BlackList {
    /// Seeds the black list with the built-in defaults; a repeated name
    /// collapses silently.
    pub fn new(defaultBlackList: Vec<EnvironmentVariable>) -> (r: Self)
        ensures
            r@ == names_in(defaultBlackList.deep_view()),
    {
        let ghost defaults = defaultBlackList.deep_view();
        let mut blackList = BlackList { names: Vec::new() };
        proof {
            assert(blackList.names.deep_view() =~~= Seq::<Seq<u8>>::empty());
            assert(blackList@ =~= names_in(defaults.take(0)));
        }
        let mut i: usize = 0;
        while i < defaultBlackList.len()
            invariant
                i <= defaultBlackList@.len(),
                defaults == defaultBlackList.deep_view(),
                blackList@ == names_in(defaults.take(i as int)),
            decreases defaultBlackList@.len() - i,
        {
            blackList.insert(defaultBlackList[i].clone());
            proof {
                lemma_names_in_take_step(defaults, i as int);
            }
            i = i + 1;
        }
        proof {
            lemma_names_in_take_all(defaults);
        }
        blackList
    }

    /// Inserts one name; a name already present collapses silently.
    fn insert(&mut self, environmentVariableName: EnvironmentVariable)
        ensures
            final(self)@ == old(self)@.insert(environmentVariableName@),
    {
        let ghost before = self.names.deep_view();
        let ghost name = environmentVariableName@;
        self.names.push(environmentVariableName);
        proof {
            assert(self.names.deep_view() =~~= before.push(name));
            assert forall|n: Seq<u8>| names_in(before.push(name)).contains(n) implies names_in(
                before,
            ).insert(name).contains(n) by {
                let j = choose|j: int|
                    0 <= j < before.push(name).len() && #[trigger] before.push(name)[j] == n;
                if j < before.len() {
                    assert(before[j] == n);
                }
            }
            assert forall|n: Seq<u8>| names_in(before).insert(name).contains(n) implies names_in(
                before.push(name),
            ).contains(n) by {
                if names_in(before).contains(n) {
                    let j = choose|j: int| 0 <= j < before.len() && #[trigger] before[j] == n;
                    assert(before.push(name)[j] == n);
                } else {
                    assert(before.push(name)[before.len() as int] == n);
                }
            }
            assert(final(self)@ =~= old(self)@.insert(name));
        }
    }

    /// Extends the black list with one whole name per record of a
    /// black-list file's content.
    pub fn addToFromFile(&mut self, fileContent: &Vec<u8>) -> (r: Result<(), FatalError>)
        ensures
            match r {
                Ok(()) => {
                    let rs = file_records(fileContent@, LINE_FEED);
                    final(self)@ == old(self)@.union(names_in(rs)) && records_nul_free(rs)
                },
                Err(e) => final(self)@ == old(self)@ && (e matches FatalError::NulInRecord {
                    kind,
                    record,
                    column,
                } && kind == FileKind::Black && crate::records::is_first_nul_error(
                    file_records(fileContent@, LINE_FEED),
                    record as int,
                    column as int,
                )),
            },
    {
        let records = match readDelimitedRecords(FileKind::Black, fileContent, LINE_FEED) {
            Ok(records) => records,
            Err(e) => {
                return Err(e);
            },
        };
        let ghost rs = records.deep_view();
        proof {
            assert(self@ =~= old(self)@.union(names_in(rs.take(0))));
        }
        let mut k: usize = 0;
        while k < records.len()
            invariant
                k <= records@.len(),
                rs == records.deep_view(),
                self@ == old(self)@.union(names_in(rs.take(k as int))),
            decreases records@.len() - k,
        {
            let name = EnvironmentVariable::fromRawBytesWithoutADelimiter(
                vstd::slice::slice_to_vec(records[k].as_slice()),
            );
            proof {
                assert(name@ =~= rs[k as int]);
            }
            self.insert(name);
            proof {
                lemma_names_in_take_step(rs, k as int);
                assert(self@ =~= old(self)@.union(names_in(rs.take(k + 1))));
            }
            k = k + 1;
        }
        proof {
            lemma_names_in_take_all(rs);
        }
        Ok(())
    }

    /// Whether the name must be kept out of the output environment.
    pub fn isBlackListed(&self, environmentVariableName: &EnvironmentVariable) -> (r: bool)
        ensures
            r == self@.contains(environmentVariableName@),
    {
        let mut i: usize = 0;
        while i < self.names.len()
            invariant
                i <= self.names@.len(),
                forall|j: int|
                    0 <= j < i ==> (#[trigger] self.names.deep_view()[j])
                        != environmentVariableName@,
            decreases self.names@.len() - i,
        {
            if crate::bytes::bytes_equal(
                self.names[i].asRawBytes().as_slice(),
                environmentVariableName.asRawBytes().as_slice(),
            ) {
                proof {
                    assert(self.names.deep_view()[i as int] == environmentVariableName@);
                }
                return true;
            }
            i = i + 1;
        }
        false
    }

    /// The complement test, for reading filter conditions directly.
    pub fn isNotBlackListed(&self, environmentVariableName: &EnvironmentVariable) -> (r: bool)
        ensures
            r == !self@.contains(environmentVariableName@),
    {
        !self.isBlackListed(environmentVariableName)
    }
}

impl Clone for BlackList {
    fn clone(&self) -> (r: Self)
        ensures
            r@ == self@,
    {
        let mut names: Vec<EnvironmentVariable> = Vec::new();
        let mut i: usize = 0;
        while i < self.names.len()
            invariant
                i <= self.names@.len(),
                names.deep_view() == self.names.deep_view().take(i as int),
            decreases self.names@.len() - i,
        {
            let ghost before = names.deep_view();
            names.push(self.names[i].clone());
            proof {
                assert(names.deep_view() =~~= before.push(self.names.deep_view()[i as int]));
                assert(names.deep_view() =~~= self.names.deep_view().take(i + 1));
            }
            i = i + 1;
        }
        proof {
            assert(names.deep_view() =~~= self.names.deep_view());
        }
        BlackList { names }
    }
}

} // verus!
