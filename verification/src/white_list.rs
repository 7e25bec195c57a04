//! Names permitted to pass through from the inherited environment if not
//! black-listed. A white list is always constructed against one black list:
//! a default name that is also black-listed is a fatal developer
//! misconfiguration, while a file-sourced name that is black-listed is only
//! warned about and dropped.

use vstd::prelude::*;
use vstd::slice::slice_to_vec;
use crate::LINE_FEED;
use crate::environment_map::EnvironmentMap;
use crate::error::FatalError;
use crate::error::FileKind;
use crate::records::file_records;
use crate::records::lemma_names_in_take_all;
use crate::records::lemma_names_in_take_step;
use crate::records::names_in;
use crate::records::readDelimitedRecords;
use crate::records::records_nul_free;
use crate::black_list::BlackList;
use crate::variable::EnvironmentVariable;

verus! {

/// The names of a record sequence that are not black-listed: what a
/// white-list file adds.
pub open spec fn names_in_not_black(rs: Seq<Seq<u8>>, black: Set<Seq<u8>>) -> Set<Seq<u8>> {
    Set::new(|n: Seq<u8>| rs.contains(n) && !black.contains(n))
}

/// The warnings a white-list file provokes: each black-listed record, as its
/// zero-based record index paired with the offending name, in record order.
pub open spec fn collisions(rs: Seq<Seq<u8>>, black: Set<Seq<u8>>) -> Seq<(int, Seq<u8>)>
    decreases rs.len(),
{
    if rs.len() == 0 {
        Seq::empty()
    } else {
        let front = collisions(rs.drop_last(), black);
        if black.contains(rs.last()) {
            front.push((rs.len() - 1, rs.last()))
        } else {
            front
        }
    }
}

/// Whether an executable warning list spells exactly the given collision
/// sequence.
pub open spec fn warnings_match(
    ws: Seq<(usize, EnvironmentVariable)>,
    cs: Seq<(int, Seq<u8>)>,
) -> bool {
    &&& ws.len() == cs.len()
    &&& forall|k: int|
        0 <= k < ws.len() ==> (#[trigger] ws[k]).0 as int == cs[k].0 && ws[k].1@ == cs[k].1
}

/// The filtered inherited environment: of the inherited entries, in order,
/// exactly those whose name is not black-listed and is white-listed; on a
/// repeated name the later entry wins.
pub open spec fn filtered_environment(
    env: Seq<(Seq<u8>, Seq<u8>)>,
    black: Set<Seq<u8>>,
    white: Set<Seq<u8>>,
) -> Map<Seq<u8>, Seq<u8>>
    decreases env.len(),
{
    if env.len() == 0 {
        Map::empty()
    } else {
        let front = filtered_environment(env.drop_last(), black, white);
        if !black.contains(env.last().0) && white.contains(env.last().0) {
            front.insert(env.last().0, env.last().1)
        } else {
            front
        }
    }
}

/// The set of white-listed names, together with the black list it was
/// constructed against.
#[derive(Debug)]
pub struct WhiteList {
    names: Vec<EnvironmentVariable>,
    blackList: BlackList,
}

impl View for WhiteList {
    type V = Set<Seq<u8>>;

    closed spec fn view(&self) -> Set<Seq<u8>> {
        names_in(self.names.deep_view())
    }
}

impl WhiteList {
    /// The black list this white list was constructed against.
    pub closed spec fn black(&self) -> Set<Seq<u8>> {
        self.blackList@
    }

    /// Seeds the white list with the built-in defaults, validated against the
    /// black list: a default that is already black-listed is a fatal
    /// configuration error naming the first offending identifier.
    pub fn new(blackList: &BlackList, defaultWhiteList: Vec<EnvironmentVariable>) -> (r: Result<
        WhiteList,
        FatalError,
    >)
        ensures
            match r {
                Ok(whiteList) => whiteList@ == names_in(defaultWhiteList.deep_view())
                    && whiteList.black() == blackList@ && (forall|i: int|
                    0 <= i < defaultWhiteList.deep_view().len() ==> !blackList@.contains(
                        #[trigger] defaultWhiteList.deep_view()[i],
                    )),
                Err(e) => e matches FatalError::DefaultWhiteListedNameIsBlackListed { name }
                    && (exists|k: int|
                    {
                        &&& 0 <= k < defaultWhiteList.deep_view().len()
                        &&& name@ == defaultWhiteList.deep_view()[k]
                        &&& blackList@.contains(#[trigger] defaultWhiteList.deep_view()[k])
                        &&& forall|j: int|
                            0 <= j < k ==> !blackList@.contains(
                                #[trigger] defaultWhiteList.deep_view()[j],
                            )
                    }),
            },
    {
        let ghost defaults = defaultWhiteList.deep_view();
        let mut whiteList = WhiteList { names: Vec::new(), blackList: blackList.clone() };
        proof {
            assert(whiteList.names.deep_view() =~~= Seq::<Seq<u8>>::empty());
            assert(whiteList@ =~= names_in(defaults.take(0)));
        }
        let mut i: usize = 0;
        while i < defaultWhiteList.len()
            invariant
                i <= defaultWhiteList@.len(),
                defaults == defaultWhiteList.deep_view(),
                whiteList@ == names_in(defaults.take(i as int)),
                whiteList.black() == blackList@,
                forall|j: int| 0 <= j < i ==> !blackList@.contains(#[trigger] defaults[j]),
            decreases defaultWhiteList@.len() - i,
        {
            let name = defaultWhiteList[i].clone();
            if whiteList.blackList.isBlackListed(&name) {
                proof {
                    assert(name@ == defaults[i as int]);
                    assert(blackList@.contains(defaults[i as int]));
                }
                return Err(FatalError::DefaultWhiteListedNameIsBlackListed { name });
            }
            whiteList.insert(name);
            proof {
                lemma_names_in_take_step(defaults, i as int);
            }
            i = i + 1;
        }
        proof {
            lemma_names_in_take_all(defaults);
        }
        Ok(whiteList)
    }

    /// Inserts one name; a name already present collapses silently.
    fn insert(&mut self, environmentVariableName: EnvironmentVariable)
        ensures
            final(self)@ == old(self)@.insert(environmentVariableName@),
            final(self).black() == old(self).black(),
    {
        let ghost before = self.names.deep_view();
        let ghost name = environmentVariableName@;
        self.names.push(environmentVariableName);
        proof {
            assert(self.names.deep_view() =~~= before.push(name));
            assert forall|n: Seq<u8>| names_in(before.push(name)).contains(n) implies names_in(
                before,
            ).insert(name).contains(n) by {
                let j = choose|j: int|
                    0 <= j < before.push(name).len() && #[trigger] before.push(name)[j] == n;
                if j < before.len() {
                    assert(before[j] == n);
                }
            }
            assert forall|n: Seq<u8>| names_in(before).insert(name).contains(n) implies names_in(
                before.push(name),
            ).contains(n) by {
                if names_in(before).contains(n) {
                    let j = choose|j: int| 0 <= j < before.len() && #[trigger] before[j] == n;
                    assert(before.push(name)[j] == n);
                } else {
                    assert(before.push(name)[before.len() as int] == n);
                }
            }
            assert(final(self)@ =~= old(self)@.insert(name));
        }
    }

    /// Extends the white list with one whole name per record of a white-list
    /// file's content, except that a black-listed record is dropped with a
    /// warning (record index and name) instead of being inserted.
    pub fn addToFromFile(&mut self, fileContent: &Vec<u8>) -> (r: Result<
        Vec<(usize, EnvironmentVariable)>,
        FatalError,
    >)
        ensures
            final(self).black() == old(self).black(),
            match r {
                Ok(warnings) => {
                    let rs = file_records(fileContent@, LINE_FEED);
                    &&& final(self)@ == old(self)@.union(names_in_not_black(rs, old(self).black()))
                    &&& warnings_match(warnings@, collisions(rs, old(self).black()))
                    &&& records_nul_free(rs)
                },
                Err(e) => final(self)@ == old(self)@ && (e matches FatalError::NulInRecord {
                    kind,
                    record,
                    column,
                } && kind == FileKind::White && crate::records::is_first_nul_error(
                    file_records(fileContent@, LINE_FEED),
                    record as int,
                    column as int,
                )),
            },
    {
        let records = match readDelimitedRecords(FileKind::White, fileContent, LINE_FEED) {
            Ok(records) => records,
            Err(e) => {
                return Err(e);
            },
        };
        let ghost rs = records.deep_view();
        let ghost black = self.black();
        let mut warnings: Vec<(usize, EnvironmentVariable)> = Vec::new();
        proof {
            assert(rs.take(0) =~~= Seq::<Seq<u8>>::empty());
            assert(self@ =~= old(self)@.union(names_in_not_black(rs.take(0), black)));
        }
        let mut k: usize = 0;
        while k < records.len()
            invariant
                k <= records@.len(),
                rs == records.deep_view(),
                black == old(self).black(),
                self.black() == old(self).black(),
                self@ == old(self)@.union(names_in_not_black(rs.take(k as int), black)),
                warnings_match(warnings@, collisions(rs.take(k as int), black)),
            decreases records@.len() - k,
        {
            let name = EnvironmentVariable::fromRawBytesWithoutADelimiter(
                slice_to_vec(records[k].as_slice()),
            );
            proof {
                assert(name@ =~= rs[k as int]);
                assert(rs.take(k + 1).drop_last() =~~= rs.take(k as int));
                assert(rs.take(k + 1).last() == rs[k as int]);
            }
            if self.blackList.isBlackListed(&name) {
                warnings.push((k, name));
                proof {
                    assert(collisions(rs.take(k + 1), black) =~= collisions(
                        rs.take(k as int),
                        black,
                    ).push((k as int, rs[k as int])));
                    assert(self@ =~= old(self)@.union(names_in_not_black(rs.take(k + 1), black)))
                        by {
                        assert forall|n: Seq<u8>|
                            names_in_not_black(rs.take(k + 1), black).contains(n)
                                == names_in_not_black(rs.take(k as int), black).contains(n) by {
                            if rs.take(k + 1).contains(n) && !black.contains(n) {
                                let j = choose|j: int|
                                    0 <= j < rs.take(k + 1).len() && #[trigger] rs.take(k + 1)[j]
                                        == n;
                                if j < k {
                                    assert(rs.take(k as int)[j] == n);
                                } else {
                                    assert(n == rs[k as int]);
                                }
                            }
                            if rs.take(k as int).contains(n) {
                                let j = choose|j: int|
                                    0 <= j < rs.take(k as int).len() && #[trigger] rs.take(
                                        k as int,
                                    )[j] == n;
                                assert(rs.take(k + 1)[j] == n);
                            }
                        }
                        assert(names_in_not_black(rs.take(k + 1), black) =~= names_in_not_black(
                            rs.take(k as int),
                            black,
                        ));
                    }
                }
            } else {
                self.insert(name);
                proof {
                    assert(collisions(rs.take(k + 1), black) =~= collisions(
                        rs.take(k as int),
                        black,
                    ));
                    assert(self@ =~= old(self)@.union(names_in_not_black(rs.take(k + 1), black)))
                        by {
                        assert forall|n: Seq<u8>|
                            names_in_not_black(rs.take(k + 1), black).contains(n)
                                == names_in_not_black(rs.take(k as int), black).insert(
                                rs[k as int],
                            ).contains(n) by {
                            if rs.take(k + 1).contains(n) && !black.contains(n) {
                                let j = choose|j: int|
                                    0 <= j < rs.take(k + 1).len() && #[trigger] rs.take(k + 1)[j]
                                        == n;
                                if j < k {
                                    assert(rs.take(k as int)[j] == n);
                                }
                            }
                            if rs.take(k as int).contains(n) {
                                let j = choose|j: int|
                                    0 <= j < rs.take(k as int).len() && #[trigger] rs.take(
                                        k as int,
                                    )[j] == n;
                                assert(rs.take(k + 1)[j] == n);
                            }
                            if n == rs[k as int] {
                                assert(rs.take(k + 1)[k as int] == n);
                            }
                        }
                        assert(names_in_not_black(rs.take(k + 1), black) =~= names_in_not_black(
                            rs.take(k as int),
                            black,
                        ).insert(rs[k as int]));
                    }
                }
            }
            k = k + 1;
        }
        proof {
            assert(rs.take(rs.len() as int) =~~= rs);
        }
        Ok(warnings)
    }

    /// Whether the name may pass through from the inherited environment.
    pub fn isWhiteListed(&self, environmentVariableName: &EnvironmentVariable) -> (r: bool)
        ensures
            r == self@.contains(environmentVariableName@),
    {
        let mut i: usize = 0;
        while i < self.names.len()
            invariant
                i <= self.names@.len(),
                forall|j: int|
                    0 <= j < i ==> (#[trigger] self.names.deep_view()[j])
                        != environmentVariableName@,
            decreases self.names@.len() - i,
        {
            if crate::bytes::bytes_equal(
                self.names[i].asRawBytes().as_slice(),
                environmentVariableName.asRawBytes().as_slice(),
            ) {
                proof {
                    assert(self.names.deep_view()[i as int] == environmentVariableName@);
                }
                return true;
            }
            i = i + 1;
        }
        false
    }

    /// Filters a snapshot of the inherited environment: an entry is retained
    /// exactly when its name is not black-listed and is white-listed. Both
    /// checks are required; the black list takes logical precedence in that a
    /// name in both sets is always excluded.
    pub fn filterEnvironment(&self, environment: &Vec<(EnvironmentVariable, Vec<u8>)>) -> (r:
        EnvironmentMap)
        ensures
            r@ == filtered_environment(environment.deep_view(), self.black(), self@),
    {
        let ghost env = environment.deep_view();
        let mut filtered = EnvironmentMap::new();
        proof {
            assert(env.take(0) =~~= Seq::<(Seq<u8>, Seq<u8>)>::empty());
            assert(filtered@ =~= filtered_environment(env.take(0), self.black(), self@));
        }
        let mut k: usize = 0;
        while k < environment.len()
            invariant
                k <= environment@.len(),
                env == environment.deep_view(),
                filtered@ == filtered_environment(env.take(k as int), self.black(), self@),
            decreases environment@.len() - k,
        {
            let name = &environment[k].0;
            proof {
                assert(env.take(k + 1).drop_last() =~~= env.take(k as int));
                assert(env.take(k + 1).last() == env[k as int]);
                assert(name@ == env[k as int].0);
            }
            if self.blackList.isNotBlackListed(name) && self.isWhiteListed(name) {
                let value = slice_to_vec(environment[k].1.as_slice());
                proof {
                    assert(value@ =~= env[k as int].1);
                }
                filtered.insert(name.clone(), value);
            }
            proof {
                assert(filtered@ =~= filtered_environment(env.take(k + 1), self.black(), self@));
            }
            k = k + 1;
        }
        proof {
            assert(env.take(env.len() as int) =~~= env);
        }
        filtered
    }
}

} // verus!
