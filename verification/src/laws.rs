//! The guarantees that relate the pipeline's pieces: what filtering promises
//! about black- and white-listed names, that settings bypass both lists, and
//! that a file-sourced setting overrides a default with the same name.

use vstd::prelude::*;
use crate::TAB;
use crate::bytes::contains_byte;
use crate::bytes::first_index_of_byte;
use crate::bytes::lemma_first_index_of_byte;
use crate::records::file_records;
use crate::records::split_bytes;
use crate::settings_list::apply_settings_records;
use crate::settings_list::parsed_name;
use crate::settings_list::parsed_value;
use crate::white_list::filtered_environment;

verus! {

/// A list file's content written from the given records: the records joined
/// by single delimiter bytes.
pub open spec fn joined_records(names: Seq<Seq<u8>>, d: u8) -> Seq<u8>
    decreases names.len(),
{
    if names.len() == 0 {
        Seq::empty()
    } else if names.len() == 1 {
        names[0]
    } else {
        names[0] + seq![d] + joined_records(names.drop_first(), d)
    }
}

proof fn lemma_split_joined(names: Seq<Seq<u8>>, d: u8)
    requires
        names.len() > 0,
        forall|i: int| 0 <= i < names.len() ==> (#[trigger] names[i]).len() > 0,
        forall|i: int| 0 <= i < names.len() ==> !contains_byte(#[trigger] names[i], d),
    ensures
        split_bytes(joined_records(names, d), d) == names,
    decreases names.len(),
{
    let joined = joined_records(names, d);
    lemma_first_index_of_byte(joined, d);
    if names.len() == 1 {
        assert(first_index_of_byte(joined, d) == joined.len()) by {
            if first_index_of_byte(joined, d) < joined.len() {
                assert(contains_byte(names[0], d));
            }
        }
        assert(split_bytes(joined, d) =~~= seq![names[0]]);
    } else {
        let head = names[0];
        let rest = joined_records(names.drop_first(), d);
        assert(joined == head + seq![d] + rest);
        assert(first_index_of_byte(joined, d) == head.len()) by {
            assert(joined[head.len() as int] == d);
            if first_index_of_byte(joined, d) < head.len() {
                assert(joined[first_index_of_byte(joined, d)] == head[first_index_of_byte(
                    joined,
                    d,
                )]);
                assert(contains_byte(head, d));
            }
        }
        assert(joined.subrange(0, head.len() as int) =~= head);
        assert(joined.subrange(head.len() as int + 1, joined.len() as int) =~= rest);
        assert forall|i: int| 0 <= i < names.drop_first().len() implies (
        #[trigger] names.drop_first()[i]).len() > 0 && !contains_byte(
            names.drop_first()[i],
            d,
        ) by {
            assert(names[i + 1].len() > 0);
            assert(!contains_byte(names[i + 1], d));
        }
        lemma_split_joined(names.drop_first(), d);
        assert(split_bytes(joined, d) =~~= seq![head] + names.drop_first());
        assert(seq![head] + names.drop_first() =~~= names);
    }
}

/// Round trip: a list file written from any records that are non-empty and
/// free of the delimiter byte reads back as exactly those records.
pub proof fn lemma_list_file_round_trip(names: Seq<Seq<u8>>, d: u8)
    requires
        forall|i: int| 0 <= i < names.len() ==> (#[trigger] names[i]).len() > 0,
        forall|i: int| 0 <= i < names.len() ==> !contains_byte(#[trigger] names[i], d),
    ensures
        file_records(joined_records(names, d), d) == names,
{
    if names.len() == 0 {
        let joined = joined_records(names, d);
        lemma_first_index_of_byte(joined, d);
        assert(split_bytes(joined, d) =~~= seq![Seq::<u8>::empty()]);
        assert(file_records(joined, d) =~~= names);
    } else {
        lemma_split_joined(names, d);
        assert(split_bytes(joined_records(names, d), d).last().len() > 0);
    }
}

/// For disjoint black and white lists, the filtered environment never holds
/// an entry under a black-listed name, and holds an entry under a
/// white-listed (and not black-listed) name exactly when the inherited
/// environment had one.
pub proof fn lemma_filter_honours_lists(
    env: Seq<(Seq<u8>, Seq<u8>)>,
    black: Set<Seq<u8>>,
    white: Set<Seq<u8>>,
    blackName: Seq<u8>,
    whiteName: Seq<u8>,
)
    requires
        black.contains(blackName),
        white.contains(whiteName),
        !black.contains(whiteName),
    ensures
        !filtered_environment(env, black, white).dom().contains(blackName),
        filtered_environment(env, black, white).dom().contains(whiteName) <==> (exists|i: int|
            0 <= i < env.len() && (#[trigger] env[i]).0 == whiteName),
    decreases env.len(),
{
    if env.len() > 0 {
        lemma_filter_honours_lists(env.drop_last(), black, white, blackName, whiteName);
        let last = env.len() - 1;
        if filtered_environment(env, black, white).dom().contains(whiteName) {
            if !(!black.contains(env[last].0) && white.contains(env[last].0) && env[last].0
                == whiteName) {
                let i = choose|i: int|
                    0 <= i < env.drop_last().len() && (#[trigger] env.drop_last()[i]).0
                        == whiteName;
                assert(env[i].0 == whiteName);
            }
        }
        if exists|i: int| 0 <= i < env.len() && (#[trigger] env[i]).0 == whiteName {
            let i = choose|i: int| 0 <= i < env.len() && (#[trigger] env[i]).0 == whiteName;
            if i < last {
                assert(env.drop_last()[i].0 == whiteName);
            }
        }
    }
}

/// A settings entry always reaches the final environment, under its own
/// value, whatever the black and white lists held: the overlay prefers the
/// settings side.
pub proof fn lemma_settings_bypass_lists(
    filtered: Map<Seq<u8>, Seq<u8>>,
    settings: Map<Seq<u8>, Seq<u8>>,
    name: Seq<u8>,
)
    requires
        settings.dom().contains(name),
    ensures
        filtered.union_prefer_right(settings).dom().contains(name),
        filtered.union_prefer_right(settings)[name] == settings[name],
{
}

/// Applying a settings file is last-applied-wins: the record that names a
/// setting last — a default for the same name included — decides its value.
pub proof fn lemma_file_settings_override_defaults(
    defaults: Map<Seq<u8>, Seq<u8>>,
    rs: Seq<Seq<u8>>,
    k: int,
)
    requires
        0 <= k < rs.len(),
        rs[k].len() > 0,
        contains_byte(rs[k], TAB),
        forall|j: int|
            k < j < rs.len() ==> (#[trigger] rs[j]).len() == 0 || parsed_name(rs[j])
                != parsed_name(rs[k]),
    ensures
        apply_settings_records(defaults, rs).dom().contains(parsed_name(rs[k])),
        apply_settings_records(defaults, rs)[parsed_name(rs[k])] == parsed_value(rs[k]),
    decreases rs.len(),
{
    let last = rs.len() - 1;
    if k == last {
    } else {
        assert(rs.drop_last()[k] == rs[k]);
        assert forall|j: int|
            k < j < rs.drop_last().len() implies (#[trigger] rs.drop_last()[j]).len() == 0
            || parsed_name(rs.drop_last()[j]) != parsed_name(rs.drop_last()[k]) by {
            assert(rs[j].len() == 0 || parsed_name(rs[j]) != parsed_name(rs[k]));
        }
        lemma_file_settings_override_defaults(defaults, rs.drop_last(), k);
        assert(rs[last].len() == 0 || parsed_name(rs[last]) != parsed_name(rs[k]));
    }
}

} // verus!
