//! The line-oriented record reader: a configuration file's content is a
//! sequence of records separated by a single delimiter byte. The delimiter is
//! excluded from each record; a trailing record after the final delimiter is
//! still yielded if non-empty. Every record is scanned once for an embedded
//! ASCII NUL byte, which is fatal.

use vstd::prelude::*;
use vstd::slice::slice_subrange;
use vstd::slice::slice_to_vec;
use crate::ASCII_NUL;
use crate::bytes::contains_byte;
use crate::bytes::find_byte;
use crate::bytes::first_index_of_byte;
use crate::bytes::lemma_first_index_of_byte;
use crate::error::FatalError;
use crate::error::FileKind;

verus! {

/// `s` split on every occurrence of `d`: one piece per split, the delimiter
/// excluded from each piece. A sequence with no delimiter is one piece, so
/// the result always holds at least one piece.
pub open spec fn split_bytes(s: Seq<u8>, d: u8) -> Seq<Seq<u8>>
    decreases s.len(),
{
    let i = first_index_of_byte(s, d);
    if 0 <= i < s.len() {
        seq![s.subrange(0, i)] + split_bytes(s.subrange(i + 1, s.len() as int), d)
    } else {
        seq![s]
    }
}

/// The records of a file's content: the split pieces, except that an empty
/// piece after the final delimiter is not a record. Empty content thus has no
/// records, and content ending in the delimiter has no trailing empty record.
pub open spec fn file_records(content: Seq<u8>, d: u8) -> Seq<Seq<u8>> {
    let pieces = split_bytes(content, d);
    if pieces.len() > 0 && pieces.last().len() == 0 {
        pieces.drop_last()
    } else {
        pieces
    }
}

/// The set of names that a sequence of whole records spells, one name per
/// record.
pub open spec fn names_in(rs: Seq<Seq<u8>>) -> Set<Seq<u8>> {
    Set::new(|n: Seq<u8>| rs.contains(n))
}

/// Extending a record sequence by one record extends its name set by that
/// one name.
pub proof fn lemma_names_in_take_step(rs: Seq<Seq<u8>>, i: int)
    requires
        0 <= i < rs.len(),
    ensures
        names_in(rs.take(i + 1)) == names_in(rs.take(i)).insert(rs[i]),
{
    assert forall|n: Seq<u8>| names_in(rs.take(i + 1)).contains(n) implies names_in(
        rs.take(i),
    ).insert(rs[i]).contains(n) by {
        let j = choose|j: int| 0 <= j < rs.take(i + 1).len() && #[trigger] rs.take(i + 1)[j] == n;
        if j < i {
            assert(rs.take(i)[j] == n);
        }
    }
    assert forall|n: Seq<u8>| names_in(rs.take(i)).insert(rs[i]).contains(n) implies names_in(
        rs.take(i + 1),
    ).contains(n) by {
        if names_in(rs.take(i)).contains(n) {
            let j = choose|j: int| 0 <= j < rs.take(i).len() && #[trigger] rs.take(i)[j] == n;
            assert(rs.take(i + 1)[j] == n);
        } else {
            assert(rs.take(i + 1)[i] == n);
        }
    }
    assert(names_in(rs.take(i + 1)) =~= names_in(rs.take(i)).insert(rs[i]));
}

/// The whole record sequence spells the same names as taking all of it.
pub proof fn lemma_names_in_take_all(rs: Seq<Seq<u8>>)
    ensures
        names_in(rs.take(rs.len() as int)) == names_in(rs),
{
    assert(rs.take(rs.len() as int) =~= rs);
}

/// The diagnostic of the first record that holds an ASCII NUL byte: `record`
/// is the index of the first offending record and `column` the offset of the
/// first NUL byte within it.
pub open spec fn is_first_nul_error(rs: Seq<Seq<u8>>, record: int, column: int) -> bool {
    &&& 0 <= record < rs.len()
    &&& contains_byte(rs[record], ASCII_NUL)
    &&& forall|j: int| 0 <= j < record ==> !contains_byte(rs[j], ASCII_NUL)
    &&& column == first_index_of_byte(rs[record], ASCII_NUL)
}

/// Whether no record holds an ASCII NUL byte.
pub open spec fn records_nul_free(rs: Seq<Seq<u8>>) -> bool {
    forall|k: int| 0 <= k < rs.len() ==> !contains_byte(rs[k], ASCII_NUL)
}

/// Splits `content` into the records that `file_records` names and scans each
/// one for an embedded ASCII NUL byte, which aborts the run with the file
/// kind, the zero-based record index and the byte offset.
pub fn readDelimitedRecords(kind: FileKind, content: &Vec<u8>, delimiter: u8) -> (r: Result<
    Vec<Vec<u8>>,
    FatalError,
>)
    ensures
        match r {
            Ok(records) => records.deep_view() == file_records(content@, delimiter)
                && records_nul_free(records.deep_view()),
            Err(e) => match e {
                FatalError::NulInRecord { kind: k, record, column } => k == kind
                    && is_first_nul_error(
                    file_records(content@, delimiter),
                    record as int,
                    column as int,
                ),
                _ => false,
            },
        },
{
    let length = content.len();
    let mut pieces: Vec<Vec<u8>> = Vec::new();
    let mut start: usize = 0;
    proof {
        assert(content@.subrange(0, length as int) =~= content@);
        assert(pieces.deep_view() + split_bytes(content@, delimiter) =~~= split_bytes(
            content@,
            delimiter,
        ));
    }
    loop
        invariant_except_break
            split_bytes(content@, delimiter) == pieces.deep_view() + split_bytes(
                content@.subrange(start as int, length as int),
                delimiter,
            ),
        invariant
            start <= length,
            length == content@.len(),
        ensures
            pieces.deep_view() == split_bytes(content@, delimiter),
        decreases length - start,
    {
        let tail = slice_subrange(content.as_slice(), start, length);
        let ghost tailSeq = content@.subrange(start as int, length as int);
        let ghost oldPieces = pieces.deep_view();
        proof {
            lemma_first_index_of_byte(tailSeq, delimiter);
        }
        match find_byte(tail, delimiter) {
            None => {
                pieces.push(slice_to_vec(tail));
                proof {
                    assert(pieces.deep_view() =~~= oldPieces.push(tailSeq));
                    assert(split_bytes(tailSeq, delimiter) =~~= seq![tailSeq]);
                    assert(pieces.deep_view() =~~= oldPieces + seq![tailSeq]);
                }
                break;
            },
            Some(i) => {
                pieces.push(slice_to_vec(slice_subrange(tail, 0, i)));
                proof {
                    assert(pieces.deep_view() =~~= oldPieces.push(tailSeq.subrange(0, i as int)));
                    assert(split_bytes(tailSeq, delimiter) == seq![
                        tailSeq.subrange(0, i as int),
                    ] + split_bytes(tailSeq.subrange(i + 1, tailSeq.len() as int), delimiter));
                    assert(tailSeq.subrange(i + 1, tailSeq.len() as int) =~= content@.subrange(
                        start + i + 1,
                        length as int,
                    ));
                    assert(pieces.deep_view() + split_bytes(
                        content@.subrange(start + i + 1, length as int),
                        delimiter,
                    ) =~~= (oldPieces + split_bytes(tailSeq, delimiter)));
                }
                start = start + i + 1;
            },
        }
    }
    if pieces.len() > 0 {
        let lastIndex = pieces.len() - 1;
        if pieces[lastIndex].len() == 0 {
            let ghost beforePop = pieces.deep_view();
            pieces.pop();
            proof {
                assert(pieces.deep_view() =~~= beforePop.drop_last());
            }
        }
    }
    assert(pieces.deep_view() == file_records(content@, delimiter));
    let mut k: usize = 0;
    while k < pieces.len()
        invariant
            0 <= k <= pieces.deep_view().len(),
            pieces.deep_view() == file_records(content@, delimiter),
            forall|j: int| 0 <= j < k ==> !contains_byte(pieces.deep_view()[j], ASCII_NUL),
        decreases pieces.deep_view().len() - k,
    {
        proof {
            assert(pieces.deep_view()[k as int] =~= pieces@[k as int]@);
        }
        match find_byte(pieces[k].as_slice(), ASCII_NUL) {
            Some(column) => {
                return Err(FatalError::NulInRecord { kind, record: k, column });
            },
            None => {},
        }
        k = k + 1;
    }
    Ok(pieces)
}

} // verus!
