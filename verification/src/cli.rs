//! The wrapper's own command-line surface: positional arguments only. The
//! first argument names the wrapper itself; the second is the bare name of
//! the program to invoke — non-empty and without a path-separator byte — and
//! everything after it passes through verbatim as that program's argument
//! vector.

use vstd::prelude::*;
use crate::SLASH;
use crate::bytes::contains_byte;
use crate::bytes::find_byte;
use crate::error::FatalError;

verus! {

/// Splits the raw argument vector, the wrapper's own name included, into the
/// program to invoke and its verbatim argument vector. Supplying no program
/// name, an empty one, or one holding a path-separator byte is a fatal usage
/// error.
pub fn parseCommandLineArguments(arguments: Vec<Vec<u8>>) -> (r: Result<
    (Vec<u8>, Vec<Vec<u8>>),
    FatalError,
>)
    ensures
        match r {
            Ok((programName, outputArguments)) => {
                &&& arguments.deep_view().len() >= 2
                &&& programName.deep_view() == arguments.deep_view()[1]
                &&& programName.deep_view().len() > 0
                &&& !contains_byte(programName.deep_view(), SLASH)
                &&& outputArguments.deep_view() == arguments.deep_view().skip(2)
            },
            Err(e) => match e {
                FatalError::NoProgramName => arguments.deep_view().len() < 2,
                FatalError::EmptyProgramName => arguments.deep_view().len() >= 2
                    && arguments.deep_view()[1].len() == 0,
                FatalError::ProgramNameIsAPath => arguments.deep_view().len() >= 2
                    && arguments.deep_view()[1].len() > 0 && contains_byte(
                    arguments.deep_view()[1],
                    SLASH,
                ),
                _ => false,
            },
        },
{
    let ghost argSeq = arguments.deep_view();
    let mut arguments = arguments;
    if arguments.len() < 2 {
        return Err(FatalError::NoProgramName);
    }
    let mut outputArguments = arguments.split_off(2);
    proof {
        assert(outputArguments.deep_view() =~~= argSeq.skip(2));
    }
    let programName = match arguments.pop() {
        Some(programName) => programName,
        None => {
            proof {
                assert(false);
            }
            Vec::new()
        },
    };
    proof {
        assert(programName@ =~= argSeq[1]);
        assert(programName.deep_view() =~= argSeq[1]);
    }
    if programName.len() == 0 {
        return Err(FatalError::EmptyProgramName);
    }
    if find_byte(programName.as_slice(), SLASH).is_some() {
        return Err(FatalError::ProgramNameIsAPath);
    }
    Ok((programName, outputArguments))
}

} // verus!
