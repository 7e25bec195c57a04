use environment_sanity::cli::parseCommandLineArguments;
use environment_sanity::error::FatalError;

fn args(list: &[&[u8]]) -> Vec<Vec<u8>> {
    list.iter().map(|a| a.to_vec()).collect()
}

#[test]
fn zero_positional_arguments_is_a_fatal_usage_error() {
    let result = parseCommandLineArguments(args(&[b"environment-sanity"]));
    assert!(matches!(result, Err(FatalError::NoProgramName)));
}

#[test]
fn no_arguments_at_all_is_a_fatal_usage_error() {
    let result = parseCommandLineArguments(args(&[]));
    assert!(matches!(result, Err(FatalError::NoProgramName)));
}

#[test]
fn program_name_and_arguments_pass_through() {
    let (program, rest) =
        parseCommandLineArguments(args(&[b"environment-sanity", b"ls", b"-la"])).unwrap();
    assert_eq!(program, b"ls".to_vec());
    assert_eq!(rest, vec![b"-la".to_vec()]);
}

#[test]
fn program_name_alone_leaves_an_empty_argument_vector() {
    let (program, rest) =
        parseCommandLineArguments(args(&[b"environment-sanity", b"ls"])).unwrap();
    assert_eq!(program, b"ls".to_vec());
    assert!(rest.is_empty());
}

#[test]
fn empty_program_name_is_fatal() {
    let result = parseCommandLineArguments(args(&[b"environment-sanity", b""]));
    assert!(matches!(result, Err(FatalError::EmptyProgramName)));
}

#[test]
fn program_name_with_a_slash_is_fatal() {
    let result = parseCommandLineArguments(args(&[b"environment-sanity", b"/bin/ls"]));
    assert!(matches!(result, Err(FatalError::ProgramNameIsAPath)));
}
