//! A process-launching wrapper's environment-sanitising core: black and white
//! lists of environment-variable names, forced settings, a line-oriented
//! configuration-record reader, and the merge that produces the final
//! environment handed to the launched program.
#![allow(non_snake_case)]

pub mod black_list;
pub mod bytes;
pub mod cli;
pub mod defaults;
pub mod driver;
pub mod environment_map;
pub mod error;
pub mod laws;
pub mod records;
pub mod settings_list;
pub mod variable;
pub mod white_list;

use vstd::prelude::*;

verus! {

/// The byte that separates records in every configuration file.
pub const LINE_FEED: u8 = 0x0a;

/// The byte that no record may contain.
pub const ASCII_NUL: u8 = 0x00;

/// The byte that separates a name from its value in a settings record.
pub const TAB: u8 = 0x09;

/// The path-separator byte that a bare program name may not contain.
pub const SLASH: u8 = 0x2f;

} // verus!
