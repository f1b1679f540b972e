//! The command line's decisions: what each command asks of the authority
//! service, how its flags read, and what it reports. Reading files, the
//! network and the terminal is left to the program around the library.
pub mod serve;
pub mod control;
pub mod adoption;
pub mod invocation;
pub mod describe;
pub mod declaration;
pub mod report;
pub mod integration;
pub mod journal;
pub mod cutover;

use vstd::prelude::*;
use crate::text::owned;

verus! {

#[derive(Debug, Clone, PartialEq, Eq)]
pub struct Output {
    pub text: String,
}

#[derive(Debug, Clone, PartialEq, Eq)]
pub struct CliError {
    pub message: String,
}

pub fn error(message: &str) -> (e: CliError)
    ensures
        e.message@ == message@,
{
    CliError { message: owned(message) }
}

pub fn error_owned(message: String) -> (e: CliError)
    ensures
        e.message == message,
{
    CliError { message }
}

} // verus!
