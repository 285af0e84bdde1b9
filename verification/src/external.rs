//! Outside types that the library's signatures carry.
use vstd::prelude::*;

verus! {

/// `std::path::PathBuf`, carried opaquely (a buffer's file path).
#[verifier::external_type_specification]
#[verifier::external_body]
pub struct ExPathBuf(std::path::PathBuf);

/// `anyhow::Error`, the error type of the fallible editing and plugin operations.
#[verifier::external_type_specification]
#[verifier::external_body]
pub struct ExAnyhowError(anyhow::Error);

} // verus!

verus! {

/// `regex::Regex`, a compiled regular expression.
#[verifier::external_type_specification]
#[verifier::external_body]
pub struct ExRegex(regex::Regex);

} // verus!

verus! {

/// `std::path::Path`, carried opaquely (a path given to the plugin loader).
#[verifier::external_type_specification]
#[verifier::external_body]
pub struct ExPath(std::path::Path);

} // verus!

verus! {

/// `<std::path::PathBuf as Clone>::clone`: nothing is claimed of the copy (a path is
/// opaque here).
pub assume_specification[ <std::path::PathBuf as Clone>::clone ](p: &std::path::PathBuf) -> std::path::PathBuf;

} // verus!
