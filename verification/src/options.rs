//! The settings of one run.

use crate::fields::Field;
use std::path::PathBuf;
use vstd::prelude::*;

verus! {

/// `std::path::PathBuf`, which is handed on and never looked into here.
#[verifier::external_type_specification]
#[verifier::external_body]
pub struct ExPathBuf(PathBuf);

/// `Clone` of `PathBuf`: the copy is the same path.
pub assume_specification[ <PathBuf as Clone>::clone ](path: &PathBuf) -> (r: PathBuf)
    ensures
        r == *path,
;

/// What the caller asked for: where to look, what to show and how.
pub struct Options {
    /// Leave the header line out.
    pub no_header: bool,
    /// The pattern that a process's command name or arguments must match.
    pub process_filter: Option<String>,
    /// The pattern that the owner's name must match.
    pub user_filter: Option<String>,
    /// Show and order owners by their number, not by their name.
    pub numeric: bool,
    /// Order from the largest to the smallest.
    pub reverse: bool,
    /// Show sizes with a unit, not as a count of bytes.
    pub abbreviate: bool,
    /// The directory that holds the process table.
    pub source: PathBuf,
    /// The columns to show, in order; none stands for all of them.
    pub fields: Vec<Field>,
    /// The column to order by; none stands for the resident size.
    pub sort_field: Option<Field>,
    /// End the table with a row of totals.
    pub totals: bool,
}

} // verus!
