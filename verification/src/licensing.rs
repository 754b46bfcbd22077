//! License recognition: naming a project's license from the text of its
//! license file. Reading directories and files is the caller's work; this
//! module holds the decisions.

use vstd::prelude::*;

use crate::textutil::ascii_lowercase;
use crate::textutil::contains_seq;
use crate::textutil::lower_char;
use crate::textutil::str_contains;
use crate::textutil::str_eq;

verus! {

/// Why locating a project's license failed.
#[derive(Debug)]
pub enum Error {
    /// The license text matched none of the licenses this tool knows.
    Unrecognizable,
    /// No license file was found in the searched directory.
    NoLicenseFile,
    /// Reading the license file failed; the text of the underlying error.
    CouldntRead(String),
}

/// A software license this tool can name in generated metadata.
#[derive(Debug, PartialEq, Eq)]
pub enum License {
    CC0,
    UniversalPermisiveLicense,
    Mit,
}

/// The marker sentence whose presence identifies the Universal Permissive
/// License.
pub open spec fn upl_marker() -> Seq<char> {
    "The Universal Permissive License (UPL), Version 1.0"@
}

/// The marker sentence whose presence identifies the MIT license.
pub open spec fn mit_marker() -> Seq<char> {
    "The MIT License (Expat)"@
}

impl License {
    /// Recognizes a license from the text of a license file: the Universal
    /// Permissive License's marker takes precedence, then MIT's; any other
    /// text is refused. No text is recognized as CC0, which is only ever
    /// chosen directly for generated metadata.
    pub fn from_str(s: &str) -> (r: Result<License, ()>)
        ensures
            contains_seq(s@, upl_marker()) ==> r == Ok::<License, ()>(
                License::UniversalPermisiveLicense,
            ),
            !contains_seq(s@, upl_marker()) && contains_seq(s@, mit_marker()) ==> r == Ok::<
                License,
                (),
            >(License::Mit),
            !contains_seq(s@, upl_marker()) && !contains_seq(s@, mit_marker()) ==> r == Err::<
                License,
                (),
            >(()),
    {
        if str_contains(s, "The Universal Permissive License (UPL), Version 1.0") {
            Ok(License::UniversalPermisiveLicense)
        } else if str_contains(s, "The MIT License (Expat)") {
            Ok(License::Mit)
        } else {
            Err(())
        }
    }
}

/// Whether a directory entry's name, case aside, is exactly `license`: the
/// test that picks the license file out of a project directory.
pub fn is_license_file_name(name: &str) -> (r: bool)
    ensures
        r == (name@.map_values(|c: char| lower_char(c)) == "license"@),
{
    let lowered = ascii_lowercase(name);
    str_eq(lowered.as_str(), "license")
}

} // verus!
