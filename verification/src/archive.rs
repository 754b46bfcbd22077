//! Archive-format decisions, taken from a path's extension chain. Running
//! the unpacking tools is the caller's work; this module only decides.
//!
//! An extension chain lists a path's extensions innermost last, joined by
//! dots: `gz.tar` for a `.tar.gz` file, `zip` for a `.zip` file.

use vstd::prelude::*;
use vstd::string::StrSliceExecFns;

use crate::textutil::str_eq;

verus! {

/// Why unpacking could not proceed.
#[derive(Debug)]
pub enum Error {
    /// The extension chain names no archive format this tool can unpack.
    ArchiveFormatNotSupported(String),
}

/// The unpackers this tool distinguishes: zip archives, and everything the
/// tar tool handles, with no further distinction.
#[derive(Debug, PartialEq, Eq)]
pub enum Archive {
    Zip,
    Tar,
}

/// Whether an extension chain names an archive at all: such a target is
/// unpacked before the directory is searched for an executable.
pub fn is_archive(exts: &str) -> (r: bool)
    ensures
        r == (exts@ == "zip"@ || exts@ == "tar"@ || exts@ == "gz.tar"@ || exts@ == "gz2.tar"@
            || exts@ == "7z"@),
{
    str_eq(exts, "zip") || str_eq(exts, "tar") || str_eq(exts, "gz.tar") || str_eq(
        exts,
        "gz2.tar",
    ) || str_eq(exts, "7z")
}

impl Archive {
    /// Picks the unpacker for an extension chain: `zip` unpacks as a zip
    /// archive, `tar` and `gz.tar` through the tar tool; any other chain is
    /// refused, with the chain named in the error.
    pub fn guess(exts: &str) -> (r: Result<Archive, Error>)
        ensures
            exts@ == "zip"@ ==> r == Ok::<Archive, Error>(Archive::Zip),
            exts@ == "tar"@ || exts@ == "gz.tar"@ ==> r == Ok::<Archive, Error>(Archive::Tar),
            !(exts@ == "zip"@ || exts@ == "tar"@ || exts@ == "gz.tar"@) ==> (r matches Err(e)
                && e matches Error::ArchiveFormatNotSupported(s) && s@ == exts@),
    {
        proof {
            reveal_strlit("zip");
            reveal_strlit("tar");
            reveal_strlit("gz.tar");
            assert("zip"@[0] == 'z' && "tar"@[0] == 't' && "gz.tar"@[0] == 'g');
            assert("zip"@ != "tar"@ && "zip"@ != "gz.tar"@ && "tar"@ != "gz.tar"@);
        }
        if str_eq(exts, "zip") {
            Ok(Archive::Zip)
        } else if str_eq(exts, "tar") || str_eq(exts, "gz.tar") {
            Ok(Archive::Tar)
        } else {
            Err(Error::ArchiveFormatNotSupported(exts.to_owned()))
        }
    }
}

} // verus!
