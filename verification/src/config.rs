//! What a configured block device means.
//!
//! A block device is configured as a type name and a set of string options.
//! Reading the configuration file and opening the device are the caller's;
//! here is the decision between them: which kind of device the entry asks
//! for, and with which settings.

use vstd::prelude::*;

verus! {

/// The kind of block device that an entry asks for.
#[derive(Copy, Clone, Debug, PartialEq, Eq, Structural)]
pub enum BlockDevKind {
    /// A device backed by the file at the entry's path.
    File {
        /// Whether the file is opened for reading only.
        readonly: bool,
    },
}

/// Why an entry names no block device.
#[derive(Copy, Clone, Debug, PartialEq, Eq, Structural)]
pub enum BlockDevError {
    /// The entry is of a file-backed device and has no path.
    MissingPath,
    /// The type of the entry is not known.
    UnknownType,
}

/// What the text `s` says as a truth value: `"true"` and `"false"` say
/// what they read, nothing else says anything.
pub open spec fn bool_of(s: Seq<char>) -> Option<bool> {
    if s == "true"@ {
        Some(true)
    } else if s == "false"@ {
        Some(false)
    } else {
        None
    }
}

/// Whether the option `readonly` of an entry, taken as text where it is
/// there, asks for a read-only device: it does where it is there and reads
/// `"true"`.
pub open spec fn readonly_of(readonly: Option<Seq<char>>) -> bool {
    match readonly {
        Some(s) => bool_of(s) == Some(true),
        None => false,
    }
}

/// The kind of block device that an entry of type `bdtype` asks for, given
/// whether it has a path and what its option `readonly` reads.
pub open spec fn block_dev_of(bdtype: Seq<char>, has_path: bool, readonly: Option<Seq<char>>)
    -> Result<BlockDevKind, BlockDevError> {
    if bdtype == "file"@ {
        if has_path {
            Ok(BlockDevKind::File { readonly: readonly_of(readonly) })
        } else {
            Err(BlockDevError::MissingPath)
        }
    } else {
        Err(BlockDevError::UnknownType)
    }
}

/// `str::parse::<bool>` of the standard library, which takes `"true"` and
/// `"false"` for the two truth values and refuses every other text.
#[verifier::external_body]
fn parse_bool(s: &str) -> (r: Option<bool>)
    ensures
        r == bool_of(s@),
{
    s.parse::<bool>().ok()
}

/// `str == str` of the standard library: whether the two texts are the same.
#[verifier::external_body]
fn str_eq(a: &str, b: &str) -> (r: bool)
    ensures
        r == (a@ == b@),
{
    a == b
}

/// Whether the option `readonly` of an entry asks for a read-only device.
/// An option that is missing, or that reads as no truth value, asks for
/// none.
pub fn readonly_flag(readonly: Option<&str>) -> (r: bool)
    ensures
        r == readonly_of(
            match readonly {
                Some(s) => Some(s@),
                None => None,
            },
        ),
{
    match readonly {
        Some(s) => match parse_bool(s) {
            Some(b) => b,
            None => false,
        },
        None => false,
    }
}

/// Decides which block device an entry of type `bdtype` asks for. Only
/// file-backed devices are known; one needs a path.
pub fn block_dev(bdtype: &str, has_path: bool, readonly: Option<&str>) -> (r: Result<
    BlockDevKind,
    BlockDevError,
>)
    ensures
        r == block_dev_of(
            bdtype@,
            has_path,
            match readonly {
                Some(s) => Some(s@),
                None => None,
            },
        ),
{
    if str_eq(bdtype, "file") {
        if !has_path {
            return Err(BlockDevError::MissingPath);
        }
        Ok(BlockDevKind::File { readonly: readonly_flag(readonly) })
    } else {
        Err(BlockDevError::UnknownType)
    }
}

} // verus!
