//! Why the file for a request body could not be had.

use vstd::prelude::*;

verus! {

/// The kinds of I/O failure that the standard library tells apart. Opaque
/// here: a kind is carried from where reading failed to where it is shown.
#[verifier::external_type_specification]
#[verifier::external_body]
pub struct ExErrorKind(std::io::ErrorKind);

/// `Clone::clone` of `std::io::ErrorKind`. Trusted: the copy is the kind
/// that was copied; `ErrorKind` is a plain `Copy` enum.
pub assume_specification[ <std::io::ErrorKind as Clone>::clone ](
    kind: &std::io::ErrorKind,
) -> (res: std::io::ErrorKind)
    ensures
        res == *kind,
;

/// Why no file was opened.
#[derive(Debug, Clone)]
pub enum FileOpenDialogError {
    /// The dialog was closed without a file being picked.
    DialogClosed,
    /// The picked file could not be read.
    IoError(std::io::ErrorKind),
}

} // verus!
