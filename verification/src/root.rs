//! What may be sized: the test that the root has to pass before any
//! directory is scanned.

use vstd::prelude::*;

verus! {

/// Why a root is not sized.
#[derive(Clone, Copy, Debug, PartialEq, Eq, Structural)]
pub enum RootError {
    /// Nothing exists at the path.
    Missing,
    /// The path leads to a regular file.
    NotADirectory,
    /// The path leads to something that is neither file nor directory.
    Unknown,
}

/// Decides whether a root may be sized, from what the file system says of
/// it: only an existing directory may. A regular file is turned away as
/// such, whatever the directory test says of it.
pub fn validate_root(exists: bool, is_file: bool, is_dir: bool) -> (r: Result<(), RootError>)
    ensures
        r is Ok <==> exists && !is_file && is_dir,
        r == Err::<(), RootError>(RootError::Missing) <==> !exists,
        r == Err::<(), RootError>(RootError::NotADirectory) <==> exists && is_file,
        r == Err::<(), RootError>(RootError::Unknown) <==> exists && !is_file && !is_dir,
{
    if !exists {
        Err(RootError::Missing)
    } else if is_file {
        Err(RootError::NotADirectory)
    } else if is_dir {
        Ok(())
    } else {
        Err(RootError::Unknown)
    }
}

} // verus!
