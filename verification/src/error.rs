use vstd::prelude::*;

verus! {

/// The error kinds a version-manager operation can report.
///
/// Every fallible operation of the library returns one of these; the
/// surrounding application renders them as messages for the user.
#[derive(Clone, Copy, Debug, PartialEq, Eq, Structural)]
pub enum VmError {
    /// A network transport failure while talking to the release catalog
    /// or while streaming an asset.
    NetworkError,
    /// The catalog response body could not be decoded.
    DecodeError,
    /// The requested version does not appear in the release catalog.
    VersionNotFound,
    /// The matching release carries no asset for the supported platform.
    NoCompatibleAsset,
    /// A filesystem step failed.
    IoError,
    /// The requested version is not installed locally.
    NotInstalled,
    /// The requested version is the currently active one and cannot be
    /// uninstalled.
    ActiveVersionConflict,
    /// No active version is set (the `current` link does not exist).
    NotFound,
    /// The `current` link exists but its target has no usable final
    /// path component.
    InvalidState,
    /// The activated version directory does not contain the expected
    /// binary.
    BinaryMissing,
    /// The requested shell kind is not one the emitter knows.
    UnsupportedShell,
}

} // verus!
