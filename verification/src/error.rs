//! The errors that the library reports.

use vstd::prelude::*;

verus! {

/// Why a package file was refused.
#[derive(Clone, Copy, Debug, PartialEq, Eq, Structural)]
pub enum ValidationKind {
    /// Nothing is accessible at the path.
    Inaccessible,
    /// The path does not name a regular file.
    NotAFile,
    /// The file is not a well-formed wallpaper container.
    Malformed,
}

/// Why the configuration does not fit the request.
#[derive(Clone, Copy, Debug, PartialEq, Eq, Structural)]
pub enum ConfigurationKind {
    /// Solar metadata needs geographic coordinates, and none are configured.
    MissingCoordinates,
    /// A forced appearance cannot be combined with daemon mode.
    AppearanceInDaemon,
}

/// Why the metadata does not fit the request or the frames.
#[derive(Clone, Copy, Debug, PartialEq, Eq, Structural)]
pub enum MismatchKind {
    /// An appearance was forced, and the metadata has no appearance view.
    NoAppearanceView,
    /// The metadata refers to a frame that the package does not hold.
    FrameOutOfBounds,
}

/// An error of the library. Errors about a package file carry its path.
#[derive(Clone, Debug, PartialEq, Eq)]
pub enum Error {
    /// The package file is missing, not a regular file, or malformed.
    Validation { kind: ValidationKind, path: String },
    /// The configuration does not allow the request.
    Configuration(ConfigurationKind),
    /// The metadata does not fit the request or the frames.
    MetadataMismatch(MismatchKind),
    /// The anchor set is empty, so no frame can be selected.
    Selection,
    /// The external setter failed on the frame with this index.
    Apply { index: usize },
    /// No package was given and none is remembered.
    NoPackage,
}

} // verus!
