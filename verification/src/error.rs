//! The errors of a snapshot.  Each one ends the snapshot that met it: no
//! partial image is handed out and nothing is tried again.

use vstd::prelude::*;
use vstd::std_specs::convert::IntoSpec;

verus! {

/// The error type that tile sources report their own failures with.
#[verifier::external_type_specification]
#[verifier::external_body]
pub struct ExAnyhowError(anyhow::Error);

/// Why a snapshot could not be made.
#[derive(Debug)]
pub enum SnaprError {
    /// The builder was asked to build before everything it needs was set;
    /// `reason` names what is missing.
    Builder { reason: String },
    /// A fetched tile is not `expected` pixels long in both axes; `received`
    /// is the length that differs.
    IncorrectTileSize { expected: u32, received: u32 },
    /// A geometry has too few points to make a path that can be drawn.
    PathConstruction,
    /// The geometries have no centre to show the snapshot around.
    CentroidCalculation,
    /// The geometries have no extent to choose a zoom level for.
    BoundingBoxCalculation,
    /// A task that fetched tiles asynchronously ended without an answer.
    AsynchronousTaskPanic,
    /// An error of the tile source, handed on as it came.
    Unknown(anyhow::Error),
}

/// Wraps an error of a tile source into [`SnaprError::Unknown`].
pub fn to_snapr_error<E: Into<anyhow::Error>>(err: E) -> (error: SnaprError)
    ensures
        error is Unknown,
        <E as IntoSpec<anyhow::Error>>::obeys_into_spec() ==> error == SnaprError::Unknown(
            <E as IntoSpec<anyhow::Error>>::into_spec(err),
        ),
{
    SnaprError::Unknown(err.into())
}

} // verus!
