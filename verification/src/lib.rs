//! Snapshots of a geographic area: a mosaic of map tiles with styled
//! geometries drawn on top.

pub mod builder;
pub mod drawing;
pub mod error;
pub mod fetchers;
pub mod geometry;
pub mod numeric;
pub mod projection;
pub mod raster;
pub mod snapr;
pub mod tiles;
pub mod zoom;

pub use builder::SnaprBuilder;
pub use error::SnaprError;
pub use fetchers::TileFetcher;
pub use snapr::Snapr;
pub use zoom::Zoom;
