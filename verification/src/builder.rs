//! The builder of a [`Snapr`]: every setting but the tile source has a
//! default.

use vstd::prelude::*;
use crate::error::SnaprError;
use crate::fetchers::TileFetcher;
use crate::snapr::Snapr;
use crate::snapr::SnapshotConfig;
use crate::zoom::Zoom;

verus! {

/// Collects the settings of a [`Snapr`].
pub struct SnaprBuilder<'a> {
    pub tile_fetcher: Option<TileFetcher<'a>>,
    pub tile_size: Option<u32>,
    pub height: Option<u32>,
    pub width: Option<u32>,
    pub zoom: Option<Zoom>,
}

impl<'a> SnaprBuilder<'a> {
    /// The configuration that [`SnaprBuilder::build`] gives: each setting
    /// that was made, and the default of each that was not.
    pub open spec fn config(self) -> SnapshotConfig {
        SnapshotConfig {
            tile_size: match self.tile_size {
                Some(tile_size) => tile_size,
                None => 256,
            },
            width: match self.width {
                Some(width) => width,
                None => 800,
            },
            height: match self.height {
                Some(height) => height,
                None => 600,
            },
            zoom: match self.zoom {
                Some(zoom) => zoom,
                None => Zoom::Automatic(17),
            },
        }
    }

    /// A builder on which nothing is set.
    pub fn new() -> (builder: Self)
        ensures
            builder.tile_fetcher is None,
            builder.tile_size is None,
            builder.height is None,
            builder.width is None,
            builder.zoom is None,
            builder.config() == SnapshotConfig::standard(),
    {
        SnaprBuilder { tile_fetcher: None, tile_size: None, height: None, width: None, zoom: None }
    }

    /// Sets the tile source.
    pub fn with_tile_fetcher(self, tile_fetcher: TileFetcher<'a>) -> (builder: Self)
        ensures
            builder == (SnaprBuilder { tile_fetcher: Some(tile_fetcher), ..self }),
    {
        SnaprBuilder {
            tile_fetcher: Some(tile_fetcher),
            tile_size: self.tile_size,
            height: self.height,
            width: self.width,
            zoom: self.zoom,
        }
    }

    /// Sets the length of the side of a tile in pixels.
    pub fn with_tile_size(self, tile_size: u32) -> (builder: Self)
        ensures
            builder == (SnaprBuilder { tile_size: Some(tile_size), ..self }),
    {
        SnaprBuilder {
            tile_fetcher: self.tile_fetcher,
            tile_size: Some(tile_size),
            height: self.height,
            width: self.width,
            zoom: self.zoom,
        }
    }

    /// Sets the height of the snapshots in pixels.
    pub fn with_height(self, height: u32) -> (builder: Self)
        ensures
            builder == (SnaprBuilder { height: Some(height), ..self }),
    {
        SnaprBuilder {
            tile_fetcher: self.tile_fetcher,
            tile_size: self.tile_size,
            height: Some(height),
            width: self.width,
            zoom: self.zoom,
        }
    }

    /// Sets the width of the snapshots in pixels.
    pub fn with_width(self, width: u32) -> (builder: Self)
        ensures
            builder == (SnaprBuilder { width: Some(width), ..self }),
    {
        SnaprBuilder {
            tile_fetcher: self.tile_fetcher,
            tile_size: self.tile_size,
            height: self.height,
            width: Some(width),
            zoom: self.zoom,
        }
    }

    /// Sets the zoom policy.
    pub fn with_zoom(self, zoom: Zoom) -> (builder: Self)
        ensures
            builder == (SnaprBuilder { zoom: Some(zoom), ..self }),
    {
        SnaprBuilder {
            tile_fetcher: self.tile_fetcher,
            tile_size: self.tile_size,
            height: self.height,
            width: self.width,
            zoom: Some(zoom),
        }
    }

    /// Builds the [`Snapr`].  Only the tile source is required: without one
    /// the build fails and says so.
    pub fn build(self) -> (built: Result<Snapr<'a>, SnaprError>)
        ensures
            built is Ok <==> self.tile_fetcher is Some,
            built matches Ok(snapr) ==> snapr.tile_fetcher == self.tile_fetcher->0 && snapr.config
                == self.config(),
            built matches Err(error) ==> error matches SnaprError::Builder { reason } && reason@
                == "field `tile_fetcher` needs to be set prior to a `snapr` being built"@,
    {
        let tile_fetcher = match self.tile_fetcher {
            Some(tile_fetcher) => tile_fetcher,
            None => {
                return Err(
                    SnaprError::Builder {
                        reason: String::from_str(
                            "field `tile_fetcher` needs to be set prior to a `snapr` being built",
                        ),
                    },
                );
            },
        };
        let config = SnapshotConfig {
            tile_size: match self.tile_size {
                Some(tile_size) => tile_size,
                None => 256,
            },
            width: match self.width {
                Some(width) => width,
                None => 800,
            },
            height: match self.height {
                Some(height) => height,
                None => 600,
            },
            zoom: match self.zoom {
                Some(zoom) => zoom,
                None => Zoom::default(),
            },
        };
        Ok(Snapr { tile_fetcher, config })
    }
}

impl<'a> Default for SnaprBuilder<'a> {
    fn default() -> (builder: Self)
        ensures
            builder.tile_fetcher is None,
            builder.tile_size is None,
            builder.height is None,
            builder.width is None,
            builder.zoom is None,
            builder.config() == SnapshotConfig::standard(),
    {
        SnaprBuilder::new()
    }
}

} // verus!
