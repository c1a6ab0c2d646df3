//! Core value types: cells, errors, options, and the batch response.

use vstd::prelude::*;

verus! {

/// The 1-degree cell that contains a coordinate, identified by the integer
/// floor of its south-west corner: a tile at `(lat, lng)` covers the closed
/// square `[lat, lat+1] x [lng, lng+1]` in degrees.
#[derive(Clone, Copy, Debug, PartialEq, Eq, Structural, Hash)]
pub struct CellKey {
    pub lat: i32,
    pub lng: i32,
}

/// A cell key is valid when its square intersects the WGS84 coordinate range.
pub open spec fn valid_cell(lat: int, lng: int) -> bool {
    -90 <= lat <= 90 && -180 <= lng <= 180
}

impl CellKey {
    pub open spec fn valid(self) -> bool {
        valid_cell(self.lat as int, self.lng as int)
    }
}

/// Everything that can go wrong while resolving an elevation.
#[derive(Clone, Copy, Debug, PartialEq, Eq, Structural)]
pub enum ElevationError {
    /// The requested coordinate is not finite or lies outside
    /// `[-90, 90] x [-180, 180]`.
    InvalidCoordinate,
    /// The derived grid row or column lies outside the tile.
    OutOfTileBounds,
    /// The tile payload is not a recognized HGT buffer, or it failed to
    /// decompress.
    InvalidTileFormat,
    /// The backend reports that the tile object or file does not exist.
    TileNotFound,
    /// Any other backend failure: network, I/O, credentials, timeout.
    BackendFailure,
}

impl ElevationError {
    /// A short description, in place of a `Display` impl.
    pub fn message(&self) -> (r: &'static str)
        ensures
            r@ == self.spec_message(),
    {
        match self {
            ElevationError::InvalidCoordinate => "invalid coordinate",
            ElevationError::OutOfTileBounds => "coordinate outside tile bounds",
            ElevationError::InvalidTileFormat => "invalid tile format",
            ElevationError::TileNotFound => "tile not found",
            ElevationError::BackendFailure => "backend failure",
        }
    }

    /// The HTTP status that surfaces this error: a rejected coordinate is
    /// the client's fault, a missing tile is not found, and everything else
    /// is the server's failure.
    pub fn http_status(&self) -> (r: u16)
        ensures
            r == match self {
                ElevationError::InvalidCoordinate => 400u16,
                ElevationError::OutOfTileBounds => 400u16,
                ElevationError::InvalidTileFormat => 500u16,
                ElevationError::TileNotFound => 404u16,
                ElevationError::BackendFailure => 500u16,
            },
    {
        match self {
            ElevationError::InvalidCoordinate => 400,
            ElevationError::OutOfTileBounds => 400,
            ElevationError::InvalidTileFormat => 500,
            ElevationError::TileNotFound => 404,
            ElevationError::BackendFailure => 500,
        }
    }

    pub open spec fn spec_message(self) -> Seq<char> {
        match self {
            ElevationError::InvalidCoordinate => "invalid coordinate"@,
            ElevationError::OutOfTileBounds => "coordinate outside tile bounds"@,
            ElevationError::InvalidTileFormat => "invalid tile format"@,
            ElevationError::TileNotFound => "tile not found"@,
            ElevationError::BackendFailure => "backend failure"@,
        }
    }
}

/// Options for building a tile set: the base URI, the cache capacity in
/// tiles, whether payloads are gzip-compressed, and the S3 settings.
#[derive(Clone, Debug)]
pub struct TileSetOptions {
    pub path: String,
    pub cache_size: u64,
    pub gzip: bool,
    pub s3_access_key_id: Option<String>,
    pub s3_secret_access_key: Option<String>,
    pub s3_region: Option<String>,
    pub s3_endpoint: Option<String>,
}

impl Default for TileSetOptions {
    /// An empty path, 128 cached tiles, gzip on, and no S3 settings.
    fn default() -> (r: Self)
        ensures
            r.path@ == Seq::<char>::empty(),
            r.cache_size == 128,
            r.gzip == true,
            r.s3_access_key_id is None,
            r.s3_secret_access_key is None,
            r.s3_region is None,
            r.s3_endpoint is None,
    {
        TileSetOptions {
            path: String::new(),
            cache_size: 128,
            gzip: true,
            s3_access_key_id: None,
            s3_secret_access_key: None,
            s3_region: None,
            s3_endpoint: None,
        }
    }
}

/// The body of a successful batch response: one elevation per input point,
/// in input order.
pub struct ElevationResponse {
    pub elevations: Vec<i16>,
}

} // verus!
