//! The elevation service's decisions: what becomes of a fetched payload,
//! and how a batch of per-point results is folded into one answer.
//!
//! The asynchronous runtime performs the fetches and serializes access to
//! the cache; between its awaits it calls into this module, which decides
//! everything else.

use crate::cache::{arc_clone, fail_step, publish_step, HgtCache};
use crate::hgt::{HGT, SRTM1_LEN, SRTM3_LEN};
use crate::tileset::{gunzip_of, decode_payload};
use crate::types::{CellKey, ElevationError};
use std::sync::Arc;
use vstd::prelude::*;

verus! {

/// What a backend fetch reported when it produced no payload.
#[derive(Clone, Copy, Debug, PartialEq, Eq, Structural)]
pub enum FetchError {
    /// The backend reports that the object or file does not exist.
    NotFound,
    /// Any other failure: network, I/O, credentials, timeout.
    Failure,
}

/// The raw tile bytes a payload holds: inflated when the tile set is
/// gzip-compressed, the payload itself otherwise.
pub open spec fn raw_tile_of(payload: Seq<u8>, gzip: bool) -> Option<Seq<u8>> {
    if gzip {
        gunzip_of(payload)
    } else {
        Some(payload)
    }
}

/// The grid side length a raw tile of `len` bytes has, if it has one.
pub open spec fn tile_size_of(len: nat) -> Option<int> {
    if len == SRTM1_LEN {
        Some(3601int)
    } else if len == SRTM3_LEN {
        Some(1201int)
    } else {
        None
    }
}

/// Finishes a load that `get_or_begin_load` told the caller to perform.
///
/// A fetched payload is decompressed, validated and decoded into a tile,
/// which is published to the cache and handed back. Every failure — a
/// missing tile, a backend failure, a payload that does not inflate, a
/// buffer of an unknown length — releases the pending slot without caching
/// anything, so a later request starts a fresh load.
pub fn finish_load(
    cache: &mut HgtCache,
    cell: CellKey,
    gzip: bool,
    fetched: Result<Vec<u8>, FetchError>,
) -> (r: Result<Arc<HGT>, ElevationError>)
    requires
        old(cache).wf(),
        old(cache).is_pending(cell),
        !old(cache).cached(cell),
    ensures
        final(cache).wf(),
        match r {
            Ok(t) => {
                &&& publish_step(*old(cache), *final(cache), cell, t)
                &&& fetched matches Ok(payload) && raw_tile_of(payload@, gzip) matches Some(raw)
                    && tile_size_of(raw.len()) matches Some(size) && t@.buffer == raw && t@.size
                    == size && t@.sw == cell && t@.wf()
            },
            Err(e) => {
                &&& fail_step(*old(cache), *final(cache), cell)
                &&& match fetched {
                    Ok(payload) => {
                        &&& e == ElevationError::InvalidTileFormat
                        &&& match raw_tile_of(payload@, gzip) {
                            Some(raw) => tile_size_of(raw.len()) is None,
                            None => true,
                        }
                    },
                    Err(fe) => e == match fe {
                        FetchError::NotFound => ElevationError::TileNotFound,
                        FetchError::Failure => ElevationError::BackendFailure,
                    },
                }
            },
        },
{
    match fetched {
        Ok(payload) => match decode_payload(payload, gzip) {
            Ok(raw) => match HGT::new(raw, cell) {
                Ok(tile) => {
                    let handle = Arc::new(tile);
                    cache.publish(cell, arc_clone(&handle));
                    Ok(handle)
                },
                Err(e) => {
                    cache.fail_load(cell);
                    Err(e)
                },
            },
            Err(e) => {
                cache.fail_load(cell);
                Err(e)
            },
        },
        Err(fe) => {
            cache.fail_load(cell);
            Err(
                match fe {
                    FetchError::NotFound => ElevationError::TileNotFound,
                    FetchError::Failure => ElevationError::BackendFailure,
                },
            )
        },
    }
}

/// Folds the per-point results of a batch, in input order, into the batch's
/// answer: every elevation in input order when all points succeeded, and
/// the first error otherwise.
pub fn collect_elevations(results: Vec<Result<i16, ElevationError>>) -> (r: Result<
    Vec<i16>,
    ElevationError,
>)
    ensures
        match r {
            Ok(vals) => {
                &&& vals@.len() == results@.len()
                &&& forall|i: int|
                    0 <= i < results@.len() ==> results@[i] == Ok::<i16, ElevationError>(vals@[i])
            },
            Err(e) => exists|i: int|
                {
                    &&& 0 <= i < results@.len()
                    &&& #[trigger] results@[i] == Err::<i16, ElevationError>(e)
                    &&& forall|j: int| 0 <= j < i ==> results@[j] is Ok
                },
        },
{
    let n = results.len();
    let mut vals: Vec<i16> = Vec::new();
    let mut i: usize = 0;
    while i < n
        invariant
            i <= n,
            n == results@.len(),
            vals@.len() == i,
            forall|j: int| 0 <= j < i ==> results@[j] == Ok::<i16, ElevationError>(vals@[j]),
        decreases n - i,
    {
        match results[i] {
            Ok(v) => {
                vals.push(v);
                proof {
                    assert(results@[i as int] == Ok::<i16, ElevationError>(v));
                    assert(vals@[i as int] == v);
                }
            },
            Err(e) => {
                proof {
                    assert(results@[i as int] == Err::<i16, ElevationError>(e));
                }
                return Err(e);
            },
        }
        i = i + 1;
    }
    Ok(vals)
}

} // verus!
