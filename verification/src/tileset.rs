//! Tile sets: the three backends a tile can be fetched from, selected once
//! from a single base URI.
//!
//! `s3://bucket[/prefix]` selects the S3 backend, `http://` or `https://`
//! the HTTP backend, and anything else the local filesystem. The fetch
//! itself is I/O and lives with the runtime; this module owns every decision
//! around it: which backend a URI names, how its pieces are split, which
//! credentials and region an S3 backend will use, the object key or URL for
//! a cell, and the decompression and validation of a fetched payload.

use crate::path::path_spec;
use crate::types::{valid_cell, ElevationError, TileSetOptions};
use vstd::prelude::*;

verus! {

/// `s` begins with `p`.
pub open spec fn spec_starts_with(s: Seq<char>, p: Seq<char>) -> bool {
    s.len() >= p.len() && s.take(p.len() as int) == p
}

/// Whether `s` begins with `prefix`.
pub(crate) fn str_starts_with(s: &str, prefix: &str) -> (r: bool)
    ensures
        r == spec_starts_with(s@, prefix@),
{
    let pl = prefix.unicode_len();
    let sl = s.unicode_len();
    if sl < pl {
        proof {
            assert(s@.len() < prefix@.len());
        }
        return false;
    }
    let mut i: usize = 0;
    while i < pl
        invariant
            i <= pl,
            pl == prefix@.len(),
            pl <= s@.len(),
            forall|q: int| 0 <= q < i ==> s@[q] == prefix@[q],
        decreases pl - i,
    {
        if s.get_char(i) != prefix.get_char(i) {
            proof {
                assert(s@.take(pl as int)[i as int] != prefix@[i as int]);
            }
            return false;
        }
        i = i + 1;
    }
    proof {
        assert(s@.take(pl as int) =~= prefix@);
    }
    true
}

/// The first position at or after `from` where `c` stands in `s`.
pub(crate) fn find_char(s: &str, from: usize, c: char) -> (r: Option<usize>)
    requires
        from <= s@.len(),
    ensures
        match r {
            Some(i) => {
                &&& from <= i < s@.len()
                &&& s@[i as int] == c
                &&& forall|q: int| from <= q < i ==> s@[q] != c
            },
            None => forall|q: int| from <= q < s@.len() ==> s@[q] != c,
        },
{
    let n = s.unicode_len();
    let mut i = from;
    while i < n
        invariant
            from <= i <= n,
            n == s@.len(),
            forall|q: int| from <= q < i ==> s@[q] != c,
        decreases n - i,
    {
        if s.get_char(i) == c {
            return Some(i);
        }
        i = i + 1;
    }
    None
}

/// `a`, a slash, and `b`.
pub(crate) fn join_with_slash(a: &str, b: &str) -> (r: String)
    ensures
        r@ == a@ + seq!['/'] + b@,
{
    proof {
        reveal_strlit("/");
        assert("/"@ =~= seq!['/']);
    }
    let mut r = String::from_str(a);
    r.append("/");
    r.append(b);
    proof {
        assert(r@ =~= a@ + seq!['/'] + b@);
    }
    r
}

/// How the S3 backend will authenticate.
#[derive(Debug)]
pub enum CredentialsChoice {
    /// Both keys were configured explicitly.
    Explicit { access_key_id: String, secret_access_key: String },
    /// Fall back to the environment-provided defaults.
    Default,
}

/// Which S3 region or endpoint the backend will address.
#[derive(Debug)]
pub enum RegionChoice {
    /// An explicit endpoint, with the given region name.
    Custom { region: String, endpoint: String },
    /// An explicit AWS region name, to be parsed by the S3 client and
    /// falling back to us-east-1 when it does not parse.
    Named(String),
    /// Neither a region nor an endpoint was configured: us-east-1.
    Default,
}

/// The credentials decision: explicit keys exactly when both are given.
pub open spec fn credentials_choice_spec(
    access_key_id: Option<String>,
    secret_access_key: Option<String>,
    r: CredentialsChoice,
) -> bool {
    match (access_key_id, secret_access_key) {
        (Some(a), Some(s)) => r matches CredentialsChoice::Explicit {
            access_key_id: ra,
            secret_access_key: rs,
        } && ra == a && rs == s,
        _ => r is Default,
    }
}

/// The region decision: explicit region and endpoint make a custom
/// endpoint; a region alone is parsed as an AWS region; an endpoint alone
/// is a custom endpoint under us-east-1; neither means us-east-1.
pub open spec fn region_choice_spec(
    region: Option<String>,
    endpoint: Option<String>,
    r: RegionChoice,
) -> bool {
    match (region, endpoint) {
        (Some(rg), Some(ep)) => r matches RegionChoice::Custom { region: cr, endpoint: ce }
            && cr == rg && ce == ep,
        (Some(rg), None) => r matches RegionChoice::Named(n) && n == rg,
        (None, Some(ep)) => r matches RegionChoice::Custom { region: cr, endpoint: ce } && cr@
            == "us-east-1"@ && ce == ep,
        (None, None) => r is Default,
    }
}

/// The filesystem backend: tiles are files under a base directory.
pub struct FileTileSet {
    pub folder: String,
    pub options: TileSetOptions,
}

impl FileTileSet {
    pub fn new(folder: String, options: TileSetOptions) -> (r: FileTileSet)
        ensures
            r.folder == folder,
            r.options == options,
    {
        FileTileSet { folder, options }
    }
}

/// The HTTP backend: tiles are objects under a base URL.
pub struct HTTPTileSet {
    pub base_url: String,
    pub options: TileSetOptions,
}

impl HTTPTileSet {
    pub fn new(base_url: String, options: TileSetOptions) -> (r: HTTPTileSet)
        ensures
            r.base_url == base_url,
            r.options == options,
    {
        HTTPTileSet { base_url, options }
    }

    /// The URL of the tile for a cell: the base URL, a slash, and the
    /// tile's relative path.
    pub fn tile_url(&self, lat_floor: i32, lng_floor: i32) -> (r: String)
        requires
            valid_cell(lat_floor as int, lng_floor as int),
        ensures
            r@ == self.base_url@ + seq!['/'] + path_spec(lat_floor as int, lng_floor as int),
    {
        let rel = crate::path::get_file_path(lat_floor, lng_floor);
        join_with_slash(self.base_url.as_str(), rel.as_str())
    }
}

/// The S3 backend: tiles are objects in a bucket, under an optional key
/// prefix.
pub struct S3TileSet {
    pub bucket: String,
    pub key_prefix: String,
    pub gzip: bool,
    pub credentials: CredentialsChoice,
    pub region: RegionChoice,
}

impl S3TileSet {
    /// Records the bucket and prefix and resolves the credentials and
    /// region decisions from the given settings.
    pub fn new(
        bucket: String,
        key_prefix: String,
        gzip: bool,
        access_key_id: Option<String>,
        secret_access_key: Option<String>,
        region: Option<String>,
        endpoint: Option<String>,
    ) -> (r: S3TileSet)
        ensures
            r.bucket == bucket,
            r.key_prefix == key_prefix,
            r.gzip == gzip,
            credentials_choice_spec(access_key_id, secret_access_key, r.credentials),
            region_choice_spec(region, endpoint, r.region),
    {
        let credentials = match (access_key_id, secret_access_key) {
            (Some(a), Some(s)) => CredentialsChoice::Explicit {
                access_key_id: a,
                secret_access_key: s,
            },
            _ => CredentialsChoice::Default,
        };
        let region_choice = match (region, endpoint) {
            (Some(rg), Some(ep)) => RegionChoice::Custom { region: rg, endpoint: ep },
            (Some(rg), None) => RegionChoice::Named(rg),
            (None, Some(ep)) => {
                proof {
                    reveal_strlit("us-east-1");
                }
                RegionChoice::Custom { region: String::from_str("us-east-1"), endpoint: ep }
            },
            (None, None) => RegionChoice::Default,
        };
        S3TileSet { bucket, key_prefix, gzip, credentials, region: region_choice }
    }

    /// The object key of the tile for a cell: the tile's relative path,
    /// under the key prefix when one is set.
    pub fn object_key(&self, lat_floor: i32, lng_floor: i32) -> (r: String)
        requires
            valid_cell(lat_floor as int, lng_floor as int),
        ensures
            r@ == if self.key_prefix@.len() == 0 {
                path_spec(lat_floor as int, lng_floor as int)
            } else {
                self.key_prefix@ + seq!['/'] + path_spec(lat_floor as int, lng_floor as int)
            },
    {
        let rel = crate::path::get_file_path(lat_floor, lng_floor);
        if self.key_prefix.as_str().unicode_len() == 0 {
            rel
        } else {
            join_with_slash(self.key_prefix.as_str(), rel.as_str())
        }
    }
}

/// A tile set: one of the three backends, selected from the base URI.
pub enum TileSet {
    File(FileTileSet),
    HTTP(HTTPTileSet),
    S3(S3TileSet),
}

/// The bucket of an `s3://bucket[/prefix]` URI: everything between the
/// scheme and the first slash after it.
pub open spec fn s3_bucket_spec(path: Seq<char>) -> Seq<char> {
    let rest = path.skip(5);
    match rest.index_of_first('/') {
        Some(i) => rest.take(i),
        None => rest,
    }
}

/// The key prefix of an `s3://bucket[/prefix]` URI: everything after the
/// first slash that follows the scheme, empty when there is none.
pub open spec fn s3_key_prefix_spec(path: Seq<char>) -> Seq<char> {
    let rest = path.skip(5);
    match rest.index_of_first('/') {
        Some(i) => rest.skip(i + 1),
        None => Seq::empty(),
    }
}

impl TileSet {
    /// Selects the backend that the base URI in `options.path` names:
    /// `s3://bucket[/prefix]` the S3 backend, with the bucket and prefix
    /// split out of the URI and the credentials and region resolved from
    /// the options; `http://` or `https://` the HTTP backend; anything
    /// else the local filesystem.
    pub fn new(options: TileSetOptions) -> (r: Result<TileSet, ElevationError>)
        ensures
            match r {
                Ok(ts) => match ts {
                    TileSet::S3(s3) => {
                        &&& spec_starts_with(options.path@, "s3://"@)
                        &&& s3.bucket@ == s3_bucket_spec(options.path@)
                        &&& s3.key_prefix@ == s3_key_prefix_spec(options.path@)
                        &&& s3.gzip == options.gzip
                        &&& credentials_choice_spec(
                            options.s3_access_key_id,
                            options.s3_secret_access_key,
                            s3.credentials,
                        )
                        &&& region_choice_spec(options.s3_region, options.s3_endpoint, s3.region)
                    },
                    TileSet::HTTP(h) => {
                        &&& !spec_starts_with(options.path@, "s3://"@)
                        &&& spec_starts_with(options.path@, "http://"@) || spec_starts_with(
                            options.path@,
                            "https://"@,
                        )
                        &&& h.base_url == options.path
                        &&& h.options == options
                    },
                    TileSet::File(f) => {
                        &&& !spec_starts_with(options.path@, "s3://"@)
                        &&& !spec_starts_with(options.path@, "http://"@)
                        &&& !spec_starts_with(options.path@, "https://"@)
                        &&& f.folder == options.path
                        &&& f.options == options
                    },
                },
                Err(_) => false,
            },
    {
        if str_starts_with(options.path.as_str(), "s3://") {
            proof {
                reveal_strlit("s3://");
            }
            let len = options.path.as_str().unicode_len();
            let ghost p = options.path@;
            let ghost rest = p.skip(5);
            let (bucket, key_prefix) = match find_char(options.path.as_str(), 5, '/') {
                Some(i) => {
                    proof {
                        assert(rest[i - 5] == '/');
                        assert(forall|q: int| 0 <= q < i - 5 ==> rest[q] != '/');
                        assert(rest.contains('/')) by {
                            assert(rest[i - 5] == '/');
                        }
                        rest.index_of_first_ensures('/');
                        let j = rest.index_of_first('/').unwrap();
                        assert(rest[j] == '/');
                        assert(j == i - 5) by {
                            if j < i - 5 {
                                assert(rest[j] != '/');
                            }
                            if j > i - 5 {
                                assert(rest[i - 5] != '/');
                            }
                        }
                    }
                    let b = String::from_str(options.path.as_str().substring_char(5, i));
                    let k = String::from_str(
                        options.path.as_str().substring_char(i + 1, len),
                    );
                    proof {
                        assert(b@ =~= s3_bucket_spec(p));
                        assert(k@ =~= s3_key_prefix_spec(p));
                    }
                    (b, k)
                },
                None => {
                    proof {
                        assert(!rest.contains('/')) by {
                            assert(forall|q: int|
                                0 <= q < rest.len() ==> rest[q] == p[q + 5] && p[q + 5] != '/');
                        }
                        rest.index_of_first_ensures('/');
                    }
                    let b = String::from_str(options.path.as_str().substring_char(5, len));
                    proof {
                        assert(b@ =~= s3_bucket_spec(p));
                        assert(Seq::<char>::empty() =~= s3_key_prefix_spec(p));
                    }
                    (b, String::new())
                },
            };
            Ok(
                TileSet::S3(
                    S3TileSet::new(
                        bucket,
                        key_prefix,
                        options.gzip,
                        options.s3_access_key_id,
                        options.s3_secret_access_key,
                        options.s3_region,
                        options.s3_endpoint,
                    ),
                ),
            )
        } else if str_starts_with(options.path.as_str(), "http://") || str_starts_with(
            options.path.as_str(),
            "https://",
        ) {
            let base_url = options.path.clone();
            Ok(TileSet::HTTP(HTTPTileSet::new(base_url, options)))
        } else {
            let folder = options.path.clone();
            Ok(TileSet::File(FileTileSet::new(folder, options)))
        }
    }
}

/// What a byte string inflates to when it is read as gzip, and `None` when
/// it is not valid gzip; a function of the bytes alone.
pub uninterp spec fn gunzip_of(data: Seq<u8>) -> Option<Seq<u8>>;

/// Relies on flate2::read::GzDecoder, read through std::io::Read::
/// read_to_end: inflating a byte string is deterministic in the bytes, and
/// malformed gzip is an error.
#[verifier::external_body]
fn gunzip(data: &Vec<u8>) -> (r: Option<Vec<u8>>)
    ensures
        match r {
            Some(d) => gunzip_of(data@) == Some(d@),
            None => gunzip_of(data@) is None,
        },
{
    let mut decoder = flate2::read::GzDecoder::new(&data[..]);
    let mut out = Vec::new();
    match std::io::Read::read_to_end(&mut decoder, &mut out) {
        Ok(_) => Some(out),
        Err(_) => None,
    }
}

/// Decompresses a fetched tile payload when the tile set is gzip-compressed
/// and hands it through unchanged otherwise; a payload that is not valid
/// gzip is an invalid tile format.
pub fn decode_payload(payload: Vec<u8>, gzip: bool) -> (r: Result<Vec<u8>, ElevationError>)
    ensures
        match r {
            Ok(d) => {
                &&& gzip ==> gunzip_of(payload@) == Some(d@)
                &&& !gzip ==> d@ == payload@
            },
            Err(e) => {
                &&& gzip && gunzip_of(payload@) is None
                &&& e == ElevationError::InvalidTileFormat
            },
        },
{
    if gzip {
        match gunzip(&payload) {
            Some(d) => Ok(d),
            None => Err(ElevationError::InvalidTileFormat),
        }
    } else {
        Ok(payload)
    }
}

} // verus!
