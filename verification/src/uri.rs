//! Resolution of the tile-set base URI from the configured settings.
//!
//! The service is pointed at its tile corpus by a folder path, an `s3://`
//! URI, or an HTTPS URL, together with optional S3 settings. When explicit
//! S3 credentials are configured, direct S3 access is preferred: an explicit
//! endpoint and bucket, an `s3://` URI, or a virtual-hosted S3 HTTPS URL all
//! resolve to an `s3://` URI. Without credentials, S3 settings resolve to
//! public HTTPS access instead.

use crate::tileset::{find_char, spec_starts_with, str_starts_with};
use vstd::prelude::*;

verus! {

/// The characters of `s3://`.
pub open spec fn s3_scheme() -> Seq<char> {
    seq!['s', '3', ':', '/', '/']
}

/// The characters of `https://`.
pub open spec fn https_scheme() -> Seq<char> {
    seq!['h', 't', 't', 'p', 's', ':', '/', '/']
}

/// The marker that a virtual-hosted S3 URL carries after its bucket.
pub open spec fn s3_marker() -> Seq<char> {
    seq!['.', 's', '3', '.']
}

/// The host-and-slash piece of a public amazonaws URL.
pub open spec fn amazon_host() -> Seq<char> {
    seq!['.', 's', '3', '.', 'a', 'm', 'a', 'z', 'o', 'n', 'a', 'w', 's', '.', 'c', 'o', 'm', '/']
}

/// `s` without its leading slashes.
pub open spec fn skip_slashes(s: Seq<char>) -> Seq<char>
    decreases s.len(),
{
    if s.len() > 0 && s[0] == '/' {
        skip_slashes(s.drop_first())
    } else {
        s
    }
}

/// The first position at or after `from` where `c` stands in `s`.
pub open spec fn find_ch(s: Seq<char>, from: int, c: char) -> Option<int>
    recommends
        0 <= from,
    decreases s.len() - from,
{
    if from < 0 || from >= s.len() {
        None
    } else if s[from] == c {
        Some(from)
    } else {
        find_ch(s, from + 1, c)
    }
}

/// Whether the S3 marker stands in `s` at position `i`.
pub open spec fn marker_at(s: Seq<char>, i: int) -> bool {
    0 <= i && i + 4 <= s.len() && s.subrange(i, i + 4) == s3_marker()
}

/// The first position at or after `from` where the S3 marker stands in `s`.
pub open spec fn find_marker(s: Seq<char>, from: int) -> Option<int>
    recommends
        0 <= from,
    decreases s.len() - from,
{
    if from < 0 || from + 4 > s.len() {
        None
    } else if marker_at(s, from) {
        Some(from)
    } else {
        find_marker(s, from + 1)
    }
}

/// The URI that the configured settings resolve to.
///
/// With credentials: an explicit endpoint and bucket give `s3://` access to
/// the bucket, under the folder stripped of leading slashes; a folder that
/// is already an `s3://` URI stays as it is; a virtual-hosted S3 HTTPS URL
/// — `https://bucket.s3.…/key` — is turned back into `s3://bucket/key`.
/// Otherwise: an explicit endpoint and bucket give the bucket's public URL
/// under that endpoint; an `s3://` URI gives the bucket's public amazonaws
/// URL for its key; anything else is used as it stands.
pub open spec fn resolved_uri(
    folder: String,
    endpoint: Option<String>,
    bucket: Option<String>,
    has_credentials: bool,
) -> Seq<char> {
    let both = endpoint is Some && bucket is Some;
    if has_credentials && both {
        s3_scheme() + (match bucket {
            Some(b) => b@,
            None => Seq::empty(),
        }) + seq!['/'] + skip_slashes(folder@)
    } else if has_credentials && spec_starts_with(folder@, s3_scheme()) {
        folder@
    } else if has_credentials && spec_starts_with(folder@, https_scheme()) && find_marker(
        folder@.skip(8),
        0,
    ) is Some {
        let url = folder@.skip(8);
        let dot = match find_marker(url, 0) {
            Some(d) => d,
            None => 0,
        };
        match find_ch(url, 0, '/') {
            Some(sl) => s3_scheme() + url.take(dot) + seq!['/'] + url.skip(sl + 1),
            None => s3_scheme() + url.take(dot),
        }
    } else if both {
        https_scheme() + (match bucket {
            Some(b) => b@,
            None => Seq::empty(),
        }) + seq!['.'] + (match endpoint {
            Some(e) => e@,
            None => Seq::empty(),
        })
    } else if spec_starts_with(folder@, s3_scheme()) {
        let rest = folder@.skip(5);
        match find_ch(rest, 0, '/') {
            Some(sl) => https_scheme() + rest.take(sl) + amazon_host() + rest.skip(sl + 1),
            None => Seq::empty(),
        }
    } else {
        folder@
    }
}

proof fn lemma_find_ch_at(s: Seq<char>, from: int, c: char, i: int)
    requires
        0 <= from <= i < s.len(),
        s[i] == c,
        forall|q: int| from <= q < i ==> s[q] != c,
    ensures
        find_ch(s, from, c) == Some(i),
    decreases i - from,
{
    if from < i {
        lemma_find_ch_at(s, from + 1, c, i);
    }
}

proof fn lemma_find_ch_none(s: Seq<char>, from: int, c: char)
    requires
        0 <= from <= s.len(),
        forall|q: int| from <= q < s.len() ==> s[q] != c,
    ensures
        find_ch(s, from, c) is None,
    decreases s.len() - from,
{
    if from < s.len() {
        lemma_find_ch_none(s, from + 1, c);
    }
}

proof fn lemma_find_marker_at(s: Seq<char>, from: int, i: int)
    requires
        0 <= from <= i,
        marker_at(s, i),
        forall|q: int| from <= q < i ==> !marker_at(s, q),
    ensures
        find_marker(s, from) == Some(i),
    decreases i - from,
{
    if from < i {
        lemma_find_marker_at(s, from + 1, i);
    }
}

proof fn lemma_find_marker_none(s: Seq<char>, from: int)
    requires
        0 <= from <= s.len(),
        forall|q: int| from <= q ==> !marker_at(s, q),
    ensures
        find_marker(s, from) is None,
    decreases s.len() - from,
{
    if from + 4 <= s.len() {
        lemma_find_marker_none(s, from + 1);
    }
}

/// The first position at or after `from` where the S3 marker `.s3.` stands
/// in `s`.
fn find_marker_exec(s: &str, from: usize) -> (r: Option<usize>)
    requires
        from <= s@.len(),
    ensures
        match r {
            Some(i) => from <= i && i + 4 <= s@.len() && marker_at(s@, i as int) && find_marker(
                s@,
                from as int,
            ) == Some(i as int),
            None => find_marker(s@, from as int) is None,
        },
{
    let n = s.unicode_len();
    if n < 4 {
        proof {
            lemma_find_marker_none(s@, from as int);
        }
        return None;
    }
    let mut i = from;
    while i <= n - 4
        invariant
            from <= i,
            i <= n,
            n == s@.len(),
            n >= 4,
            forall|q: int| from <= q < i ==> !marker_at(s@, q),
        decreases n - i,
    {
        let c0 = s.get_char(i);
        let c1 = s.get_char(i + 1);
        let c2 = s.get_char(i + 2);
        let c3 = s.get_char(i + 3);
        if c0 == '.' && c1 == 's' && c2 == '3' && c3 == '.' {
            proof {
                assert(s@.subrange(i as int, i + 4) =~= s3_marker());
                lemma_find_marker_at(s@, from as int, i as int);
            }
            return Some(i);
        }
        proof {
            assert(!marker_at(s@, i as int)) by {
                if marker_at(s@, i as int) {
                    assert(s@.subrange(i as int, i + 4)[0] == c0);
                    assert(s@.subrange(i as int, i + 4)[1] == c1);
                    assert(s@.subrange(i as int, i + 4)[2] == c2);
                    assert(s@.subrange(i as int, i + 4)[3] == c3);
                }
            }
        }
        i = i + 1;
    }
    proof {
        assert forall|q: int| from <= q implies !marker_at(s@, q) by {
            if q >= i {
                assert(q + 4 > s@.len());
            }
        }
        lemma_find_marker_none(s@, from as int);
    }
    None
}

/// `s` without its leading slashes.
fn trim_leading_slashes<'a>(s: &'a str) -> (r: &'a str)
    ensures
        r@ == skip_slashes(s@),
{
    let n = s.unicode_len();
    let mut i: usize = 0;
    while i < n && s.get_char(i) == '/'
        invariant
            i <= n,
            n == s@.len(),
            forall|q: int| 0 <= q < i ==> s@[q] == '/',
        decreases n - i,
    {
        i = i + 1;
    }
    let r = s.substring_char(i, n);
    proof {
        lemma_skip_slashes_at(s@, i as int);
        assert(r@ =~= s@.skip(i as int));
    }
    r
}

proof fn lemma_skip_slashes_at(s: Seq<char>, i: int)
    requires
        0 <= i <= s.len(),
        forall|q: int| 0 <= q < i ==> s[q] == '/',
        i < s.len() ==> s[i] != '/',
    ensures
        skip_slashes(s) == s.skip(i),
    decreases i,
{
    if i == 0 {
        assert(s.skip(0) =~= s);
    } else {
        let d = s.drop_first();
        assert(forall|q: int| 0 <= q < i - 1 ==> d[q] == s[q + 1] && s[q + 1] == '/');
        assert(i - 1 < d.len() ==> d[i - 1] != '/');
        lemma_skip_slashes_at(d, i - 1);
        assert(d.skip(i - 1) =~= s.skip(i));
    }
}

/// The URI that the configured settings resolve to; see `resolved_uri`.
///
/// `endpoint` and `bucket` are the configured values with blank ones
/// already treated as unset, and `has_credentials` says whether both S3
/// keys were configured.
pub fn get_uri_from_config(
    tile_set_path: String,
    s3_endpoint: Option<String>,
    s3_bucket: Option<String>,
    has_credentials: bool,
) -> (r: String)
    requires
        (!has_credentials && !(s3_endpoint is Some && s3_bucket is Some) && spec_starts_with(
            tile_set_path@,
            s3_scheme(),
        )) ==> find_ch(tile_set_path@.skip(5), 0, '/') is Some,
    ensures
        r@ == resolved_uri(tile_set_path, s3_endpoint, s3_bucket, has_credentials),
{
    proof {
        reveal_strlit("s3://");
        assert("s3://"@ =~= s3_scheme());
        reveal_strlit("https://");
        assert("https://"@ =~= https_scheme());
        reveal_strlit("/");
        assert("/"@ =~= seq!['/']);
        reveal_strlit(".");
        assert("."@ =~= seq!['.']);
        reveal_strlit(".s3.amazonaws.com/");
        assert(".s3.amazonaws.com/"@ =~= amazon_host());
    }
    let path = tile_set_path.as_str();
    let is_s3 = str_starts_with(path, "s3://");
    let is_https = str_starts_with(path, "https://");
    let both = match (&s3_endpoint, &s3_bucket) {
        (Some(_), Some(_)) => true,
        _ => false,
    };
    if has_credentials {
        if both {
            let bucket = match &s3_bucket {
                Some(b) => b.as_str(),
                None => "",
            };
            let mut r = String::from_str("s3://");
            r.append(bucket);
            r.append("/");
            r.append(trim_leading_slashes(path));
            proof {
                assert(r@ =~= resolved_uri(
                    tile_set_path,
                    s3_endpoint,
                    s3_bucket,
                    has_credentials,
                ));
            }
            return r;
        }
        if is_s3 {
            return tile_set_path;
        }
        if is_https {
            let len = path.unicode_len();
            let url = path.substring_char(8, len);
            proof {
                assert(url@ =~= tile_set_path@.skip(8));
            }
            if let Some(dot) = find_marker_exec(url, 0) {
                let url_len = url.unicode_len();
                let bucket = url.substring_char(0, dot);
                proof {
                    assert(bucket@ =~= url@.take(dot as int));
                }
                let mut r = String::from_str("s3://");
                r.append(bucket);
                match find_char(url, 0, '/') {
                    Some(slash) => {
                        proof {
                            lemma_find_ch_at(url@, 0, '/', slash as int);
                        }
                        let key = url.substring_char(slash + 1, url_len);
                        r.append("/");
                        r.append(key);
                        proof {
                            assert(key@ =~= url@.skip(slash + 1));
                            assert(r@ =~= resolved_uri(
                                tile_set_path,
                                s3_endpoint,
                                s3_bucket,
                                has_credentials,
                            ));
                        }
                    },
                    None => {
                        proof {
                            lemma_find_ch_none(url@, 0, '/');
                            assert(r@ =~= resolved_uri(
                                tile_set_path,
                                s3_endpoint,
                                s3_bucket,
                                has_credentials,
                            ));
                        }
                    },
                }
                return r;
            }
        }
    }
    if both {
        let bucket = match &s3_bucket {
            Some(b) => b.as_str(),
            None => "",
        };
        let endpoint = match &s3_endpoint {
            Some(e) => e.as_str(),
            None => "",
        };
        let mut r = String::from_str("https://");
        r.append(bucket);
        r.append(".");
        r.append(endpoint);
        proof {
            assert(r@ =~= resolved_uri(tile_set_path, s3_endpoint, s3_bucket, has_credentials));
        }
        r
    } else if is_s3 {
        let len = path.unicode_len();
        let rest = path.substring_char(5, len);
        proof {
            assert(rest@ =~= tile_set_path@.skip(5));
        }
        let rest_len = rest.unicode_len();
        match find_char(rest, 0, '/') {
            Some(slash) => {
                proof {
                    lemma_find_ch_at(rest@, 0, '/', slash as int);
                }
                let bucket = rest.substring_char(0, slash);
                let key = rest.substring_char(slash + 1, rest_len);
                let mut r = String::from_str("https://");
                r.append(bucket);
                r.append(".s3.amazonaws.com/");
                r.append(key);
                proof {
                    assert(bucket@ =~= rest@.take(slash as int));
                    assert(key@ =~= rest@.skip(slash + 1));
                    assert(r@ =~= resolved_uri(
                        tile_set_path,
                        s3_endpoint,
                        s3_bucket,
                        has_credentials,
                    ));
                }
                r
            },
            None => {
                proof {
                    lemma_find_ch_none(rest@, 0, '/');
                    assert(false);
                }
                tile_set_path
            },
        }
    } else {
        tile_set_path
    }
}

} // verus!
