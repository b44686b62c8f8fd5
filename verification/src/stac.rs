//! Catalog client: the data records and the URL handling.
//!
//! The catalog (a SpatioTemporal Asset Catalog API) is reached over HTTP by
//! the unverified shell; this module owns what can be verified of it: the
//! plain data records and every piece of URL and path construction — base
//! URL normalization, endpoint URLs, the virtual-curl path for remote
//! rasters, and the rewriting of s3:// asset links to public HTTPS form
//! with the requester-pays refusal.

use vstd::prelude::*;
use vstd::string::*;

verus! {

/// The root record of a catalog API.
#[derive(Clone, Debug)]
pub struct StacCatalog {
    pub id: String,
    pub title: Option<String>,
    pub description: String,
    pub catalog_type: String,
    pub stac_version: Option<String>,
    pub conforms_to: Option<Vec<String>>,
}

/// Temporal extent of a collection: [start, end] pairs, an endpoint of
/// `None` meaning open-ended.
#[derive(Clone, Debug)]
pub struct StacTemporalExtent {
    pub interval: Option<Vec<Vec<Option<String>>>>,
}

/// A data provider associated with a collection.
#[derive(Clone, Debug)]
pub struct StacProvider {
    pub name: String,
    pub roles: Option<Vec<String>>,
    pub url: Option<String>,
}

/// A link to a related resource.
#[derive(Clone, Debug)]
pub struct StacLink {
    pub href: String,
    pub rel: String,
    pub link_type: Option<String>,
    pub title: Option<String>,
}

/// Tallies a search response reports about itself.
#[derive(Clone, Debug)]
pub struct StacSearchContext {
    pub matched: Option<u64>,
    pub returned: Option<u64>,
    pub limit: Option<u32>,
}

// ---------------------------------------------------------------------------
// Generic string tests
// ---------------------------------------------------------------------------

/// `s` starts with `p`.
pub open spec fn has_prefix(s: Seq<char>, p: Seq<char>) -> bool {
    s.len() >= p.len() && s.subrange(0, p.len() as int) == p
}

/// `sub` occurs somewhere in `s`.
pub open spec fn contains_seq(s: Seq<char>, sub: Seq<char>) -> bool {
    exists|i: int| 0 <= i && i + sub.len() <= s.len() && #[trigger] s.subrange(i, i + sub.len()) == sub
}

/// `i` is the first occurrence of `c` in `s`.
pub open spec fn is_first_char_at(s: Seq<char>, c: char, i: int) -> bool {
    0 <= i < s.len() && s[i] == c && (forall|j: int| 0 <= j < i ==> s[j] != c)
}

/// Character-wise string equality.
pub fn str_eq(a: &str, b: &str) -> (r: bool)
    ensures
        r == (a@ == b@),
{
    let n = a.unicode_len();
    if n != b.unicode_len() {
        return false;
    }
    let mut i: usize = 0;
    while i < n
        invariant
            i <= n,
            n == a@.len(),
            n == b@.len(),
            forall|k: int| 0 <= k < i ==> a@[k] == b@[k],
        decreases n - i,
    {
        if a.get_char(i) != b.get_char(i) {
            return false;
        }
        i = i + 1;
    }
    proof {
        assert(a@ =~= b@);
    }
    true
}

/// Prefix test.
pub fn starts_with_str(s: &str, p: &str) -> (r: bool)
    ensures
        r == has_prefix(s@, p@),
{
    let n = s.unicode_len();
    let m = p.unicode_len();
    if m > n {
        return false;
    }
    let mut i: usize = 0;
    while i < m
        invariant
            i <= m <= n,
            n == s@.len(),
            m == p@.len(),
            forall|k: int| 0 <= k < i ==> s@[k] == p@[k],
        decreases m - i,
    {
        if s.get_char(i) != p.get_char(i) {
            assert(s@.subrange(0, m as int)[i as int] != p@[i as int]);
            return false;
        }
        i = i + 1;
    }
    proof {
        assert(s@.subrange(0, m as int) =~= p@);
    }
    true
}

/// Substring test.
pub fn contains_str(s: &str, sub: &str) -> (r: bool)
    ensures
        r == contains_seq(s@, sub@),
{
    let n = s.unicode_len();
    let m = sub.unicode_len();
    if m == 0 {
        proof {
            assert(s@.subrange(0, 0 + sub@.len() as int) =~= sub@);
        }
        return true;
    }
    if m > n {
        return false;
    }
    let mut i: usize = 0;
    while i <= n - m
        invariant
            0 < m <= n,
            i <= n - m + 1,
            n == s@.len(),
            m == sub@.len(),
            forall|k: int| 0 <= k < i ==> #[trigger] s@.subrange(k, k + m) != sub@,
        decreases n - i,
    {
        let mut j: usize = 0;
        let mut matched = true;
        while j < m && matched
            invariant
                0 <= j <= m,
                i + m <= n,
                n == s@.len(),
                m == sub@.len(),
                matched ==> forall|t: int| 0 <= t < j ==> s@[i + t] == sub@[t],
                !matched ==> s@.subrange(i as int, i + m) != sub@,
            decreases m - j,
        {
            if s.get_char(i + j) != sub.get_char(j) {
                assert(s@.subrange(i as int, i + m)[j as int] != sub@[j as int]);
                matched = false;
            }
            j = j + 1;
        }
        if matched {
            proof {
                assert(s@.subrange(i as int, i + m) =~= sub@);
            }
            return true;
        }
        i = i + 1;
    }
    false
}

/// The first occurrence of `c` in `s`, if any.
pub fn find_first_char(s: &str, c: char) -> (r: Option<usize>)
    ensures
        r is Some ==> is_first_char_at(s@, c, r.unwrap() as int),
        r is None ==> forall|j: int| 0 <= j < s@.len() ==> s@[j] != c,
{
    let n = s.unicode_len();
    let mut i: usize = 0;
    while i < n
        invariant
            i <= n,
            n == s@.len(),
            forall|j: int| 0 <= j < i ==> s@[j] != c,
        decreases n - i,
    {
        if s.get_char(i) == c {
            return Some(i);
        }
        i = i + 1;
    }
    None
}

// ---------------------------------------------------------------------------
// Trimming
// ---------------------------------------------------------------------------

/// ASCII whitespace, as it occurs around pasted URLs.
pub open spec fn is_space(c: char) -> bool {
    c == ' ' || c == '\t' || c == '\n' || c == '\r'
}

/// `s` without trailing whitespace.
pub open spec fn trim_end_spaces(s: Seq<char>) -> Seq<char>
    decreases s.len(),
{
    if s.len() > 0 && is_space(s.last()) {
        trim_end_spaces(s.drop_last())
    } else {
        s
    }
}

/// `s` without leading whitespace.
pub open spec fn trim_start_spaces(s: Seq<char>) -> Seq<char>
    decreases s.len(),
{
    if s.len() > 0 && is_space(s.first()) {
        trim_start_spaces(s.drop_first())
    } else {
        s
    }
}

/// `s` without leading and trailing whitespace.
pub open spec fn trim_spaces(s: Seq<char>) -> Seq<char> {
    trim_end_spaces(trim_start_spaces(s))
}

fn is_space_char(c: char) -> (r: bool)
    ensures
        r == is_space(c),
{
    c == ' ' || c == '\t' || c == '\n' || c == '\r'
}

/// Strip leading and trailing ASCII whitespace.
pub fn trim_ascii_spaces(s: &str) -> (r: &str)
    ensures
        r@ == trim_spaces(s@),
{
    let n = s.unicode_len();
    proof {
        assert(s@.subrange(0, n as int) =~= s@);
    }
    let mut start: usize = 0;
    while start < n && is_space_char(s.get_char(start))
        invariant
            start <= n,
            n == s@.len(),
            trim_start_spaces(s@) == trim_start_spaces(s@.subrange(start as int, n as int)),
        decreases n - start,
    {
        proof {
            assert(s@.subrange(start as int, n as int).drop_first() =~= s@.subrange(
                start + 1,
                n as int,
            ));
        }
        start = start + 1;
    }
    proof {
        assert(trim_start_spaces(s@) == s@.subrange(start as int, n as int));
    }
    let mut end: usize = n;
    while end > start && is_space_char(s.get_char(end - 1))
        invariant
            start <= end <= n,
            n == s@.len(),
            trim_end_spaces(s@.subrange(start as int, n as int)) == trim_end_spaces(
                s@.subrange(start as int, end as int),
            ),
        decreases end,
    {
        proof {
            assert(s@.subrange(start as int, end as int).drop_last() =~= s@.subrange(
                start as int,
                end - 1,
            ));
        }
        end = end - 1;
    }
    proof {
        assert(trim_end_spaces(s@.subrange(start as int, end as int)) == s@.subrange(
            start as int,
            end as int,
        ));
    }
    s.substring_char(start, end)
}

// ---------------------------------------------------------------------------
// Endpoint URLs
// ---------------------------------------------------------------------------

/// `s` without trailing slashes.
pub open spec fn trim_end_slashes(s: Seq<char>) -> Seq<char>
    decreases s.len(),
{
    if s.len() > 0 && s.last() == '/' {
        trim_end_slashes(s.drop_last())
    } else {
        s
    }
}

/// Normalize a base URL by removing trailing slashes.
pub fn normalize_url(url: &str) -> (r: &str)
    ensures
        r@ == trim_end_slashes(url@),
{
    let n = url.unicode_len();
    proof {
        assert(url@.subrange(0, n as int) =~= url@);
    }
    let mut end: usize = n;
    while end > 0 && url.get_char(end - 1) == '/'
        invariant
            end <= n,
            n == url@.len(),
            trim_end_slashes(url@) == trim_end_slashes(url@.subrange(0, end as int)),
        decreases end,
    {
        proof {
            assert(url@.subrange(0, end as int).drop_last() =~= url@.subrange(0, end - 1));
        }
        end = end - 1;
    }
    proof {
        assert(url@.subrange(0, end as int) == trim_end_slashes(url@));
    }
    url.substring_char(0, end)
}

/// The collections endpoint of a catalog: the normalized base URL followed
/// by "/collections".
pub fn collections_url(base: &str) -> (r: String)
    ensures
        r@ == trim_end_slashes(base@) + "/collections"@,
{
    let t = normalize_url(base);
    String::from_str(t).concat("/collections")
}

/// The search endpoint of a catalog: the normalized base URL followed by
/// "/search".
pub fn search_url(base: &str) -> (r: String)
    ensures
        r@ == trim_end_slashes(base@) + "/search"@,
{
    let t = normalize_url(base);
    String::from_str(t).concat("/search")
}

/// The virtual-curl path under which the raster library opens a remote
/// file: "/vsicurl/" followed by the URL.
pub fn vsicurl_path(href: &str) -> (r: String)
    ensures
        r@ == "/vsicurl/"@ + href@,
{
    String::from_str("/vsicurl/").concat(href)
}

// ---------------------------------------------------------------------------
// Asset links
// ---------------------------------------------------------------------------

/// `s` without a leading "/vsicurl/", where it carries one.
pub open spec fn strip_vsicurl(s: Seq<char>) -> Seq<char> {
    if has_prefix(s, "/vsicurl/"@) {
        s.skip("/vsicurl/"@.len() as int)
    } else {
        s
    }
}

/// An asset link as handed onward: surrounding whitespace removed, one
/// leading "/vsicurl/" stripped (links arrive both bare and prefixed), and
/// trimmed again.
pub open spec fn spec_clean_href(s: Seq<char>) -> Seq<char> {
    trim_spaces(strip_vsicurl(trim_spaces(s)))
}

/// Normalize an asset link: trim, strip one "/vsicurl/" prefix, trim.
pub fn clean_asset_href(href: &str) -> (r: &str)
    ensures
        r@ == spec_clean_href(href@),
{
    let t = trim_ascii_spaces(href);
    let stripped: &str = if starts_with_str(t, "/vsicurl/") {
        proof {
            reveal_strlit("/vsicurl/");
            assert(t@.subrange(9, t@.len() as int) =~= t@.skip(9));
        }
        t.substring_char(9, t.unicode_len())
    } else {
        t
    };
    trim_ascii_spaces(stripped)
}

/// Whether the asset sits in blob storage that hands out access tokens:
/// such a link is signed by the shell before it is opened.
pub fn needs_signing(clean: &str) -> (r: bool)
    ensures
        r == contains_seq(clean@, ".blob.core.windows.net"@),
{
    contains_str(clean, ".blob.core.windows.net")
}

/// The link after the "s3://" scheme prefix.
pub open spec fn s3_rest(clean: Seq<char>) -> Seq<char> {
    clean.skip("s3://"@.len() as int)
}

/// The link names an s3 bucket and a key: it starts with "s3://" and has a
/// slash after the bucket name.
pub open spec fn s3_has_bucket_path(clean: Seq<char>) -> bool {
    has_prefix(clean, "s3://"@) && exists|i: int|
        0 <= i < s3_rest(clean).len() && #[trigger] s3_rest(clean)[i] == '/'
}

/// The position of the slash separating bucket and key.
pub open spec fn s3_slash_index(clean: Seq<char>) -> int {
    choose|i: int| is_first_char_at(s3_rest(clean), '/', i)
}

/// The bucket named by an s3 link.
pub open spec fn s3_bucket(clean: Seq<char>) -> Seq<char> {
    s3_rest(clean).subrange(0, s3_slash_index(clean))
}

/// The object key named by an s3 link.
pub open spec fn s3_path(clean: Seq<char>) -> Seq<char> {
    s3_rest(clean).skip(s3_slash_index(clean) + 1)
}

/// Buckets that bill the requester: they need credentials, so opening such
/// an asset is refused with an explanation instead of failing downstream.
pub open spec fn requester_pays_bucket(b: Seq<char>) -> bool {
    ||| b == "sentinel-s2-l2a"@
    ||| b == "usgs-landsat"@
    ||| b == "sentinel-s1-l1c"@
    ||| b == "sentinel-s2-l1c"@
    ||| b == "copernicus-dem-30m"@
    ||| b == "copernicus-dem-90m"@
}

/// The HTTPS form of an asset link: an s3 link to a public bucket becomes
/// a bucket-hosted HTTPS URL (the sentinel-cogs bucket pins its region);
/// everything else passes through unchanged.
pub open spec fn spec_https_href(clean: Seq<char>) -> Seq<char> {
    if s3_has_bucket_path(clean) {
        if s3_bucket(clean) == "sentinel-cogs"@ {
            "https://"@ + s3_bucket(clean) + ".s3.us-west-2.amazonaws.com/"@ + s3_path(clean)
        } else {
            "https://"@ + s3_bucket(clean) + ".s3.amazonaws.com/"@ + s3_path(clean)
        }
    } else {
        clean
    }
}

/// The refusal handed back for a requester-pays bucket.
pub open spec fn spec_requester_pays_message(b: Seq<char>) -> Seq<char> {
    "This asset is stored in a requester-pays S3 bucket ("@ + b
        + "). AWS credentials are required to access this data. Try selecting a different collection or asset that uses public COG storage."@
}

proof fn lemma_first_char_unique(s: Seq<char>, c: char, i: int, j: int)
    requires
        is_first_char_at(s, c, i),
        is_first_char_at(s, c, j),
    ensures
        i == j,
{
    if i < j {
        assert(s[i] == c);
    } else if j < i {
        assert(s[j] == c);
    }
}

fn is_requester_pays(bucket: &str) -> (r: bool)
    ensures
        r == requester_pays_bucket(bucket@),
{
    str_eq(bucket, "sentinel-s2-l2a") || str_eq(bucket, "usgs-landsat") || str_eq(
        bucket,
        "sentinel-s1-l1c",
    ) || str_eq(bucket, "sentinel-s2-l1c") || str_eq(bucket, "copernicus-dem-30m") || str_eq(
        bucket,
        "copernicus-dem-90m",
    )
}

/// Turn a cleaned (and, where needed, signed) asset link into the
/// virtual-curl path under which the raster library opens it. An s3 link
/// is rewritten to public HTTPS form first; one that names a
/// requester-pays bucket is refused.
pub fn resolve_asset_path(clean: &str) -> (r: Result<String, String>)
    ensures
        r is Ok <==> !(s3_has_bucket_path(clean@) && requester_pays_bucket(s3_bucket(clean@))),
        r is Ok ==> r.unwrap()@ == "/vsicurl/"@ + spec_https_href(clean@),
        r is Err ==> r.unwrap_err()@ == spec_requester_pays_message(s3_bucket(clean@)),
{
    if !starts_with_str(clean, "s3://") {
        return Ok(vsicurl_path(clean));
    }
    proof {
        reveal_strlit("s3://");
    }
    let n = clean.unicode_len();
    let rest = clean.substring_char(5, n);
    proof {
        assert(rest@ =~= s3_rest(clean@));
    }
    match find_first_char(rest, '/') {
        None => {
            assert(!s3_has_bucket_path(clean@));
            Ok(vsicurl_path(clean))
        },
        Some(k) => {
            proof {
                assert(s3_has_bucket_path(clean@));
                let w = s3_slash_index(clean@);
                assert(is_first_char_at(s3_rest(clean@), '/', k as int));
                assert(is_first_char_at(s3_rest(clean@), '/', w));
                lemma_first_char_unique(s3_rest(clean@), '/', w, k as int);
            }
            let m = rest.unicode_len();
            let bucket = rest.substring_char(0, k);
            let path = rest.substring_char(k + 1, m);
            proof {
                assert(bucket@ == s3_bucket(clean@));
                assert(path@ =~= s3_path(clean@));
            }
            if is_requester_pays(bucket) {
                let msg = String::from_str(
                    "This asset is stored in a requester-pays S3 bucket (",
                ).concat(bucket).concat(
                    "). AWS credentials are required to access this data. Try selecting a different collection or asset that uses public COG storage.",
                );
                proof {
                    assert(msg@ =~= spec_requester_pays_message(s3_bucket(clean@)));
                }
                Err(msg)
            } else {
                let host: &str = if str_eq(bucket, "sentinel-cogs") {
                    ".s3.us-west-2.amazonaws.com/"
                } else {
                    ".s3.amazonaws.com/"
                };
                let https = String::from_str("https://").concat(bucket).concat(host).concat(path);
                proof {
                    assert(https@ =~= spec_https_href(clean@));
                }
                Ok(vsicurl_path(https.as_str()))
            }
        },
    }
}

} // verus!
