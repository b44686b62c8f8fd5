use heimdall::stac::{
    clean_asset_href, collections_url, contains_str, find_first_char, needs_signing,
    normalize_url, resolve_asset_path, search_url, starts_with_str, str_eq, trim_ascii_spaces,
    vsicurl_path, StacCatalog, StacLink, StacProvider, StacSearchContext, StacTemporalExtent,
};

#[test]
fn test_url_normalization() {
    // Test that trailing slashes are handled correctly
    let url_with_slash = "https://earth-search.aws.element84.com/v1/";
    let url_without_slash = "https://earth-search.aws.element84.com/v1";

    let normalized1 = normalize_url(url_with_slash);
    let normalized2 = normalize_url(url_without_slash);

    assert_eq!(normalized1, normalized2);
    assert_eq!(normalized1, "https://earth-search.aws.element84.com/v1");
}

#[test]
fn test_vsicurl_path_construction() {
    let asset_href = "https://example.com/data/image.tif";
    let vsicurl = vsicurl_path(asset_href);

    assert_eq!(vsicurl, "/vsicurl/https://example.com/data/image.tif");
}

#[test]
fn test_collections_url_construction() {
    let base_url = "https://earth-search.aws.element84.com/v1";
    let collections = collections_url(base_url);

    assert_eq!(
        collections,
        "https://earth-search.aws.element84.com/v1/collections"
    );
}

#[test]
fn test_search_url_construction() {
    let base_url = "https://earth-search.aws.element84.com/v1/";
    let search = search_url(base_url);

    assert_eq!(search, "https://earth-search.aws.element84.com/v1/search");
}

#[test]
fn test_normalize_url_many_slashes() {
    assert_eq!(normalize_url("https://example.com///"), "https://example.com");
    assert_eq!(normalize_url(""), "");
    assert_eq!(normalize_url("///"), "");
}

#[test]
fn test_trim_ascii_spaces() {
    assert_eq!(trim_ascii_spaces("  hello \t\r\n"), "hello");
    assert_eq!(trim_ascii_spaces("hello"), "hello");
    assert_eq!(trim_ascii_spaces(" \t "), "");
}

#[test]
fn test_string_helpers() {
    assert!(str_eq("abc", "abc"));
    assert!(!str_eq("abc", "abd"));
    assert!(!str_eq("abc", "ab"));
    assert!(starts_with_str("s3://bucket/key", "s3://"));
    assert!(!starts_with_str("http://bucket", "s3://"));
    assert!(contains_str("x.blob.core.windows.net/y", ".blob.core.windows.net"));
    assert!(!contains_str("x.example.com/y", ".blob.core.windows.net"));
    assert!(contains_str("anything", ""));
    assert_eq!(find_first_char("bucket/key/more", '/'), Some(6));
    assert_eq!(find_first_char("nokey", '/'), None);
}

#[test]
fn test_clean_asset_href_strips_prefix_and_space() {
    assert_eq!(
        clean_asset_href(" /vsicurl/https://example.com/a.tif \n"),
        "https://example.com/a.tif"
    );
    assert_eq!(
        clean_asset_href("https://example.com/a.tif"),
        "https://example.com/a.tif"
    );
}

#[test]
fn test_needs_signing_blob_storage() {
    assert!(needs_signing(
        "https://sentinel2l2a01.blob.core.windows.net/sentinel2-l2/a.tif"
    ));
    assert!(!needs_signing("https://example.com/a.tif"));
}

#[test]
fn test_resolve_asset_path_plain_https() {
    let r = resolve_asset_path("https://example.com/a.tif").unwrap();
    assert_eq!(r, "/vsicurl/https://example.com/a.tif");
}

#[test]
fn test_resolve_asset_path_s3_public() {
    let r = resolve_asset_path("s3://some-bucket/path/to/a.tif").unwrap();
    assert_eq!(
        r,
        "/vsicurl/https://some-bucket.s3.amazonaws.com/path/to/a.tif"
    );
}

#[test]
fn test_resolve_asset_path_sentinel_cogs_region() {
    let r = resolve_asset_path("s3://sentinel-cogs/path/a.tif").unwrap();
    assert_eq!(
        r,
        "/vsicurl/https://sentinel-cogs.s3.us-west-2.amazonaws.com/path/a.tif"
    );
}

#[test]
fn test_resolve_asset_path_requester_pays() {
    let e = resolve_asset_path("s3://usgs-landsat/path/a.tif").unwrap_err();
    assert_eq!(
        e,
        "This asset is stored in a requester-pays S3 bucket (usgs-landsat). \
         AWS credentials are required to access this data. \
         Try selecting a different collection or asset that uses public COG storage."
    );
}

#[test]
fn test_all_requester_pays_buckets_are_refused() {
    for bucket in [
        "sentinel-s2-l2a",
        "usgs-landsat",
        "sentinel-s1-l1c",
        "sentinel-s2-l1c",
        "copernicus-dem-30m",
        "copernicus-dem-90m",
    ] {
        let href = format!("s3://{}/k.tif", bucket);
        assert!(resolve_asset_path(&href).is_err(), "{} should be refused", bucket);
    }
}

#[test]
fn test_resolve_asset_path_s3_without_key() {
    let r = resolve_asset_path("s3://bucket-only").unwrap();
    assert_eq!(r, "/vsicurl/s3://bucket-only");
}

#[test]
fn test_stac_records_hold_fields() {
    let catalog = StacCatalog {
        id: "earth-search".to_string(),
        title: Some("Earth Search".to_string()),
        description: "Free satellite imagery".to_string(),
        catalog_type: "Catalog".to_string(),
        stac_version: Some("1.0.0".to_string()),
        conforms_to: Some(vec!["https://api.stacspec.org/v1.0.0/core".to_string()]),
    };
    assert_eq!(catalog.id, "earth-search");
    assert_eq!(catalog.catalog_type, "Catalog");

    let provider = StacProvider {
        name: "ESA".to_string(),
        roles: Some(vec!["producer".to_string()]),
        url: None,
    };
    assert_eq!(provider.name, "ESA");

    let link = StacLink {
        href: "https://example.com".to_string(),
        rel: "self".to_string(),
        link_type: None,
        title: None,
    };
    assert_eq!(link.rel, "self");

    let extent = StacTemporalExtent {
        interval: Some(vec![vec![Some("2015-06-27T00:00:00Z".to_string()), None]]),
    };
    assert_eq!(extent.interval.unwrap()[0][1], None);

    let ctx = StacSearchContext {
        matched: Some(100),
        returned: Some(10),
        limit: Some(10),
    };
    assert_eq!(ctx.matched, Some(100));
}
