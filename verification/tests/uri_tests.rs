use elevation_service::uri::get_uri_from_config;

#[test]
fn test_uri_credentials_with_endpoint_and_bucket() {
    let uri = get_uri_from_config(
        String::from("/srtm/v3"),
        Some(String::from("minio.local:9000")),
        Some(String::from("tiles")),
        true,
    );
    assert_eq!(uri, "s3://tiles/srtm/v3");
}

#[test]
fn test_uri_credentials_keep_s3_uri() {
    let uri = get_uri_from_config(String::from("s3://tiles/srtm"), None, None, true);
    assert_eq!(uri, "s3://tiles/srtm");
}

#[test]
fn test_uri_credentials_convert_virtual_hosted_url() {
    let uri = get_uri_from_config(
        String::from("https://tiles.s3.amazonaws.com/srtm/v3"),
        None,
        None,
        true,
    );
    assert_eq!(uri, "s3://tiles/srtm/v3");
}

#[test]
fn test_uri_credentials_convert_virtual_hosted_url_without_key() {
    let uri =
        get_uri_from_config(String::from("https://tiles.s3.eu-central-1.wasabi"), None, None, true);
    assert_eq!(uri, "s3://tiles");
}

#[test]
fn test_uri_public_endpoint_and_bucket() {
    let uri = get_uri_from_config(
        String::from("ignored"),
        Some(String::from("s3.example.com")),
        Some(String::from("tiles")),
        false,
    );
    assert_eq!(uri, "https://tiles.s3.example.com");
}

#[test]
fn test_uri_public_s3_uri_becomes_https() {
    let uri = get_uri_from_config(String::from("s3://tiles/srtm/v3"), None, None, false);
    assert_eq!(uri, "https://tiles.s3.amazonaws.com/srtm/v3");
}

#[test]
fn test_uri_plain_folder_stays() {
    let uri = get_uri_from_config(String::from("/var/lib/tiles"), None, None, false);
    assert_eq!(uri, "/var/lib/tiles");
}

#[test]
fn test_uri_https_without_marker_stays() {
    let uri = get_uri_from_config(String::from("https://tiles.example.com/srtm"), None, None, true);
    assert_eq!(uri, "https://tiles.example.com/srtm");
}
