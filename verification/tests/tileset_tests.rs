use elevation_service::tileset::{
    decode_payload, CredentialsChoice, HTTPTileSet, RegionChoice, S3TileSet, TileSet,
};
use elevation_service::types::{ElevationError, TileSetOptions};
use flate2::write::GzEncoder;
use flate2::Compression;
use std::io::Write;

#[test]
fn test_tile_set_options_default() {
    let options = TileSetOptions::default();
    assert_eq!(options.path, "");
    assert_eq!(options.cache_size, 128);
    assert!(options.gzip);
}

#[test]
fn test_tile_set_options_custom() {
    let options = TileSetOptions {
        path: String::from("custom_path"),
        cache_size: 256,
        gzip: false,
        s3_access_key_id: None,
        s3_secret_access_key: None,
        s3_region: None,
        s3_endpoint: None,
    };

    assert_eq!(options.path, "custom_path");
    assert_eq!(options.cache_size, 256);
    assert!(!options.gzip);
}

fn options_for(path: &str) -> TileSetOptions {
    TileSetOptions { path: String::from(path), ..TileSetOptions::default() }
}

#[test]
fn test_tileset_new_selects_s3() {
    let ts = TileSet::new(options_for("s3://my-bucket/some/prefix")).unwrap();
    match ts {
        TileSet::S3(s3) => {
            assert_eq!(s3.bucket, "my-bucket");
            assert_eq!(s3.key_prefix, "some/prefix");
            assert!(s3.gzip);
            assert!(matches!(s3.credentials, CredentialsChoice::Default));
            assert!(matches!(s3.region, RegionChoice::Default));
        },
        _ => panic!("an s3:// URI selects the S3 backend"),
    }
}

#[test]
fn test_tileset_new_s3_without_prefix() {
    let ts = TileSet::new(options_for("s3://just-bucket")).unwrap();
    match ts {
        TileSet::S3(s3) => {
            assert_eq!(s3.bucket, "just-bucket");
            assert_eq!(s3.key_prefix, "");
        },
        _ => panic!("an s3:// URI selects the S3 backend"),
    }
}

#[test]
fn test_tileset_new_selects_http() {
    let ts = TileSet::new(options_for("https://tiles.example.com/srtm")).unwrap();
    match ts {
        TileSet::HTTP(h) => assert_eq!(h.base_url, "https://tiles.example.com/srtm"),
        _ => panic!("an https:// URI selects the HTTP backend"),
    }
    let ts = TileSet::new(options_for("http://tiles.example.com")).unwrap();
    assert!(matches!(ts, TileSet::HTTP(_)));
}

#[test]
fn test_tileset_new_selects_file() {
    let ts = TileSet::new(options_for("/var/lib/tiles")).unwrap();
    match ts {
        TileSet::File(f) => assert_eq!(f.folder, "/var/lib/tiles"),
        _ => panic!("a plain path selects the filesystem backend"),
    }
}

#[test]
fn test_s3_credentials_and_region_choices() {
    let s3 = S3TileSet::new(
        String::from("b"),
        String::new(),
        true,
        Some(String::from("key-id")),
        Some(String::from("key-value")),
        Some(String::from("eu-central-1")),
        None,
    );
    assert!(matches!(s3.credentials, CredentialsChoice::Explicit { .. }));
    match s3.region {
        RegionChoice::Named(n) => assert_eq!(n, "eu-central-1"),
        _ => panic!("a region alone is a named region"),
    }

    let s3 = S3TileSet::new(
        String::from("b"),
        String::new(),
        true,
        None,
        None,
        None,
        Some(String::from("minio.local:9000")),
    );
    assert!(matches!(s3.credentials, CredentialsChoice::Default));
    match s3.region {
        RegionChoice::Custom { region, endpoint } => {
            assert_eq!(region, "us-east-1");
            assert_eq!(endpoint, "minio.local:9000");
        },
        _ => panic!("an endpoint alone is a custom endpoint under us-east-1"),
    }

    let s3 = S3TileSet::new(
        String::from("b"),
        String::new(),
        true,
        Some(String::from("key-id")),
        None,
        Some(String::from("r")),
        Some(String::from("e")),
    );
    assert!(matches!(s3.credentials, CredentialsChoice::Default));
    assert!(matches!(s3.region, RegionChoice::Custom { .. }));
}

#[test]
fn test_http_tile_url() {
    let h = HTTPTileSet::new(String::from("https://tiles.example.com"), TileSetOptions::default());
    assert_eq!(h.tile_url(45, 9), "https://tiles.example.com/N45/N45E009.hgt.gz");
    assert_eq!(h.tile_url(-46, -10), "https://tiles.example.com/S46/S46W010.hgt.gz");
}

#[test]
fn test_s3_object_key() {
    let with_prefix = S3TileSet::new(
        String::from("b"),
        String::from("srtm/v3"),
        true,
        None,
        None,
        None,
        None,
    );
    assert_eq!(with_prefix.object_key(45, 9), "srtm/v3/N45/N45E009.hgt.gz");

    let without_prefix =
        S3TileSet::new(String::from("b"), String::new(), true, None, None, None, None);
    assert_eq!(without_prefix.object_key(45, 9), "N45/N45E009.hgt.gz");
}

fn gzip_bytes(data: &[u8]) -> Vec<u8> {
    let mut encoder = GzEncoder::new(Vec::new(), Compression::default());
    encoder.write_all(data).unwrap();
    encoder.finish().unwrap()
}

#[test]
fn test_decode_payload_gunzips() {
    let payload = gzip_bytes(&[1, 2, 3, 4, 5]);
    assert_ne!(payload, vec![1, 2, 3, 4, 5]);
    assert_eq!(decode_payload(payload, true).unwrap(), vec![1, 2, 3, 4, 5]);
}

#[test]
fn test_decode_payload_passthrough_without_gzip() {
    assert_eq!(decode_payload(vec![9, 8, 7], false).unwrap(), vec![9, 8, 7]);
}

#[test]
fn test_decode_payload_rejects_malformed_gzip() {
    let r = decode_payload(vec![0, 1, 2, 3], true);
    assert_eq!(r.unwrap_err(), ElevationError::InvalidTileFormat);
}
