use aur_sync::bun_bin::{Asset, BunBin, ReleaseDescriptor};
use aur_sync::decode::{decode_registry_versions, decode_release};
use aur_sync::Error;

#[test]
fn test_get_aur_version() {
    let body = "{\"results\":[{\"Name\":\"bun-bin\",\"Version\":\"1.0.28-1\"},\
                 {\"Name\":\"bun-git\",\"Version\":\"1.0.2.r20.bab9889-1\"}]}";
    let versions = decode_registry_versions(body, 2).unwrap();
    assert_eq!(versions, ["1.0.28", "1.0.2.r20.bab9889"]);
}

#[test]
fn bun_bin_extern_version() {
    let release = ReleaseDescriptor {
        version_tag: "bun-v1.0.28".to_string(),
        assets: Vec::new(),
    };
    let bb = BunBin::new(release);
    let github_version = bb.extern_version().unwrap();
    assert_eq!(github_version, "1.0.28");
}

#[test]
fn decode_release_reads_tag_and_assets() {
    let body = "{\"tag_name\":\"bun-v1.0.29\",\"assets\":[\
                 {\"name\":\"SHASUMS256.txt\",\"browser_download_url\":\"https://example.invalid/shasums\"},\
                 {\"name\":\"bun-linux-x64.zip\",\"browser_download_url\":\"https://example.invalid/x64\"}]}";
    let d = decode_release(body).unwrap();
    assert_eq!(d.version_tag, "bun-v1.0.29");
    assert_eq!(d.assets.len(), 2);
    assert_eq!(d.assets[0].name, "SHASUMS256.txt");
    assert_eq!(d.assets[1].url, "https://example.invalid/x64");
}

#[test]
fn decode_release_validates_field_presence() {
    assert!(matches!(decode_release("not json"), Err(Error::ParseError)));
    assert!(matches!(decode_release("{\"assets\":[]}"), Err(Error::ParseError)));
    assert!(matches!(decode_release("{\"tag_name\":\"\",\"assets\":[]}"), Err(Error::ParseError)));
    assert!(matches!(
        decode_release("{\"tag_name\":\"bun-v1\",\"assets\":[{\"name\":\"a\"}]}"),
        Err(Error::ParseError)
    ));
    assert!(matches!(
        decode_release("{\"tag_name\":\"bun-v1\"}"),
        Err(Error::ParseError)
    ));
}

#[test]
fn decode_registry_versions_normalizes_each_entry_in_order() {
    let body = "{\"results\":[{\"Name\":\"a\",\"Version\":\"2.1-1\"},\
                 {\"Name\":\"b\",\"Version\":\"3.0\"},\
                 {\"Name\":\"c\",\"Version\":\"4.5-1\"}]}";
    let versions = decode_registry_versions(body, 3).unwrap();
    assert_eq!(versions, ["2.1", "3.0", "4.5"]);
}

#[test]
fn decode_registry_versions_requires_every_package() {
    let body = "{\"results\":[{\"Name\":\"bun-bin\",\"Version\":\"1.0.28-1\"}]}";
    assert!(matches!(decode_registry_versions(body, 2), Err(Error::ParseError)));
    let body = "{\"results\":[{\"Name\":\"bun-bin\"}]}";
    assert!(matches!(decode_registry_versions(body, 1), Err(Error::ParseError)));
}

#[test]
fn release_asset_lookup_is_by_exact_name() {
    let release = ReleaseDescriptor {
        version_tag: "bun-v1.0.29".to_string(),
        assets: vec![
            Asset {
                name: "SHASUMS256.txt.asc".to_string(),
                url: "https://example.invalid/asc".to_string(),
            },
            Asset {
                name: "SHASUMS256.txt".to_string(),
                url: "https://example.invalid/shasums".to_string(),
            },
        ],
    };
    assert_eq!(
        release.checksum_manifest_url(),
        Ok("https://example.invalid/shasums".to_string())
    );
    let empty = ReleaseDescriptor {
        version_tag: "bun-v1.0.29".to_string(),
        assets: Vec::new(),
    };
    assert_eq!(
        empty.checksum_manifest_url(),
        Err(Error::NotFound("SHASUMS256.txt".to_string()))
    );
}
