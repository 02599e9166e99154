use aur_sync::checksum::{extract, extract_checksums};
use aur_sync::Error;

const MANIFEST: &str = "\
1111aaaa  bun-darwin-aarch64.zip
2222bbbb  bun-linux-aarch64.zip
3333cccc  bun-linux-x64.zip
4444dddd  bun-linux-x64-baseline.zip
";

#[test]
fn extract_returns_first_token_of_first_matching_line() {
    assert_eq!(
        extract(MANIFEST, "bun-linux-aarch64.zip"),
        Ok("2222bbbb".to_string())
    );
    assert_eq!(extract(MANIFEST, "bun-linux-x64.zip"), Ok("3333cccc".to_string()));
    assert_eq!(
        extract(MANIFEST, "bun-linux-x64-baseline.zip"),
        Ok("4444dddd".to_string())
    );
}

#[test]
fn extract_takes_the_first_of_several_matching_lines() {
    let manifest = "aa first.zip\nbb first.zip\n";
    assert_eq!(extract(manifest, "first.zip"), Ok("aa".to_string()));
    // A broad label matches the earliest line that contains it.
    assert_eq!(extract(MANIFEST, "bun-"), Ok("1111aaaa".to_string()));
}

#[test]
fn extract_absent_label_is_not_found() {
    assert_eq!(
        extract(MANIFEST, "bun-windows-x64.zip"),
        Err(Error::NotFound("bun-windows-x64.zip".to_string()))
    );
    assert_eq!(extract("", "anything"), Err(Error::NotFound("anything".to_string())));
}

#[test]
fn extract_skips_leading_whitespace_of_the_line() {
    let manifest = "   \t  feedbeef   some-file.zip\n";
    assert_eq!(extract(manifest, "some-file.zip"), Ok("feedbeef".to_string()));
}

#[test]
fn extract_checksums_finds_all_three_roles() {
    let cs = extract_checksums(MANIFEST).unwrap();
    assert_eq!(cs.aarch, "2222bbbb");
    assert_eq!(cs.x64, "3333cccc");
    assert_eq!(cs.baseline, "4444dddd");
}

#[test]
fn extract_checksums_missing_role_is_not_found() {
    let manifest = "2222bbbb  bun-linux-aarch64.zip\n3333cccc  bun-linux-x64.zip\n";
    assert_eq!(
        extract_checksums(manifest),
        Err(Error::NotFound("bun-linux-x64-baseline.zip".to_string()))
    );
}
