//! End-to-end runs of the engine on in-memory inputs, mirroring how the
//! surrounding program drives it: decide, plan, apply, conclude.

use aur_sync::bun_bin::{Asset, BunBin, ReleaseDescriptor};
use aur_sync::checksum::{extract_checksums, ChecksumSet};
use aur_sync::sync::{apply_plan, decide_sync, publish_result, SyncDecision, SyncResult};
use aur_sync::Error;

fn release(tag: &str) -> ReleaseDescriptor {
    ReleaseDescriptor {
        version_tag: tag.to_string(),
        assets: vec![Asset {
            name: "SHASUMS256.txt".to_string(),
            url: "https://example.invalid/shasums".to_string(),
        }],
    }
}

const MANIFEST: &str = "\
2222bbbb  bun-linux-aarch64.zip
3333cccc  bun-linux-x64.zip
4444dddd  bun-linux-x64-baseline.zip
";

const SRCINFO_OLD: &str = "\
pkgbase = bun-bin
\tpkgver = 1.0.28
\tsha256sums_aarch64 = 9999aaaa
\tsha256sums_x86_64 = 8888bbbb
";

const PKGBUILD_OLD: &str = "\
pkgver=1.0.28
sha256sums_aarch64=('9999aaaa')
sha256sums_x86_64=('8888bbbb')
_baseline_sha256sums='7777cccc'
";

#[test]
fn scenario_stale_package_is_planned_applied_and_updated() {
    let bb = BunBin::new(release("bun-v1.0.29"));
    let new_version = bb.extern_version().unwrap();
    assert_eq!(decide_sync("1.0.28", "bun-v1.0.29"), SyncDecision::Publish);

    let checksums = extract_checksums(MANIFEST).unwrap();
    let plan = bb.replace_list(&checksums).unwrap();
    assert_eq!(plan.len(), 2);

    let contents = vec![SRCINFO_OLD.to_string(), PKGBUILD_OLD.to_string()];
    let (outs, changed) = apply_plan(&plan, &contents).unwrap();
    assert_eq!(changed, [true, true]);
    assert!(outs[0].contains("pkgver = 1.0.29"));
    assert!(outs[0].contains("sha256sums_aarch64 = 2222bbbb"));
    assert!(outs[0].contains("sha256sums_x86_64 = 3333cccc"));
    assert!(outs[1].contains("pkgver=1.0.29"));
    assert!(outs[1].contains("sha256sums_aarch64=('2222bbbb')"));
    assert!(outs[1].contains("sha256sums_x86_64=('3333cccc')"));
    assert!(outs[1].contains("_baseline_sha256sums='4444dddd'"));

    let result = publish_result("1.0.28", new_version.as_str(), Ok(()));
    assert_eq!(
        result,
        SyncResult::Updated("1.0.28".to_string(), "1.0.29".to_string())
    );
}

#[test]
fn scenario_up_to_date_package_does_nothing() {
    assert_eq!(decide_sync("1.0.28-1", "bun-v1.0.28"), SyncDecision::UpToDate);
    // Even when a plan is applied to files already at the version, nothing
    // is marked for writing.
    let bb = BunBin::new(release("bun-v1.0.28"));
    let cs = ChecksumSet {
        aarch: "9999aaaa".to_string(),
        x64: "8888bbbb".to_string(),
        baseline: "7777cccc".to_string(),
    };
    let plan = bb.replace_list(&cs).unwrap();
    let contents = vec![SRCINFO_OLD.to_string(), PKGBUILD_OLD.to_string()];
    let (outs, changed) = apply_plan(&plan, &contents).unwrap();
    assert_eq!(changed, [false, false]);
    assert_eq!(outs, contents);
}

#[test]
fn scenario_missing_baseline_checksum_fails_only_that_package() {
    let incomplete = "2222bbbb  bun-linux-aarch64.zip\n3333cccc  bun-linux-x64.zip\n";
    // Two tracked packages; the first one's manifest lacks the baseline
    // entry, the second is up to date. Each package records its own result.
    let mut results: Vec<SyncResult> = Vec::new();
    for (downstream, tag, manifest) in [
        ("1.0.28", "bun-v1.0.29", incomplete),
        ("1.0.28-1", "bun-v1.0.28", MANIFEST),
    ] {
        match decide_sync(downstream, tag) {
            SyncDecision::UpToDate => results.push(SyncResult::UpToDate),
            SyncDecision::Publish => {
                let bb = BunBin::new(release(tag));
                match extract_checksums(manifest) {
                    Ok(cs) => match bb.replace_list(&cs) {
                        Ok(_) => results.push(SyncResult::Updated(
                            downstream.to_string(),
                            bb.extern_version().unwrap(),
                        )),
                        Err(e) => results.push(SyncResult::Failed(e)),
                    },
                    Err(e) => results.push(SyncResult::Failed(e)),
                }
            }
        }
    }
    assert_eq!(results.len(), 2);
    assert_eq!(
        results[0],
        SyncResult::Failed(Error::NotFound("bun-linux-x64-baseline.zip".to_string()))
    );
    assert_eq!(results[1], SyncResult::UpToDate);

    // When the roles are present but one is empty, planning itself fails.
    let bb = BunBin::new(release("bun-v1.0.29"));
    let cs = ChecksumSet {
        aarch: "2222bbbb".to_string(),
        x64: "3333cccc".to_string(),
        baseline: String::new(),
    };
    assert_eq!(
        bb.replace_list(&cs),
        Err(Error::MissingField("_baseline_sha256sums".to_string()))
    );
}

#[test]
fn scenario_rejected_push_is_recorded_and_rechecked_next_run() {
    // The publish step is refused (a stale remote tip); the package records
    // the originating error.
    let result = publish_result("1.0.28", "1.0.29", Err(Error::VcsError));
    assert_eq!(result, SyncResult::Failed(Error::VcsError));
    // The next run starts over at the checking step and still finds the
    // package stale, since the registry was never updated.
    assert_eq!(decide_sync("1.0.28", "bun-v1.0.29"), SyncDecision::Publish);
}
