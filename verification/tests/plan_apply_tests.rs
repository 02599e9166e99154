use aur_sync::apply::{apply_substitution, apply_subs};
use aur_sync::checksum::ChecksumSet;
use aur_sync::plan::{build_plan, CharClass, Substitution};
use aur_sync::Error;

fn checksums() -> ChecksumSet {
    ChecksumSet {
        aarch: "aaaa1111".to_string(),
        x64: "bbbb2222".to_string(),
        baseline: "cccc3333".to_string(),
    }
}

const SRCINFO_OLD: &str = "\
pkgbase = bun-bin
\tpkgver = 1.0.28
\tsha256sums_aarch64 = 9999aaaa
\tsha256sums_x86_64 = 8888bbbb
";

const PKGBUILD_OLD: &str = "\
pkgver=1.0.28
pkgrel=1
sha256sums_aarch64=('9999aaaa')
sha256sums_x86_64=('8888bbbb')
_baseline_sha256sums='7777cccc'
";

#[test]
fn plan_is_deterministic() {
    let p1 = build_plan("1.0.29", &checksums()).unwrap();
    let p2 = build_plan("1.0.29", &checksums()).unwrap();
    assert_eq!(p1, p2);
}

#[test]
fn plan_names_both_files_in_order() {
    let plan = build_plan("1.0.29", &checksums()).unwrap();
    assert_eq!(plan.len(), 2);
    assert_eq!(plan[0].filename, ".SRCINFO");
    assert_eq!(plan[0].subs.len(), 3);
    assert_eq!(plan[1].filename, "PKGBUILD");
    assert_eq!(plan[1].subs.len(), 4);
    assert_eq!(plan[0].subs[0].prefix, "pkgver = ");
    assert_eq!(plan[0].subs[0].value, "1.0.29");
}

#[test]
fn plan_rejects_missing_or_malformed_fields() {
    let mut cs = checksums();
    cs.baseline = String::new();
    assert_eq!(
        build_plan("1.0.29", &cs),
        Err(Error::MissingField("_baseline_sha256sums".to_string()))
    );
    let mut cs = checksums();
    cs.x64 = "not hex!".to_string();
    assert_eq!(
        build_plan("1.0.29", &cs),
        Err(Error::MissingField("sha256sums_x86_64".to_string()))
    );
    assert_eq!(
        build_plan("", &checksums()),
        Err(Error::MissingField("pkgver".to_string()))
    );
    assert_eq!(
        build_plan("1.0.29c", &checksums()),
        Err(Error::MissingField("pkgver".to_string()))
    );
}

#[test]
fn apply_rewrites_each_field_and_nothing_else() {
    let plan = build_plan("1.0.29", &checksums()).unwrap();
    let (srcinfo_new, changed) = apply_subs(SRCINFO_OLD, &plan[0].subs).unwrap();
    assert!(changed);
    assert_eq!(
        srcinfo_new,
        "pkgbase = bun-bin\n\tpkgver = 1.0.29\n\tsha256sums_aarch64 = aaaa1111\n\tsha256sums_x86_64 = bbbb2222\n"
    );
    let (pkgbuild_new, changed) = apply_subs(PKGBUILD_OLD, &plan[1].subs).unwrap();
    assert!(changed);
    assert_eq!(
        pkgbuild_new,
        "pkgver=1.0.29\npkgrel=1\nsha256sums_aarch64=('aaaa1111')\nsha256sums_x86_64=('bbbb2222')\n_baseline_sha256sums='cccc3333'\n"
    );
}

#[test]
fn apply_is_idempotent_on_a_file_already_at_the_target_version() {
    let plan = build_plan("1.0.29", &checksums()).unwrap();
    let (once, _) = apply_subs(PKGBUILD_OLD, &plan[1].subs).unwrap();
    let (twice, changed) = apply_subs(once.as_str(), &plan[1].subs).unwrap();
    assert!(!changed);
    assert_eq!(twice, once);
    let (src_once, _) = apply_subs(SRCINFO_OLD, &plan[0].subs).unwrap();
    let (src_twice, changed) = apply_subs(src_once.as_str(), &plan[0].subs).unwrap();
    assert!(!changed);
    assert_eq!(src_twice, src_once);
}

#[test]
fn apply_reports_no_change_when_nothing_changes() {
    let cs = ChecksumSet {
        aarch: "9999aaaa".to_string(),
        x64: "8888bbbb".to_string(),
        baseline: "7777cccc".to_string(),
    };
    let plan = build_plan("1.0.28", &cs).unwrap();
    let (out, changed) = apply_subs(PKGBUILD_OLD, &plan[1].subs).unwrap();
    assert!(!changed);
    assert_eq!(out, PKGBUILD_OLD);
}

#[test]
fn a_pattern_that_matches_nothing_is_fatal() {
    let plan = build_plan("1.0.29", &checksums()).unwrap();
    let stale = "pkgname=bun-bin\nlicense=('MIT')\n";
    assert_eq!(
        apply_subs(stale, &plan[1].subs),
        Err(Error::PatternError("pkgver=".to_string()))
    );
}

#[test]
fn substitution_replaces_only_the_first_match() {
    let sub = Substitution {
        prefix: "v=".to_string(),
        class: CharClass::VersionChars,
        suffix: String::new(),
        value: "2.0".to_string(),
    };
    let out = apply_substitution("v=1.0 v=1.0", &sub).unwrap();
    assert_eq!(out, "v=2.0 v=1.0");
}

#[test]
fn substitution_needs_the_whole_pattern_to_match() {
    let sub = Substitution {
        prefix: "sum='".to_string(),
        class: CharClass::HexChars,
        suffix: "'".to_string(),
        value: "ff".to_string(),
    };
    // The first occurrence of the prefix is not closed; the second is.
    let out = apply_substitution("sum='zz' sum='ab'", &sub).unwrap();
    assert_eq!(out, "sum='zz' sum='ff'");
    // No occurrence is a full match.
    assert_eq!(
        apply_substitution("sum='' sum='xy'", &sub),
        Err(Error::PatternError("sum='".to_string()))
    );
}
