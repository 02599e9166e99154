use aur_sync::sync::author_email;
use aur_sync::version::{normalize_downstream, strip_tag_prefix, versions_match};

#[test]
fn strips_the_upstream_tag_prefix_once() {
    assert_eq!(strip_tag_prefix("bun-v1.0.28"), "1.0.28");
    assert_eq!(strip_tag_prefix("1.0.28"), "1.0.28");
    assert_eq!(strip_tag_prefix("bun-vbun-v2"), "bun-v2");
    assert_eq!(strip_tag_prefix("bun-"), "bun-");
}

#[test]
fn strips_one_trailing_release_counter() {
    assert_eq!(normalize_downstream("1.0.28-1"), "1.0.28");
    assert_eq!(normalize_downstream("1.0.28"), "1.0.28");
    assert_eq!(normalize_downstream("1.0.2.r20.bab9889-1"), "1.0.2.r20.bab9889");
    assert_eq!(normalize_downstream("x-1-1"), "x-1");
    assert_eq!(normalize_downstream("-1"), "");
}

#[test]
fn comparison_is_normalization_aware() {
    assert!(versions_match("1.0.28-1", "bun-v1.0.28"));
    assert!(versions_match("1.0.28", "bun-v1.0.28"));
    assert!(!versions_match("1.0.28-1", "bun-v1.0.29"));
    assert!(!versions_match("1.0.27", "bun-v1.0.28"));
}

#[test]
fn author_email_is_the_last_token_of_the_key() {
    assert_eq!(
        author_email("ssh-ed25519 AAAAC3NzaC1lZDI1 user@example.invalid\n"),
        Some("user@example.invalid".to_string())
    );
    assert_eq!(author_email("single-token"), Some("single-token".to_string()));
    assert_eq!(author_email("   \n\t "), None);
    assert_eq!(author_email(""), None);
}
