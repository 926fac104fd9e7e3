use mlmail::release::{
    is_semver, manifest_version, release_assets_version, require_manifest_version, require_tag_at_head,
    usage,
};

#[test]
fn accepts_release_versions_only() {
    assert!(is_semver("0.30.8"));
    assert!(!is_semver("v0.30.8"));
    assert!(!is_semver("0.30"));
}

#[test]
fn reads_package_manifest_version() {
    assert_eq!(
        manifest_version("{\"name\": \"app\", \"version\": \"0.30.9\"}"),
        Ok("0.30.9")
    );
}

#[test]
fn semver_needs_three_nonempty_digit_parts() {
    assert!(is_semver("10.200.3000"));
    assert!(!is_semver("1.2.3.4"));
    assert!(!is_semver("1..3"));
    assert!(!is_semver("1.2."));
    assert!(!is_semver("1.2.3-rc1"));
    assert!(!is_semver("１.2.3"));
    assert!(!is_semver(""));
}

#[test]
fn manifest_without_version_is_refused() {
    assert_eq!(
        manifest_version("{\"name\": \"app\"}"),
        Err("app/package.json has no version field".to_string())
    );
    assert_eq!(
        manifest_version("{\"version\": \"0.1"),
        Err("app/package.json version is unterminated".to_string())
    );
    assert_eq!(manifest_version("\"version\": \"\""), Ok(""));
    assert_eq!(
        manifest_version("{\"version\": \"1.0.0\", \"x\": {\"version\": \"2.0.0\"}}"),
        Ok("1.0.0")
    );
}

#[test]
fn manifest_must_already_carry_the_release_version() {
    let manifest = "{\"name\": \"app\", \"version\": \"0.30.9\"}";
    assert_eq!(require_manifest_version(manifest, "0.30.9"), Ok(()));
    assert_eq!(
        require_manifest_version(manifest, "0.31.0"),
        Err("app/package.json has version 0.30.9; check out the merged release tag v0.31.0 first".to_string())
    );
    assert_eq!(
        require_manifest_version("{}", "0.30.9"),
        Err("app/package.json has no version field".to_string())
    );
}

fn args(list: &[&str]) -> Vec<String> {
    list.iter().map(|a| a.to_string()).collect()
}

#[test]
fn release_command_line_is_checked() {
    assert_eq!(usage(), "usage: cargo xtask release-assets <X.Y.Z>");
    assert_eq!(release_assets_version(&args(&["release-assets", "0.30.8"])), Ok("0.30.8".to_string()));
    assert_eq!(release_assets_version(&args(&[])), Err(usage()));
    assert_eq!(release_assets_version(&args(&["build", "0.30.8"])), Err(usage()));
    assert_eq!(release_assets_version(&args(&["release-assets"])), Err(usage()));
    let format = Err("version must be X.Y.Z, for example: cargo xtask release-assets 0.30.8".to_string());
    assert_eq!(release_assets_version(&args(&["release-assets", "v0.30.8"])), format);
    assert_eq!(release_assets_version(&args(&["release-assets", "0.30.8", "extra"])), format);
}

#[test]
fn assets_are_built_only_from_the_release_tag_at_head() {
    assert_eq!(require_tag_at_head("0.30.9", Some("abc123"), "abc123"), Ok(()));
    assert_eq!(
        require_tag_at_head("0.30.9", Some("abc123"), "def456"),
        Err("release tag v0.30.9 does not point to HEAD; check out the merged release tag first".to_owned())
    );
    assert_eq!(
        require_tag_at_head("0.30.9", None, "def456"),
        Err("release tag v0.30.9 does not exist; check out the merged release tag first".to_owned())
    );
}
