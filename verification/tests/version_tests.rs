use resolver::resolver::GoResolver;
use resolver::version::{extract_version_exec, tags_version_exec, update_content_exec};

#[test]
fn extracts_const_version() {
    let content = "package main\n\nconst Version = \"1.2.3\"\n";
    assert_eq!(extract_version_exec(content).as_deref(), Some("1.2.3"));
}

#[test]
fn extracts_var_version_case_insensitively() {
    let content = "package main\nvar VERSION = \"2.0.1\"\n";
    assert_eq!(extract_version_exec(content).as_deref(), Some("2.0.1"));
}

#[test]
fn leading_v_is_dropped() {
    let content = "const Version = \"v1.4.0\"\n";
    assert_eq!(extract_version_exec(content).as_deref(), Some("1.4.0"));
}

#[test]
fn pre_release_and_build_metadata_are_kept() {
    let content = "const Version = \"1.2.3-rc.1+build.5\"\n";
    assert_eq!(extract_version_exec(content).as_deref(), Some("1.2.3-rc.1+build.5"));
}

#[test]
fn file_without_assignment_yields_nothing() {
    let content = "package main\n// no version here\nconst Name = \"widgets\"\n";
    assert_eq!(extract_version_exec(content), None);
}

#[test]
fn malformed_version_literal_yields_nothing() {
    let content = "const Version = \"1.2\"\n";
    assert_eq!(extract_version_exec(content), None);
}

#[test]
fn first_assignment_wins() {
    let content = "const Version = \"1.0.0\"\nvar version = \"9.9.9\"\n";
    assert_eq!(extract_version_exec(content).as_deref(), Some("1.0.0"));
}

#[test]
fn bare_tag_is_accepted() {
    let tags = "v1.5.0\nv1.4.0\n";
    assert_eq!(tags_version_exec(tags, "example.com/m").as_deref(), Some("1.5.0"));
}

#[test]
fn module_prefixed_tag_is_preferred() {
    let tags = "example.com/m/v2.0.0\nv1.0.0\n";
    assert_eq!(tags_version_exec(tags, "example.com/m").as_deref(), Some("2.0.0"));
}

#[test]
fn non_version_tags_are_skipped() {
    let tags = "release-notes\nnightly\nv0.3.1\n";
    assert_eq!(tags_version_exec(tags, "m").as_deref(), Some("0.3.1"));
}

#[test]
fn no_matching_tag_yields_nothing() {
    let tags = "release-notes\nnightly\n";
    assert_eq!(tags_version_exec(tags, "m"), None);
}

#[test]
fn version_file_wins_over_tag() {
    let r = GoResolver;
    let vg = "const Version = \"1.1.1\"\n";
    let tags = "v9.9.9\n";
    let v = r.get_version(Some(vg), Some(tags), "m").unwrap();
    assert_eq!(v, "1.1.1");
}

#[test]
fn tag_wins_when_file_has_no_version() {
    let r = GoResolver;
    let vg = "package main\n";
    let tags = "v2.2.2\n";
    let v = r.get_version(Some(vg), Some(tags), "m").unwrap();
    assert_eq!(v, "2.2.2");
}

#[test]
fn default_version_when_nothing_found() {
    let r = GoResolver;
    let v = r.get_version(None, None, "m").unwrap();
    assert_eq!(v, "0.0.0");
}

#[test]
fn update_replaces_only_the_version_literal() {
    let content = "package widgets\n\n// Version is set at release time.\nconst Version = \"v1.0.0\"\nconst Name = \"w\"\n";
    let updated = update_content_exec(content, "1.1.0");
    assert_eq!(
        updated,
        "package widgets\n\n// Version is set at release time.\nconst Version = \"1.1.0\"\nconst Name = \"w\"\n"
    );
}

#[test]
fn update_without_assignment_leaves_content_unchanged() {
    let content = "package widgets\n";
    assert_eq!(update_content_exec(content, "1.1.0"), content);
}

#[test]
fn created_file_round_trips_through_extraction() {
    let r = GoResolver;
    let written = r.update_version_go(None, "3.4.5-beta.2+sha.abc");
    assert_eq!(extract_version_exec(&written).as_deref(), Some("3.4.5-beta.2+sha.abc"));
}

#[test]
fn rewritten_file_round_trips_through_extraction() {
    let r = GoResolver;
    let existing = "package main\n\nvar Version = \"0.9.0\"\n";
    let written = r.update_version_go(Some(existing), "1.0.0");
    assert_eq!(extract_version_exec(&written).as_deref(), Some("1.0.0"));
    let v = r.get_version(Some(&written), None, "m").unwrap();
    assert_eq!(v, "1.0.0");
}

#[test]
fn module_name_is_last_segment() {
    assert_eq!(GoResolver::module_name_from_path("example.com/org/widgets/auth"), "auth");
    assert_eq!(GoResolver::module_name_from_path("plain"), "plain");
    assert_eq!(GoResolver::module_name_from_path("a/"), "");
}
