use resolver::manifest::{parse_go_mod, parse_go_work};

#[test]
fn parses_module_and_go_version() {
    let content = "module example.com/org/widgets\n\ngo 1.21\n";
    let m = parse_go_mod(content, "go.mod").unwrap();
    assert_eq!(m.module, "example.com/org/widgets");
    assert_eq!(m.go_version.as_deref(), Some("1.21"));
    assert!(m.require.is_empty());
}

#[test]
fn parses_single_line_require() {
    let content = "module m\nrequire example.com/dep v1.2.3\n";
    let m = parse_go_mod(content, "go.mod").unwrap();
    assert_eq!(m.require.len(), 1);
    assert_eq!(m.require[0].path, "example.com/dep");
    assert_eq!(m.require[0].version, "v1.2.3");
}

#[test]
fn parses_require_block() {
    let content = "module m\nrequire (\n\texample.com/a v1.0.0\n\texample.com/b v0.2.1\n)\n";
    let m = parse_go_mod(content, "go.mod").unwrap();
    assert_eq!(m.require.len(), 2);
    assert_eq!(m.require[0].path, "example.com/a");
    assert_eq!(m.require[1].path, "example.com/b");
    assert_eq!(m.require[1].version, "v0.2.1");
}

#[test]
fn comment_line_in_require_block_adds_nothing() {
    let content = "module m\nrequire (\n\t// indirect dependencies below\n\texample.com/a v1.0.0\n)\n";
    let m = parse_go_mod(content, "go.mod").unwrap();
    assert_eq!(m.require.len(), 1);
    assert_eq!(m.require[0].path, "example.com/a");
}

#[test]
fn missing_module_directive_is_an_error() {
    let content = "go 1.20\nrequire example.com/a v1.0.0\n";
    let e = parse_go_mod(content, "pkg/go.mod").unwrap_err();
    let msg = e.message();
    assert!(msg.contains("pkg/go.mod"));
    assert!(msg.contains("module directive not found in go.mod"));
}

#[test]
fn later_module_directive_wins() {
    let content = "module first\nmodule second\n";
    let m = parse_go_mod(content, "go.mod").unwrap();
    assert_eq!(m.module, "second");
}

#[test]
fn blank_and_comment_lines_are_skipped() {
    let content = "\n// a comment\nmodule m\n   \n// require example.com/x v1.0.0\n";
    let m = parse_go_mod(content, "go.mod").unwrap();
    assert_eq!(m.module, "m");
    assert!(m.require.is_empty());
}

#[test]
fn stray_close_paren_outside_block_is_inert() {
    let content = "module m\n)\nrequire example.com/a v1.0.0\n";
    let m = parse_go_mod(content, "go.mod").unwrap();
    assert_eq!(m.module, "m");
    assert_eq!(m.require.len(), 1);
}

#[test]
fn workspace_lists_members() {
    let content = "go 1.21\n\nuse (\n\t.\n\t./svcA\n\tsvcB\n)\n";
    let w = parse_go_work(content, "go.work").unwrap();
    assert_eq!(w.go_version.as_deref(), Some("1.21"));
    assert_eq!(w.use_dirs, vec![".", "./svcA", "svcB"]);
}

#[test]
fn workspace_single_line_use() {
    let content = "use ./svc\n";
    let w = parse_go_work(content, "go.work").unwrap();
    assert_eq!(w.use_dirs, vec!["./svc"]);
}

#[test]
fn workspace_without_use_is_empty() {
    let content = "go 1.21\n";
    let w = parse_go_work(content, "go.work").unwrap();
    assert!(w.use_dirs.is_empty());
}

#[test]
fn workspace_block_skips_comments() {
    let content = "use (\n\t// members\n\t./svc\n)\n";
    let w = parse_go_work(content, "go.work").unwrap();
    assert_eq!(w.use_dirs, vec!["./svc"]);
}

#[test]
fn empty_content_has_no_module() {
    assert!(parse_go_mod("", "go.mod").is_err());
}

#[test]
fn later_go_version_wins() {
    let content = "module m\ngo 1.20\ngo 1.22\n";
    let m = parse_go_mod(content, "go.mod").unwrap();
    assert_eq!(m.go_version.as_deref(), Some("1.22"));
}

#[test]
fn workspace_keeps_duplicate_members() {
    // Deduplication is the caller's task, not the parser's.
    let content = "use (\n\t./svc\n\t./svc\n)\n";
    let w = parse_go_work(content, "go.work").unwrap();
    assert_eq!(w.use_dirs, vec!["./svc", "./svc"]);
}
