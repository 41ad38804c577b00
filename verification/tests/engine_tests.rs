use resolver::config::{Command, Context, PackageConfig, ResolverConfig, ResolverType, VersionMode};
use resolver::error::ResolveError;
use resolver::resolver::{normalize_dir_exec, GoResolver, MemberFiles, Resolver, RootSnapshot};

fn go_cfg(path: &str) -> PackageConfig {
    PackageConfig {
        path: path.to_owned(),
        resolver: ResolverType::Go,
        version_mode: VersionMode::Semantic,
        assets: Vec::new(),
    }
}

fn member(path: &str, go_mod: Option<&str>, version_go: Option<&str>) -> MemberFiles {
    MemberFiles {
        path: path.to_owned(),
        go_mod: go_mod.map(|s| s.to_owned()),
        version_go: version_go.map(|s| s.to_owned()),
    }
}

#[test]
fn resolves_a_package() {
    let snap = RootSnapshot {
        go_work: None,
        git_tags: None,
        members: vec![member(
            ".",
            Some("module example.com/org/widgets/auth\ngo 1.21\n"),
            Some("const Version = \"1.2.3\"\n"),
        )],
    };
    let mut r = GoResolver;
    let p = r.resolve(&snap, &go_cfg(".")).unwrap();
    assert_eq!(p.name, "auth");
    assert_eq!(p.version, "1.2.3");
    assert_eq!(p.path, ".");
    assert!(!p.private);
}

#[test]
fn missing_manifest_fails_resolve() {
    let snap = RootSnapshot { go_work: None, git_tags: None, members: vec![] };
    let mut r = GoResolver;
    let e = r.resolve(&snap, &go_cfg("svc")).unwrap_err();
    assert_eq!(e, ResolveError::FileOrDirNotFound { path: "svc/go.mod".to_owned() });
}

#[test]
fn invalid_semantic_version_fails_resolve() {
    // The extraction pattern accepts a leading zero, the semantic-version
    // primitive does not: the error names the offending text.
    let snap = RootSnapshot {
        go_work: None,
        git_tags: None,
        members: vec![member(".", Some("module m\n"), Some("const Version = \"01.2.3\"\n"))],
    };
    let mut r = GoResolver;
    let e = r.resolve(&snap, &go_cfg(".")).unwrap_err();
    assert_eq!(e, ResolveError::VersionFormat { version: "01.2.3".to_owned() });
}

#[test]
fn resolve_uses_git_tag_when_file_is_silent() {
    let snap = RootSnapshot {
        go_work: None,
        git_tags: Some("example.com/m/v0.7.0\n".to_owned()),
        members: vec![member(".", Some("module example.com/m\n"), None)],
    };
    let mut r = GoResolver;
    let p = r.resolve(&snap, &go_cfg(".")).unwrap();
    assert_eq!(p.version, "0.7.0");
}

#[test]
fn resolving_twice_yields_identical_packages() {
    let snap = RootSnapshot {
        go_work: None,
        git_tags: None,
        members: vec![member(".", Some("module example.com/m\n"), None)],
    };
    let mut r = GoResolver;
    let p1 = r.resolve(&snap, &go_cfg(".")).unwrap();
    let p2 = r.resolve(&snap, &go_cfg(".")).unwrap();
    assert_eq!(p1, p2);
}

#[test]
fn workspace_expands_to_all_members() {
    let snap = RootSnapshot {
        go_work: Some("go 1.21\nuse (\n\t.\n\t./svcA\n\tsvcB\n)\n".to_owned()),
        git_tags: None,
        members: vec![
            member(".", Some("module example.com/root\n"), None),
            member("svcA", Some("module example.com/root/svcA\n"), None),
            member("svcB", Some("module example.com/root/svcB\n"), None),
        ],
    };
    let mut r = GoResolver;
    let ps = r.resolve_all(&snap).unwrap();
    assert_eq!(ps.len(), 3);
    assert_eq!(ps[0].path, ".");
    assert_eq!(ps[1].path, "svcA");
    assert_eq!(ps[2].path, "svcB");
    assert_eq!(ps[0].name, "root");
    assert_eq!(ps[1].name, "svcA");
    assert_eq!(ps[0].version, "0.0.0");
}

#[test]
fn single_root_manifest_resolves_to_one_package() {
    let snap = RootSnapshot {
        go_work: None,
        git_tags: None,
        members: vec![member(".", Some("module example.com/solo\n"), None)],
    };
    let mut r = GoResolver;
    let ps = r.resolve_all(&snap).unwrap();
    assert_eq!(ps.len(), 1);
    assert_eq!(ps[0].name, "solo");
    assert_eq!(ps[0].path, ".");
}

#[test]
fn root_without_manifests_resolves_to_nothing() {
    let snap = RootSnapshot { go_work: None, git_tags: None, members: vec![] };
    let mut r = GoResolver;
    let ps = r.resolve_all(&snap).unwrap();
    assert!(ps.is_empty());
}

#[test]
fn workspace_member_without_manifest_aborts_resolve_all() {
    let snap = RootSnapshot {
        go_work: Some("use (\n\t./svcA\n\t./svcB\n)\n".to_owned()),
        git_tags: None,
        members: vec![member("svcA", Some("module a\n"), None)],
    };
    let mut r = GoResolver;
    let e = r.resolve_all(&snap).unwrap_err();
    assert_eq!(e, ResolveError::FileOrDirNotFound { path: "svcB/go.mod".to_owned() });
}

#[test]
fn bump_under_dry_run_writes_nothing() {
    let mut r = GoResolver;
    let ctx = Context { dry_run: true };
    let snap = RootSnapshot {
        go_work: None,
        git_tags: None,
        members: vec![member(".", Some("module m\n"), None)],
    };
    let p = r.resolve(&snap, &go_cfg(".")).unwrap();
    let out = r.bump(&ctx, &p, Some("const Version = \"0.0.0\"\n"), "0.1.0").unwrap();
    assert_eq!(out, None);
}

#[test]
fn bump_rewrites_the_version_file() {
    let mut r = GoResolver;
    let ctx = Context { dry_run: false };
    let snap = RootSnapshot {
        go_work: None,
        git_tags: None,
        members: vec![member(".", Some("module m\n"), None)],
    };
    let p = r.resolve(&snap, &go_cfg(".")).unwrap();
    let out = r.bump(&ctx, &p, Some("const Version = \"0.0.0\"\n"), "0.1.0").unwrap();
    assert_eq!(out.as_deref(), Some("const Version = \"0.1.0\"\n"));
    let created = r.bump(&ctx, &p, None, "0.1.0").unwrap().unwrap();
    assert!(created.contains("const Version = \"0.1.0\""));
}

fn cmd(name: &str, dry_run: Option<bool>) -> Command {
    Command { command: name.to_owned(), args: None, dry_run }
}

#[test]
fn publish_plan_keeps_declared_order() {
    let mut r = GoResolver;
    let cfg = ResolverConfig {
        prepublish: vec![cmd("fmt", None), cmd("test", None)],
        publish: vec![cmd("release", None)],
    };
    let snap = RootSnapshot {
        go_work: None,
        git_tags: None,
        members: vec![member(".", Some("module m\n"), None)],
    };
    let p = r.resolve(&snap, &go_cfg(".")).unwrap();
    let plan = r.publish(&p, &cfg, false).unwrap();
    let names: Vec<&str> = plan.iter().map(|c| c.command.as_str()).collect();
    assert_eq!(names, vec!["fmt", "test", "release"]);
}

#[test]
fn publish_plan_under_dry_run_is_empty() {
    let mut r = GoResolver;
    let cfg = ResolverConfig {
        prepublish: vec![cmd("fmt", None), cmd("test", Some(false))],
        publish: vec![cmd("release", None)],
    };
    let snap = RootSnapshot {
        go_work: None,
        git_tags: None,
        members: vec![member(".", Some("module m\n"), None)],
    };
    let p = r.resolve(&snap, &go_cfg(".")).unwrap();
    let plan = r.publish(&p, &cfg, true).unwrap();
    assert!(plan.is_empty());
}

#[test]
fn publish_override_survives_dry_run() {
    let mut r = GoResolver;
    let cfg = ResolverConfig {
        prepublish: vec![cmd("fmt", None)],
        publish: vec![cmd("release", Some(true))],
    };
    let snap = RootSnapshot {
        go_work: None,
        git_tags: None,
        members: vec![member(".", Some("module m\n"), None)],
    };
    let p = r.resolve(&snap, &go_cfg(".")).unwrap();
    let plan = r.publish(&p, &cfg, true).unwrap();
    assert_eq!(plan.len(), 1);
    assert_eq!(plan[0].command, "release");
}

#[test]
fn sort_places_dependency_first() {
    let mut r = GoResolver;
    let mut packages = vec![
        ("appA".to_owned(), go_cfg("appA")),
        ("libB".to_owned(), go_cfg("libB")),
    ];
    let manifests = vec![
        (
            "appA".to_owned(),
            "module example.com/appA\nrequire example.com/libB v0.1.0\n".to_owned(),
        ),
        ("libB".to_owned(), "module example.com/libB\n".to_owned()),
    ];
    r.sort_packages(&mut packages, &manifests).unwrap();
    assert_eq!(packages[0].0, "libB");
    assert_eq!(packages[1].0, "appA");
}

#[test]
fn sort_keeps_unrelated_order() {
    let mut r = GoResolver;
    let mut packages = vec![
        ("a".to_owned(), go_cfg("a")),
        ("b".to_owned(), go_cfg("b")),
    ];
    let manifests = vec![
        ("a".to_owned(), "module example.com/a\n".to_owned()),
        ("b".to_owned(), "module example.com/b\n".to_owned()),
    ];
    r.sort_packages(&mut packages, &manifests).unwrap();
    assert_eq!(packages[0].0, "a");
    assert_eq!(packages[1].0, "b");
}

#[test]
fn sort_ignores_other_ecosystems() {
    let mut r = GoResolver;
    let other = PackageConfig {
        path: "other".to_owned(),
        resolver: ResolverType::Generic,
        version_mode: VersionMode::Semantic,
        assets: Vec::new(),
    };
    let mut packages = vec![("other".to_owned(), other), ("go".to_owned(), go_cfg("go"))];
    let manifests = vec![("go".to_owned(), "module example.com/go\n".to_owned())];
    r.sort_packages(&mut packages, &manifests).unwrap();
    assert_eq!(packages[0].0, "other");
    assert_eq!(packages[1].0, "go");
}

#[test]
fn sort_without_manifest_is_an_error() {
    let mut r = GoResolver;
    let mut packages = vec![("lone".to_owned(), go_cfg("lone"))];
    let manifests: Vec<(String, String)> = Vec::new();
    let e = r.sort_packages(&mut packages, &manifests).unwrap_err();
    assert_eq!(e, ResolveError::FileOrDirNotFound { path: "lone/go.mod".to_owned() });
    assert_eq!(packages[0].0, "lone");
}

#[test]
fn error_messages_name_the_offender() {
    let e = ResolveError::VersionFormat { version: "bogus".to_owned() };
    assert_eq!(e.message(), "invalid semantic version: bogus");
    let e = ResolveError::FileOrDirNotFound { path: "x/go.mod".to_owned() };
    assert_eq!(e.message(), "file or directory not found: x/go.mod");
}

#[test]
fn member_paths_are_normalized() {
    assert_eq!(normalize_dir_exec("."), ".");
    assert_eq!(normalize_dir_exec("./svc"), "svc");
    assert_eq!(normalize_dir_exec("././svc"), "svc");
    assert_eq!(normalize_dir_exec("svc"), "svc");
}
