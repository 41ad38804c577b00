//! The resolver engine: the polymorphic contract every ecosystem plugin
//! implements, and the Go ecosystem engine.
//!
//! An engine works on a [`RootSnapshot`]: the relevant file contents and
//! the version-control tag listing, read by the caller.  `resolve` turns
//! one package directory into a [`ResolvedPackage`]; `resolve_all` expands
//! a workspace (or the single root package); `bump` computes the rewritten
//! version file; `sort_packages` reorders a package set so dependencies
//! come first; `publish` plans the publish-time commands, honouring dry
//! run.

use vstd::prelude::*;

use crate::config::{Command, CommandV, Context, PackageConfig, PackageConfigV, ResolverConfig,
    ResolverConfigV, ResolverType, VersionMode};
use crate::error::{result_deep_view, result_view, ErrV, ResolveError};
use crate::manifest::{parse_go_mod, parse_go_mod_spec, GoModV};
use crate::text::{last_segment, starts_with, str_eq, str_starts_with};
use crate::version::{extract_version_exec, extract_version_spec, get_version_spec, opt_view,
    tags_version_exec, tags_version_spec, update_content_spec, boilerplate, boilerplate_exec,
    update_content_exec};

verus! {

/// Whether `semver` accepts a string as a semantic version.  The grammar
/// is the outside crate's; only the name is stated here.
pub uninterp spec fn semver_accepts(s: Seq<char>) -> bool;

/// Relies on `semver::Version::parse`: whether parsing succeeds depends on
/// the string alone.
#[verifier::external_body]
fn check_semver(s: &str) -> (r: bool)
    ensures
        r == semver_accepts(s@),
{
    semver::Version::parse(s).is_ok()
}

/// Spec-level value of a [`ResolvedPackage`].
pub struct ResolvedPackageV {
    pub name: Seq<char>,
    pub version: Seq<char>,
    pub path: Seq<char>,
    pub private: bool,
}

/// A resolved package: its short name, its current version, its directory
/// relative to the repository root, and whether it is private.
#[derive(Debug, PartialEq, Eq)]
pub struct ResolvedPackage {
    /// The last segment of the module identity.
    pub name: String,
    /// A version string the semantic-versioning primitive accepted.
    pub version: String,
    pub path: String,
    pub private: bool,
}

impl View for ResolvedPackage {
    type V = ResolvedPackageV;

    open spec fn view(&self) -> ResolvedPackageV {
        ResolvedPackageV {
            name: self.name@,
            version: self.version@,
            path: self.path@,
            private: self.private,
        }
    }
}

impl DeepView for ResolvedPackage {
    type V = ResolvedPackageV;

    open spec fn deep_view(&self) -> ResolvedPackageV {
        self.view()
    }
}

/// Spec-level value of a [`MemberFiles`].
pub struct MemberFilesV {
    pub path: Seq<char>,
    pub go_mod: Option<Seq<char>>,
    pub version_go: Option<Seq<char>>,
}

/// The files of one package directory, as read by the caller: the module
/// manifest and the version-declaration file, each absent when the file
/// does not exist.
#[derive(Debug)]
pub struct MemberFiles {
    pub path: String,
    pub go_mod: Option<String>,
    pub version_go: Option<String>,
}

impl View for MemberFiles {
    type V = MemberFilesV;

    open spec fn view(&self) -> MemberFilesV {
        MemberFilesV {
            path: self.path@,
            go_mod: self.go_mod.deep_view(),
            version_go: self.version_go.deep_view(),
        }
    }
}

impl DeepView for MemberFiles {
    type V = MemberFilesV;

    open spec fn deep_view(&self) -> MemberFilesV {
        self.view()
    }
}

/// Spec-level value of a [`RootSnapshot`].
pub struct RootSnapshotV {
    pub go_work: Option<Seq<char>>,
    pub git_tags: Option<Seq<char>>,
    pub members: Seq<MemberFilesV>,
}

/// Everything the engine reads about a repository root: the workspace
/// manifest (when present), the tag listing (when the version-control tool
/// answered), and the files of each package directory.
#[derive(Debug)]
pub struct RootSnapshot {
    pub go_work: Option<String>,
    pub git_tags: Option<String>,
    pub members: Vec<MemberFiles>,
}

impl View for RootSnapshot {
    type V = RootSnapshotV;

    open spec fn view(&self) -> RootSnapshotV {
        RootSnapshotV {
            go_work: self.go_work.deep_view(),
            git_tags: self.git_tags.deep_view(),
            members: self.members.deep_view(),
        }
    }
}

/// The first member whose path is `path`.
pub open spec fn member_lookup(ms: Seq<MemberFilesV>, path: Seq<char>) -> Option<MemberFilesV>
    decreases ms.len(),
{
    if ms.len() == 0 {
        None
    } else if ms[0].path == path {
        Some(ms[0])
    } else {
        member_lookup(ms.drop_first(), path)
    }
}

/// The manifest path label of a package directory.
pub open spec fn go_mod_path_of(path: Seq<char>) -> Seq<char> {
    path + "/go.mod"@
}

/// What resolving the package at `path` returns.
pub open spec fn resolve_spec(snap: RootSnapshotV, path: Seq<char>) -> Result<
    ResolvedPackageV,
    ErrV,
> {
    match member_lookup(snap.members, path) {
        Some(m) => match m.go_mod {
            Some(content) => match parse_go_mod_spec(content, go_mod_path_of(path)) {
                Err(e) => Err(e),
                Ok(gm) => {
                    let vs = get_version_spec(m.version_go, snap.git_tags, gm.module);
                    if semver_accepts(vs) {
                        Ok(
                            ResolvedPackageV {
                                name: last_segment(gm.module),
                                version: vs,
                                path: path,
                                private: false,
                            },
                        )
                    } else {
                        Err(ErrV::VersionFormat { version: vs })
                    }
                },
            },
            None => Err(ErrV::FileOrDirNotFound { path: go_mod_path_of(path) }),
        },
        None => Err(ErrV::FileOrDirNotFound { path: go_mod_path_of(path) }),
    }
}

/// A workspace member directory with every leading `./` removed.
pub open spec fn normalize_dir(d: Seq<char>) -> Seq<char>
    decreases d.len(),
{
    if d.len() >= 2 && starts_with(d, "./"@) {
        normalize_dir(d.subrange(2, d.len() as int))
    } else {
        d
    }
}

/// Resolving the members `dirs[i..]` in order, stopping at the first
/// failure.
pub open spec fn resolve_list(snap: RootSnapshotV, dirs: Seq<Seq<char>>, i: int) -> Result<
    Seq<ResolvedPackageV>,
    ErrV,
>
    decreases dirs.len() - i,
{
    if 0 <= i < dirs.len() {
        match resolve_spec(snap, normalize_dir(dirs[i])) {
            Err(e) => Err(e),
            Ok(p) => match resolve_list(snap, dirs, i + 1) {
                Err(e) => Err(e),
                Ok(rest) => Ok(seq![p] + rest),
            },
        }
    } else {
        Ok(Seq::empty())
    }
}

/// What resolving a whole root returns: every workspace member when a
/// workspace manifest exists, the single root package when only a root
/// manifest exists, and no packages at all otherwise.
pub open spec fn resolve_all_spec(snap: RootSnapshotV) -> Result<Seq<ResolvedPackageV>, ErrV> {
    match snap.go_work {
        Some(w) => resolve_list(snap, crate::manifest::go_work_of(w).use_dirs, 0),
        None => match member_lookup(snap.members, "."@) {
            Some(m) => if m.go_mod is Some {
                match resolve_spec(snap, "."@) {
                    Ok(p) => Ok(seq![p]),
                    Err(e) => Err(e),
                }
            } else {
                Ok(Seq::empty())
            },
            None => Ok(Seq::empty()),
        },
    }
}

/// The rewritten version file: created from the template when absent,
/// first version literal replaced when present.
pub open spec fn write_version_spec(current: Option<Seq<char>>, v: Seq<char>) -> Seq<char> {
    match current {
        None => boilerplate(v),
        Some(s) => update_content_spec(s, v),
    }
}

/// What `bump` writes: nothing under dry run, the rewritten file otherwise.
pub open spec fn bump_spec(dry_run: bool, current: Option<Seq<char>>, v: Seq<char>) -> Option<
    Seq<char>,
> {
    if dry_run {
        None
    } else {
        Some(write_version_spec(current, v))
    }
}

/// A command survives the dry-run filter when no dry run is in force or
/// the command explicitly overrides it.
pub open spec fn keep_command(c: CommandV, dry_run: bool) -> bool {
    !dry_run || c.dry_run == Some(true)
}

/// The commands of `cmds[i..]` that survive the dry-run filter, in order.
pub open spec fn kept_commands(cmds: Seq<CommandV>, i: int, dry_run: bool) -> Seq<CommandV>
    decreases cmds.len() - i,
{
    if 0 <= i < cmds.len() {
        if keep_command(cmds[i], dry_run) {
            seq![cmds[i]] + kept_commands(cmds, i + 1, dry_run)
        } else {
            kept_commands(cmds, i + 1, dry_run)
        }
    } else {
        Seq::empty()
    }
}

/// The publish plan: the surviving pre-publish commands, then the
/// surviving publish commands.
pub open spec fn publish_plan_spec(cfg: ResolverConfigV, dry_run: bool) -> Seq<CommandV> {
    kept_commands(cfg.prepublish, 0, dry_run) + kept_commands(cfg.publish, 0, dry_run)
}

/// The contract every ecosystem engine implements.  Each operation's
/// behaviour is fixed by the implementor through the corresponding spec
/// function.
pub trait Resolver {
    /// What `resolve` must return.
    spec fn resolve_post(
        &self,
        snap: RootSnapshotV,
        pkg: PackageConfigV,
        r: Result<ResolvedPackageV, ErrV>,
    ) -> bool;

    /// What `resolve_all` must return.
    spec fn resolve_all_post(&self, snap: RootSnapshotV, r: Result<Seq<ResolvedPackageV>, ErrV>) -> bool;

    /// What `bump` must return.
    spec fn bump_post(
        &self,
        ctx: Context,
        package: ResolvedPackageV,
        current: Option<Seq<char>>,
        version: Seq<char>,
        r: Result<Option<Seq<char>>, ErrV>,
    ) -> bool;

    /// What `sort_packages` must do to the package sequence.
    spec fn sort_post(
        &self,
        before: Seq<(Seq<char>, PackageConfigV)>,
        manifests: Seq<(Seq<char>, Seq<char>)>,
        after: Seq<(Seq<char>, PackageConfigV)>,
        err: Option<ErrV>,
    ) -> bool;

    /// What `publish` must plan.
    spec fn publish_post(
        &self,
        package: ResolvedPackageV,
        cfg: ResolverConfigV,
        dry_run: bool,
        r: Result<Seq<CommandV>, ErrV>,
    ) -> bool;

    /// Resolve the one package described by `pkg_config`.
    fn resolve(&mut self, snap: &RootSnapshot, pkg_config: &PackageConfig) -> (r: Result<
        ResolvedPackage,
        ResolveError,
    >)
        ensures
            old(self).resolve_post(snap@, pkg_config@, result_view(r)),
    ;

    /// Resolve every package of the root.
    fn resolve_all(&mut self, snap: &RootSnapshot) -> (r: Result<Vec<ResolvedPackage>, ResolveError>)
        ensures
            old(self).resolve_all_post(snap@, result_deep_view(r)),
    ;

    /// Compute the rewritten version file for `version`, or nothing under
    /// dry run.  `current` is the present content of the file, absent when
    /// the file does not exist.
    fn bump(
        &mut self,
        ctx: &Context,
        package: &ResolvedPackage,
        current: Option<&str>,
        version: &str,
    ) -> (r: Result<Option<String>, ResolveError>)
        ensures
            old(self).bump_post(*ctx, package@, opt_view(current), version@, result_deep_view(r)),
    ;

    /// Reorder `packages` so that dependencies come before dependents.
    /// `manifests` carries each package's manifest content by name.
    fn sort_packages(
        &mut self,
        packages: &mut Vec<(String, PackageConfig)>,
        manifests: &Vec<(String, String)>,
    ) -> (r: Result<(), ResolveError>)
        ensures
            old(self).sort_post(
                old(packages).deep_view(),
                manifests.deep_view(),
                final(packages).deep_view(),
                match r {
                    Ok(u) => None,
                    Err(e) => Some(e@),
                },
            ),
    ;

    /// Plan the publish-time commands for `package`, in order, honouring
    /// dry run.  Running them is the caller's task.
    fn publish(
        &mut self,
        package: &ResolvedPackage,
        resolver_config: &ResolverConfig,
        dry_run: bool,
    ) -> (r: Result<Vec<Command>, ResolveError>)
        ensures
            old(self).publish_post(package@, resolver_config@, dry_run, result_deep_view(r)),
    ;
}

/// The Go ecosystem engine.
pub struct GoResolver;

/// The first member of the snapshot whose path equals `path`.
fn find_member(snap: &RootSnapshot, path: &str) -> (r: Option<usize>)
    ensures
        match r {
            Some(ix) => ix < snap.members.len() && member_lookup(snap@.members, path@) == Some(
                snap@.members[ix as int],
            ),
            None => member_lookup(snap@.members, path@) is None,
        },
{
    let ghost ms = snap@.members;
    let mut i: usize = 0;
    proof {
        assert(ms.len() == snap.members@.len());
        assert(ms.skip(0) =~= ms);
    }
    while i < snap.members.len()
        invariant
            i <= snap.members.len(),
            ms == snap@.members,
            ms.len() == snap.members@.len(),
            member_lookup(ms, path@) == member_lookup(ms.skip(i as int), path@),
        decreases snap.members.len() - i,
    {
        proof {
            assert(snap.members@[i as int].deep_view() == ms[i as int]);
            assert(ms.skip(i as int)[0] == ms[i as int]);
        }
        if str_eq(snap.members[i].path.as_str(), path) {
            return Some(i);
        }
        proof {
            assert(ms.skip(i as int).drop_first() =~= ms.skip(i + 1));
        }
        i = i + 1;
    }
    proof {
        assert(ms.skip(i as int).len() == 0);
    }
    None
}

impl GoResolver {
    /// The short package name: the last segment of the module identity.
    pub fn module_name_from_path(module_id: &str) -> (r: String)
        ensures
            r@ == last_segment(module_id@),
    {
        let n = module_id.unicode_len();
        let mut j = n;
        while j > 0 && module_id.get_char(j - 1) != '/'
            invariant
                j <= n,
                n == module_id@.len(),
                crate::text::after_last_slash(module_id@, n as int) == crate::text::after_last_slash(
                    module_id@,
                    j as int,
                ),
            decreases j,
        {
            j = j - 1;
        }
        module_id.substring_char(j, n).to_owned()
    }

    /// The version the version-declaration file yields, when its content
    /// is at hand.
    pub fn extract_version_from_version_go(&self, content: Option<&str>) -> (r: Option<String>)
        ensures
            r.deep_view() == match opt_view(content) {
                Some(c) => extract_version_spec(c),
                None => None,
            },
    {
        match content {
            Some(c) => extract_version_exec(c),
            None => None,
        }
    }

    /// The version the tag listing yields for `module_id`, when the
    /// version-control tool answered.
    pub fn extract_version_from_git_tag(&self, tags: Option<&str>, module_id: &str) -> (r:
        Option<String>)
        ensures
            r.deep_view() == match opt_view(tags) {
                Some(t) => tags_version_spec(t, module_id@),
                None => None,
            },
    {
        match tags {
            Some(t) => tags_version_exec(t, module_id),
            None => None,
        }
    }

    /// The resolved version of a module: the version file first, then the
    /// tag listing, then the default `0.0.0`.  The chain itself never
    /// fails.
    pub fn get_version(&self, version_go: Option<&str>, git_tags: Option<&str>, module_id: &str) -> (r:
        Result<String, ResolveError>)
        ensures
            r matches Ok(v) && v@ == get_version_spec(
                opt_view(version_go),
                opt_view(git_tags),
                module_id@,
            ),
    {
        if let Some(v) = self.extract_version_from_version_go(version_go) {
            return Ok(v);
        }
        if let Some(v) = self.extract_version_from_git_tag(git_tags, module_id) {
            return Ok(v);
        }
        Ok(String::from_str("0.0.0"))
    }

    /// The rewritten version-declaration file: created from the template
    /// when `current` is absent, the first version literal replaced when
    /// present.
    pub fn update_version_go(&self, current: Option<&str>, new_version: &str) -> (r: String)
        ensures
            r@ == write_version_spec(opt_view(current), new_version@),
    {
        match current {
            None => boilerplate_exec(new_version),
            Some(s) => update_content_exec(s, new_version),
        }
    }
}

impl Resolver for GoResolver {
    open spec fn resolve_post(
        &self,
        snap: RootSnapshotV,
        pkg: PackageConfigV,
        r: Result<ResolvedPackageV, ErrV>,
    ) -> bool {
        r == resolve_spec(snap, pkg.path)
    }

    open spec fn resolve_all_post(
        &self,
        snap: RootSnapshotV,
        r: Result<Seq<ResolvedPackageV>, ErrV>,
    ) -> bool {
        r == resolve_all_spec(snap)
    }

    open spec fn bump_post(
        &self,
        ctx: Context,
        package: ResolvedPackageV,
        current: Option<Seq<char>>,
        version: Seq<char>,
        r: Result<Option<Seq<char>>, ErrV>,
    ) -> bool {
        r == Ok::<Option<Seq<char>>, ErrV>(bump_spec(ctx.dry_run, current, version))
    }

    open spec fn sort_post(
        &self,
        before: Seq<(Seq<char>, PackageConfigV)>,
        manifests: Seq<(Seq<char>, Seq<char>)>,
        after: Seq<(Seq<char>, PackageConfigV)>,
        err: Option<ErrV>,
    ) -> bool {
        crate::sort::sort_packages_post(before, manifests, after, err)
    }

    open spec fn publish_post(
        &self,
        package: ResolvedPackageV,
        cfg: ResolverConfigV,
        dry_run: bool,
        r: Result<Seq<CommandV>, ErrV>,
    ) -> bool {
        r == Ok::<Seq<CommandV>, ErrV>(publish_plan_spec(cfg, dry_run))
    }

    fn resolve(&mut self, snap: &RootSnapshot, pkg_config: &PackageConfig) -> (r: Result<
        ResolvedPackage,
        ResolveError,
    >) {
        let gm_path = pkg_config.path.clone().concat("/go.mod");
        proof {
            assert(gm_path@ == go_mod_path_of(pkg_config@.path));
        }
        let ix = match find_member(snap, pkg_config.path.as_str()) {
            Some(ix) => ix,
            None => {
                return Err(ResolveError::FileOrDirNotFound { path: gm_path });
            },
        };
        let m = &snap.members[ix];
        proof {
            assert(m.deep_view() == snap@.members[ix as int]);
        }
        let content = match &m.go_mod {
            Some(c) => c,
            None => {
                return Err(ResolveError::FileOrDirNotFound { path: gm_path });
            },
        };
        let gm = match parse_go_mod(content.as_str(), gm_path.as_str()) {
            Ok(gm) => gm,
            Err(e) => {
                return Err(e);
            },
        };
        let vg: Option<&str> = match &m.version_go {
            Some(s) => Some(s.as_str()),
            None => None,
        };
        let tg: Option<&str> = match &snap.git_tags {
            Some(s) => Some(s.as_str()),
            None => None,
        };
        let vs = match self.get_version(vg, tg, gm.module.as_str()) {
            Ok(v) => v,
            Err(e) => {
                return Err(e);
            },
        };
        if check_semver(vs.as_str()) {
            Ok(
                ResolvedPackage {
                    name: GoResolver::module_name_from_path(gm.module.as_str()),
                    version: vs,
                    path: pkg_config.path.clone(),
                    private: false,
                },
            )
        } else {
            Err(ResolveError::VersionFormat { version: vs })
        }
    }

    fn resolve_all(&mut self, snap: &RootSnapshot) -> (r: Result<Vec<ResolvedPackage>, ResolveError>) {
        let work = match &snap.go_work {
            Some(w) => w,
            None => {
                // No workspace: a single root manifest, or nothing at all.
                let dot = String::from_str(".");
                let has_root_mod = match find_member(snap, dot.as_str()) {
                    Some(ix) => snap.members[ix].go_mod.is_some(),
                    None => false,
                };
                if has_root_mod {
                    let cfg = PackageConfig {
                        path: dot,
                        resolver: ResolverType::Go,
                        version_mode: VersionMode::Semantic,
                        assets: Vec::new(),
                    };
                    let p = match self.resolve(snap, &cfg) {
                        Ok(p) => p,
                        Err(e) => {
                            return Err(e);
                        },
                    };
                    let mut out: Vec<ResolvedPackage> = Vec::new();
                    out.push(p);
                    proof {
                        assert(out.deep_view() =~= resolve_all_spec(snap@)->Ok_0);
                    }
                    return Ok(out);
                } else {
                    let out: Vec<ResolvedPackage> = Vec::new();
                    proof {
                        assert(out.deep_view() =~= Seq::<ResolvedPackageV>::empty());
                    }
                    return Ok(out);
                }
            },
        };
        let gw = match crate::manifest::parse_go_work(work.as_str(), "go.work") {
            Ok(gw) => gw,
            Err(e) => {
                return Err(e);
            },
        };
        let ghost dirs = gw@.use_dirs;
        let ghost snapv = snap@;
        let mut out: Vec<ResolvedPackage> = Vec::new();
        let mut i: usize = 0;
        proof {
            assert(dirs.len() == gw.use_dirs@.len());
            assert(out.deep_view() =~= Seq::<ResolvedPackageV>::empty());
        }
        while i < gw.use_dirs.len()
            invariant
                i <= gw.use_dirs.len(),
                dirs == gw@.use_dirs,
                dirs.len() == gw.use_dirs@.len(),
                snapv == snap@,
                resolve_all_spec(snapv) == resolve_list(snapv, dirs, 0),
                match resolve_list(snapv, dirs, i as int) {
                    Ok(rest) => resolve_list(snapv, dirs, 0) == Ok::<Seq<ResolvedPackageV>, ErrV>(
                        out.deep_view() + rest,
                    ),
                    Err(e) => resolve_list(snapv, dirs, 0) == Err::<Seq<ResolvedPackageV>, ErrV>(e),
                },
            decreases gw.use_dirs.len() - i,
        {
            proof {
                assert(gw.use_dirs@[i as int].deep_view() == dirs[i as int]);
            }
            let nd = normalize_dir_exec(gw.use_dirs[i].as_str());
            let cfg = PackageConfig {
                path: nd,
                resolver: ResolverType::Go,
                version_mode: VersionMode::Semantic,
                assets: Vec::new(),
            };
            let p = match self.resolve(snap, &cfg) {
                Ok(p) => p,
                Err(e) => {
                    return Err(e);
                },
            };
            let ghost old_out = out.deep_view();
            out.push(p);
            proof {
                assert(out.deep_view() =~= old_out.push(p@));
                assert(resolve_list(snapv, dirs, i as int) matches Ok(rest) ==> out.deep_view()
                    + resolve_list(snapv, dirs, i + 1)->Ok_0 =~= old_out + rest);
            }
            i = i + 1;
        }
        proof {
            assert(resolve_list(snapv, dirs, i as int) == Ok::<Seq<ResolvedPackageV>, ErrV>(
                Seq::empty(),
            ));
            assert(out.deep_view() + Seq::<ResolvedPackageV>::empty() =~= out.deep_view());
        }
        Ok(out)
    }

    fn bump(
        &mut self,
        ctx: &Context,
        package: &ResolvedPackage,
        current: Option<&str>,
        version: &str,
    ) -> (r: Result<Option<String>, ResolveError>) {
        let _ = package;
        if ctx.dry_run {
            return Ok(None);
        }
        Ok(Some(self.update_version_go(current, version)))
    }

    fn sort_packages(
        &mut self,
        packages: &mut Vec<(String, PackageConfig)>,
        manifests: &Vec<(String, String)>,
    ) -> (r: Result<(), ResolveError>) {
        crate::sort::sort_go_packages(packages, manifests)
    }

    fn publish(
        &mut self,
        package: &ResolvedPackage,
        resolver_config: &ResolverConfig,
        dry_run: bool,
    ) -> (r: Result<Vec<Command>, ResolveError>) {
        let _ = package;
        let mut plan: Vec<Command> = Vec::new();
        plan_commands(&resolver_config.prepublish, dry_run, &mut plan);
        let ghost pre = plan.deep_view();
        proof {
            assert(pre =~= Seq::<CommandV>::empty() + kept_commands(
                resolver_config@.prepublish,
                0,
                dry_run,
            ));
            assert(pre =~= kept_commands(resolver_config@.prepublish, 0, dry_run));
        }
        plan_commands(&resolver_config.publish, dry_run, &mut plan);
        proof {
            assert(plan.deep_view() =~= publish_plan_spec(resolver_config@, dry_run));
        }
        Ok(plan)
    }
}

/// Append the commands of `cmds` that survive the dry-run filter.
fn plan_commands(cmds: &Vec<Command>, dry_run: bool, out: &mut Vec<Command>)
    ensures
        final(out).deep_view() == old(out).deep_view() + kept_commands(cmds.deep_view(), 0, dry_run),
{
    let ghost cv = cmds.deep_view();
    let ghost base = out.deep_view();
    let mut i: usize = 0;
    proof {
        assert(cv.len() == cmds@.len());
    }
    while i < cmds.len()
        invariant
            i <= cmds.len(),
            cv == cmds.deep_view(),
            cv.len() == cmds@.len(),
            base + kept_commands(cv, 0, dry_run) =~= out.deep_view() + kept_commands(
                cv,
                i as int,
                dry_run,
            ),
        decreases cmds.len() - i,
    {
        proof {
            assert(cmds@[i as int].deep_view() == cv[i as int]);
        }
        let keep = !dry_run || match cmds[i].dry_run {
            Some(true) => true,
            _ => false,
        };
        if keep {
            let ghost old_out = out.deep_view();
            out.push(cmds[i].clone());
            proof {
                assert(out.deep_view() =~= old_out.push(cv[i as int]));
                assert(keep_command(cv[i as int], dry_run));
                assert(kept_commands(cv, i as int, dry_run) =~= seq![cv[i as int]]
                    + kept_commands(cv, i + 1, dry_run));
                assert(base + kept_commands(cv, 0, dry_run) =~= out.deep_view() + kept_commands(
                    cv,
                    i + 1,
                    dry_run,
                ));
            }
        } else {
            proof {
                assert(!keep_command(cv[i as int], dry_run));
            }
        }
        i = i + 1;
    }
    proof {
        assert(kept_commands(cv, i as int, dry_run) =~= Seq::<CommandV>::empty());
        assert(out.deep_view() =~= base + kept_commands(cv, 0, dry_run));
    }
}

/// Executable counterpart of [`normalize_dir`].
pub fn normalize_dir_exec(d: &str) -> (r: String)
    ensures
        r@ == normalize_dir(d@),
{
    proof {
        reveal_strlit("./");
    }
    let mut cur: &str = d;
    let mut n = cur.unicode_len();
    while n >= 2 && str_starts_with(cur, "./")
        invariant
            n == cur@.len(),
            normalize_dir(cur@) == normalize_dir(d@),
        decreases n,
    {
        cur = cur.substring_char(2, n);
        n = n - 2;
    }
    cur.to_owned()
}

} // verus!
