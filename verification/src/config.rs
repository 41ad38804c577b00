//! Configuration values consumed by the resolver engine.
//!
//! These mirror the configuration the surrounding orchestration layer owns:
//! which directory a package lives in, which ecosystem engine resolves it,
//! and which commands run at publish time.

use vstd::prelude::*;

verus! {

/// The ecosystem engine responsible for a package.
#[derive(Debug, Clone, Copy, PartialEq, Eq, Structural)]
pub enum ResolverType {
    /// The Go ecosystem engine implemented by this crate.
    Go,
    /// A package handled by some other ecosystem's engine.
    Generic,
}

/// How a package's version is interpreted.
#[derive(Debug, Clone, Copy, PartialEq, Eq, Structural)]
pub enum VersionMode {
    Semantic,
}

/// Spec-level value of a [`PackageConfig`].
pub struct PackageConfigV {
    pub path: Seq<char>,
    pub resolver: ResolverType,
    pub version_mode: VersionMode,
    pub assets: Seq<Seq<char>>,
}

/// One package entry of the repository configuration.
#[derive(Debug)]
pub struct PackageConfig {
    /// Directory of the package, relative to the repository root.
    pub path: String,
    pub resolver: ResolverType,
    pub version_mode: VersionMode,
    pub assets: Vec<String>,
}

impl View for PackageConfig {
    type V = PackageConfigV;

    open spec fn view(&self) -> PackageConfigV {
        PackageConfigV {
            path: self.path@,
            resolver: self.resolver,
            version_mode: self.version_mode,
            assets: self.assets.deep_view(),
        }
    }
}

impl DeepView for PackageConfig {
    type V = PackageConfigV;

    open spec fn deep_view(&self) -> PackageConfigV {
        self.view()
    }
}

/// Spec-level value of a [`Command`].
pub struct CommandV {
    pub command: Seq<char>,
    pub args: Option<Seq<Seq<char>>>,
    pub dry_run: Option<bool>,
}

/// One configured publish-time command.
#[derive(Debug)]
pub struct Command {
    pub command: String,
    pub args: Option<Vec<String>>,
    /// When `Some(true)`, the command runs even under a global dry run.
    pub dry_run: Option<bool>,
}

impl View for Command {
    type V = CommandV;

    open spec fn view(&self) -> CommandV {
        CommandV { command: self.command@, args: self.args.deep_view(), dry_run: self.dry_run }
    }
}

impl DeepView for Command {
    type V = CommandV;

    open spec fn deep_view(&self) -> CommandV {
        self.view()
    }
}

impl Clone for Command {
    fn clone(&self) -> (r: Self)
        ensures
            r@ == self@,
    {
        let args: Option<Vec<String>> = match &self.args {
            None => None,
            Some(v) => {
                let mut out: Vec<String> = Vec::new();
                let mut i: usize = 0;
                while i < v.len()
                    invariant
                        i <= v.len(),
                        out.deep_view() =~= v.deep_view().take(i as int),
                    decreases v.len() - i,
                {
                    let ghost old_deep = out.deep_view();
                    out.push(v[i].clone());
                    proof {
                        assert(out.deep_view() =~= old_deep.push(v@[i as int]@));
                        assert(out.deep_view() =~= v.deep_view().take(i + 1));
                    }
                    i = i + 1;
                }
                proof {
                    assert(out.deep_view() =~= v.deep_view());
                }
                Some(out)
            },
        };
        let r = Command { command: self.command.clone(), args, dry_run: self.dry_run };
        proof {
            assert(r@.args =~~= self@.args);
        }
        r
    }
}

/// Spec-level value of a [`ResolverConfig`].
pub struct ResolverConfigV {
    pub prepublish: Seq<CommandV>,
    pub publish: Seq<CommandV>,
}

/// The command lists an ecosystem runs before and at publish time.
#[derive(Debug)]
pub struct ResolverConfig {
    pub prepublish: Vec<Command>,
    pub publish: Vec<Command>,
}

impl View for ResolverConfig {
    type V = ResolverConfigV;

    open spec fn view(&self) -> ResolverConfigV {
        ResolverConfigV {
            prepublish: self.prepublish.deep_view(),
            publish: self.publish.deep_view(),
        }
    }
}

impl DeepView for ResolverConfig {
    type V = ResolverConfigV;

    open spec fn deep_view(&self) -> ResolverConfigV {
        self.view()
    }
}

/// The execution context handed down by the orchestration layer.
#[derive(Debug, Clone, Copy, PartialEq, Eq, Structural)]
pub struct Context {
    /// Under a dry run every mutating effect is suppressed.
    pub dry_run: bool,
}

} // verus!
