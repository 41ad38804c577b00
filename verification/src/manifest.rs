//! Line-oriented parsing of ecosystem manifests.
//!
//! A module manifest declares the module identity (`module <ident>`), an
//! optional toolchain version (`go <digits-and-dots>`), and dependency
//! requirements, either inline (`require <path> <version>`) or in a
//! parenthesized block.  A workspace manifest follows the same structural
//! grammar with `use <dir>` entries naming member directories.
//!
//! Rules apply per trimmed line, in order, first match wins; unmatched
//! lines are inert.  Comment lines (`//`) and blank lines are skipped.

use vstd::prelude::*;

use crate::error::{result_view, ErrV, ResolveError};
use crate::text::{
    is_space, match_one_token, match_two_tokens, match_two_tokens_exec, one_token_exec, space_char,
    space_end, space_run, split_lines, split_lines_spec, starts_with, str_eq, str_starts_with,
    trim, trim_spec,
};

verus! {

/// One dependency requirement: a module path and its verbatim constraint.
#[derive(Debug, Clone)]
pub struct GoRequire {
    pub path: String,
    pub version: String,
}

impl View for GoRequire {
    type V = (Seq<char>, Seq<char>);

    open spec fn view(&self) -> (Seq<char>, Seq<char>) {
        (self.path@, self.version@)
    }
}

impl DeepView for GoRequire {
    type V = (Seq<char>, Seq<char>);

    open spec fn deep_view(&self) -> (Seq<char>, Seq<char>) {
        self.view()
    }
}

/// Spec-level value of a [`GoMod`].
pub struct GoModV {
    pub module: Seq<char>,
    pub go_version: Option<Seq<char>>,
    pub require: Seq<(Seq<char>, Seq<char>)>,
}

/// A parsed module manifest.
#[derive(Debug, Clone)]
pub struct GoMod {
    pub module: String,
    pub go_version: Option<String>,
    pub require: Vec<GoRequire>,
}

impl View for GoMod {
    type V = GoModV;

    open spec fn view(&self) -> GoModV {
        GoModV {
            module: self.module@,
            go_version: self.go_version.deep_view(),
            require: self.require.deep_view(),
        }
    }
}

impl DeepView for GoMod {
    type V = GoModV;

    open spec fn deep_view(&self) -> GoModV {
        self.view()
    }
}

/// Spec-level value of a [`GoWork`].
pub struct GoWorkV {
    pub go_version: Option<Seq<char>>,
    pub use_dirs: Seq<Seq<char>>,
}

/// A parsed workspace manifest.
#[derive(Debug, Clone)]
pub struct GoWork {
    pub go_version: Option<String>,
    pub use_dirs: Vec<String>,
}

impl View for GoWork {
    type V = GoWorkV;

    open spec fn view(&self) -> GoWorkV {
        GoWorkV { go_version: self.go_version.deep_view(), use_dirs: self.use_dirs.deep_view() }
    }
}

impl DeepView for GoWork {
    type V = GoWorkV;

    open spec fn deep_view(&self) -> GoWorkV {
        self.view()
    }
}

/// A comment line: it begins with `//`.
pub open spec fn is_comment(l: Seq<char>) -> bool {
    starts_with(l, "//"@)
}

/// Position after a keyword and at least one blank, with further blanks
/// skipped; `None` when the line does not begin that way.
pub open spec fn keyword_rest(l: Seq<char>, kw: Seq<char>) -> Option<int> {
    if starts_with(l, kw) && l.len() > kw.len() && is_space(l[kw.len() as int]) {
        Some(space_end(l, kw.len() as int))
    } else {
        None
    }
}

/// `module <ident>`: the identity is the whole rest of the line.
pub open spec fn match_module(l: Seq<char>) -> Option<Seq<char>> {
    match keyword_rest(l, "module"@) {
        Some(j) => if j < l.len() {
            Some(l.subrange(j, l.len() as int))
        } else {
            None
        },
        None => None,
    }
}

/// `go <digits-and-dots>`: the maximal run of digits and dots.
pub open spec fn match_go(l: Seq<char>) -> Option<Seq<char>> {
    match keyword_rest(l, "go"@) {
        Some(j) => {
            let e = crate::text::num_dot_end(l, j);
            if e > j {
                Some(l.subrange(j, e))
            } else {
                None
            }
        },
        None => None,
    }
}

/// `require <path> <version>` on a single line.
pub open spec fn match_require(l: Seq<char>) -> Option<(Seq<char>, Seq<char>)> {
    match keyword_rest(l, "require"@) {
        Some(j) => match_two_tokens(l, j),
        None => None,
    }
}

/// `use <dir>` on a single line.
pub open spec fn match_use(l: Seq<char>) -> Option<Seq<char>> {
    match keyword_rest(l, "use"@) {
        Some(j) => match_one_token(l, j),
        None => None,
    }
}

/// Parser state for a module manifest, folded over the lines.
pub struct ModSt {
    pub module: Seq<char>,
    pub go_version: Option<Seq<char>>,
    pub require: Seq<(Seq<char>, Seq<char>)>,
    pub in_block: bool,
}

pub open spec fn init_mod_st() -> ModSt {
    ModSt { module: Seq::empty(), go_version: None, require: Seq::empty(), in_block: false }
}

/// One line of a module manifest: the rules in order, first match wins.
pub open spec fn mod_step(st: ModSt, raw: Seq<char>) -> ModSt {
    let l = trim_spec(raw);
    if l.len() == 0 || is_comment(l) {
        st
    } else if match_module(l) is Some {
        ModSt {
            module: match_module(l)->0,
            go_version: st.go_version,
            require: st.require,
            in_block: st.in_block,
        }
    } else if match_go(l) is Some {
        ModSt {
            module: st.module,
            go_version: Some(match_go(l)->0),
            require: st.require,
            in_block: st.in_block,
        }
    } else if l == "require ("@ {
        ModSt {
            module: st.module,
            go_version: st.go_version,
            require: st.require,
            in_block: true,
        }
    } else if l == ")"@ && st.in_block {
        ModSt {
            module: st.module,
            go_version: st.go_version,
            require: st.require,
            in_block: false,
        }
    } else if match_require(l) is Some {
        ModSt {
            module: st.module,
            go_version: st.go_version,
            require: st.require.push(match_require(l)->0),
            in_block: st.in_block,
        }
    } else if st.in_block {
        match match_two_tokens(l, 0) {
            Some(pv) => if !starts_with(pv.0, "//"@) {
                ModSt {
                    module: st.module,
                    go_version: st.go_version,
                    require: st.require.push(pv),
                    in_block: st.in_block,
                }
            } else {
                st
            },
            None => st,
        }
    } else {
        st
    }
}

pub open spec fn mod_scan(lines: Seq<Seq<char>>, i: int, st: ModSt) -> ModSt
    decreases lines.len() - i,
{
    if 0 <= i < lines.len() {
        mod_scan(lines, i + 1, mod_step(st, lines[i]))
    } else {
        st
    }
}

/// The parser state after folding every line of `content`.
pub open spec fn go_mod_final(content: Seq<char>) -> ModSt {
    mod_scan(split_lines_spec(content), 0, init_mod_st())
}

/// What parsing a module manifest returns: the folded state, or a parse
/// error when no module identity was declared.
pub open spec fn parse_go_mod_spec(content: Seq<char>, path: Seq<char>) -> Result<GoModV, ErrV> {
    let st = go_mod_final(content);
    if st.module.len() == 0 {
        Err(
            ErrV::ParseError {
                path: path,
                reason: "module directive not found in go.mod"@,
            },
        )
    } else {
        Ok(GoModV { module: st.module, go_version: st.go_version, require: st.require })
    }
}

/// Parser state for a workspace manifest.
pub struct WorkSt {
    pub go_version: Option<Seq<char>>,
    pub use_dirs: Seq<Seq<char>>,
    pub in_block: bool,
}

pub open spec fn init_work_st() -> WorkSt {
    WorkSt { go_version: None, use_dirs: Seq::empty(), in_block: false }
}

/// One line of a workspace manifest: the rules in order, first match wins.
pub open spec fn work_step(st: WorkSt, raw: Seq<char>) -> WorkSt {
    let l = trim_spec(raw);
    if l.len() == 0 || is_comment(l) {
        st
    } else if match_go(l) is Some {
        WorkSt { go_version: Some(match_go(l)->0), use_dirs: st.use_dirs, in_block: st.in_block }
    } else if l == "use ("@ {
        WorkSt { go_version: st.go_version, use_dirs: st.use_dirs, in_block: true }
    } else if l == ")"@ && st.in_block {
        WorkSt { go_version: st.go_version, use_dirs: st.use_dirs, in_block: false }
    } else if match_use(l) is Some {
        WorkSt {
            go_version: st.go_version,
            use_dirs: st.use_dirs.push(match_use(l)->0),
            in_block: st.in_block,
        }
    } else if st.in_block {
        match match_one_token(l, 0) {
            Some(d) => if d != ")"@ && !starts_with(d, "//"@) {
                WorkSt {
                    go_version: st.go_version,
                    use_dirs: st.use_dirs.push(d),
                    in_block: st.in_block,
                }
            } else {
                st
            },
            None => st,
        }
    } else {
        st
    }
}

pub open spec fn work_scan(lines: Seq<Seq<char>>, i: int, st: WorkSt) -> WorkSt
    decreases lines.len() - i,
{
    if 0 <= i < lines.len() {
        work_scan(lines, i + 1, work_step(st, lines[i]))
    } else {
        st
    }
}

/// The workspace value parsed from `content`; workspace parsing never fails.
pub open spec fn go_work_of(content: Seq<char>) -> GoWorkV {
    let st = work_scan(split_lines_spec(content), 0, init_work_st());
    GoWorkV { go_version: st.go_version, use_dirs: st.use_dirs }
}

/// Parse a module manifest.
///
/// Fails exactly when no `module` directive with a non-empty identity is
/// present; `path` only labels the error.
pub fn parse_go_mod(content: &str, path: &str) -> (r: Result<GoMod, ResolveError>)
    ensures
        result_view(r) == parse_go_mod_spec(content@, path@),
{
    let lines = split_lines(content);
    let ghost lv = lines.deep_view();
    let mut module: String = String::new();
    let mut go_version: Option<String> = None;
    let mut require: Vec<GoRequire> = Vec::new();
    let mut in_block: bool = false;
    let mut i: usize = 0;
    proof {
        assert(lv.len() == lines@.len());
        assert(require.deep_view() =~= Seq::<(Seq<char>, Seq<char>)>::empty());
        assert(ModSt {
            module: module@,
            go_version: go_version.deep_view(),
            require: require.deep_view(),
            in_block: in_block,
        } == init_mod_st());
    }
    while i < lines.len()
        invariant
            i <= lines.len(),
            lv == lines.deep_view(),
            lv.len() == lines@.len(),
            lv == split_lines_spec(content@),
            mod_scan(
                lv,
                i as int,
                ModSt {
                    module: module@,
                    go_version: go_version.deep_view(),
                    require: require.deep_view(),
                    in_block: in_block,
                },
            ) == go_mod_final(content@),
        decreases lines.len() - i,
    {
        let ghost cur = ModSt {
            module: module@,
            go_version: go_version.deep_view(),
            require: require.deep_view(),
            in_block: in_block,
        };
        let ghost raw = lv[i as int];
        proof {
            assert(lines@[i as int].deep_view() == lv[i as int]);
        }
        let t = trim(lines[i].as_str());
        let tn = t.unicode_len();
        proof {
            assert(t@ == trim_spec(raw));
        }
        if tn == 0 || str_starts_with(t, "//") {
            proof {
                assert(mod_step(cur, raw) == cur);
            }
        } else if let Some(m) = module_match_exec(t, tn) {
            module = m;
        } else if let Some(g) = go_match_exec(t, tn) {
            go_version = Some(g);
        } else if str_eq(t, "require (") {
            in_block = true;
        } else if str_eq(t, ")") && in_block {
            in_block = false;
        } else if let Some((p, v)) = require_match_exec(t, tn) {
            let ghost old_reqs = require.deep_view();
            require.push(GoRequire { path: p, version: v });
            proof {
                assert(require.deep_view() =~= old_reqs.push(match_require(t@)->0));
            }
        } else if in_block {
            if let Some((p, v)) = match_two_tokens_exec(t, tn, 0) {
                if !str_starts_with(p.as_str(), "//") {
                    let ghost old_reqs = require.deep_view();
                    let ghost pv = match_two_tokens(t@, 0)->0;
                    require.push(GoRequire { path: p, version: v });
                    proof {
                        assert(require.deep_view() =~= old_reqs.push(pv));
                    }
                }
            }
        }
        proof {
            let next = ModSt {
                module: module@,
                go_version: go_version.deep_view(),
                require: require.deep_view(),
                in_block: in_block,
            };
            assert(next == mod_step(cur, raw));
            assert(mod_scan(lv, i as int, cur) == mod_scan(lv, i + 1, next));
        }
        i = i + 1;
    }
    proof {
        let cur = ModSt {
            module: module@,
            go_version: go_version.deep_view(),
            require: require.deep_view(),
            in_block: in_block,
        };
        assert(mod_scan(lv, i as int, cur) == cur);
    }
    if module.as_str().unicode_len() == 0 {
        Err(
            ResolveError::ParseError {
                path: path.to_owned(),
                reason: String::from_str("module directive not found in go.mod"),
            },
        )
    } else {
        Ok(GoMod { module, go_version, require })
    }
}

/// Parse a workspace manifest.  It has no required directive, so parsing
/// always succeeds; an absent `use` section yields an empty member list.
pub fn parse_go_work(content: &str, path: &str) -> (r: Result<GoWork, ResolveError>)
    ensures
        r matches Ok(w) && w@ == go_work_of(content@),
{
    let _ = path;
    let lines = split_lines(content);
    let ghost lv = lines.deep_view();
    let mut go_version: Option<String> = None;
    let mut use_dirs: Vec<String> = Vec::new();
    let mut in_block: bool = false;
    let mut i: usize = 0;
    proof {
        assert(lv.len() == lines@.len());
        assert(use_dirs.deep_view() =~= Seq::<Seq<char>>::empty());
        assert(WorkSt {
            go_version: go_version.deep_view(),
            use_dirs: use_dirs.deep_view(),
            in_block: in_block,
        } == init_work_st());
    }
    while i < lines.len()
        invariant
            i <= lines.len(),
            lv == lines.deep_view(),
            lv.len() == lines@.len(),
            lv == split_lines_spec(content@),
            work_scan(
                lv,
                i as int,
                WorkSt {
                    go_version: go_version.deep_view(),
                    use_dirs: use_dirs.deep_view(),
                    in_block: in_block,
                },
            ) == work_scan(lv, 0, init_work_st()),
        decreases lines.len() - i,
    {
        let ghost cur = WorkSt {
            go_version: go_version.deep_view(),
            use_dirs: use_dirs.deep_view(),
            in_block: in_block,
        };
        let ghost raw = lv[i as int];
        proof {
            assert(lines@[i as int].deep_view() == lv[i as int]);
        }
        let t = trim(lines[i].as_str());
        let tn = t.unicode_len();
        proof {
            assert(t@ == trim_spec(raw));
        }
        if tn == 0 || str_starts_with(t, "//") {
            proof {
                assert(work_step(cur, raw) == cur);
            }
        } else if let Some(g) = go_match_exec(t, tn) {
            go_version = Some(g);
        } else if str_eq(t, "use (") {
            in_block = true;
        } else if str_eq(t, ")") && in_block {
            in_block = false;
        } else if let Some(d) = use_match_exec(t, tn) {
            let ghost old_dirs = use_dirs.deep_view();
            use_dirs.push(d);
            proof {
                assert(use_dirs.deep_view() =~= old_dirs.push(match_use(t@)->0));
            }
        } else if in_block {
            if let Some(d) = one_token_exec(t, tn, 0) {
                if !str_eq(d.as_str(), ")") && !str_starts_with(d.as_str(), "//") {
                    let ghost old_dirs = use_dirs.deep_view();
                    let ghost dv = match_one_token(t@, 0)->0;
                    use_dirs.push(d);
                    proof {
                        assert(use_dirs.deep_view() =~= old_dirs.push(dv));
                    }
                }
            }
        }
        proof {
            let next = WorkSt {
                go_version: go_version.deep_view(),
                use_dirs: use_dirs.deep_view(),
                in_block: in_block,
            };
            assert(next == work_step(cur, raw));
            assert(work_scan(lv, i as int, cur) == work_scan(lv, i + 1, next));
        }
        i = i + 1;
    }
    proof {
        let cur = WorkSt {
            go_version: go_version.deep_view(),
            use_dirs: use_dirs.deep_view(),
            in_block: in_block,
        };
        assert(work_scan(lv, i as int, cur) == cur);
    }
    Ok(GoWork { go_version, use_dirs })
}

/// Executable counterpart of [`keyword_rest`].
fn keyword_rest_exec(l: &str, n: usize, kw: &str, kwn: usize) -> (r: Option<usize>)
    requires
        n == l@.len(),
        kwn == kw@.len(),
    ensures
        match r {
            Some(j) => keyword_rest(l@, kw@) == Some(j as int) && j <= n,
            None => keyword_rest(l@, kw@) is None,
        },
{
    if str_starts_with(l, kw) && n > kwn {
        if space_char(l.get_char(kwn)) {
            let j = space_run(l, n, kwn);
            return Some(j);
        }
    }
    None
}

/// Match `module <ident>` against a trimmed line.
fn module_match_exec(l: &str, n: usize) -> (r: Option<String>)
    requires
        n == l@.len(),
    ensures
        r.deep_view() == match_module(l@),
{
    proof {
        reveal_strlit("module");
    }
    match keyword_rest_exec(l, n, "module", 6) {
        Some(j) => {
            if j < n {
                Some(l.substring_char(j, n).to_owned())
            } else {
                None
            }
        },
        None => None,
    }
}

/// Match `go <digits-and-dots>` against a trimmed line.
fn go_match_exec(l: &str, n: usize) -> (r: Option<String>)
    requires
        n == l@.len(),
    ensures
        r.deep_view() == match_go(l@),
{
    proof {
        reveal_strlit("go");
    }
    match keyword_rest_exec(l, n, "go", 2) {
        Some(j) => {
            let e = crate::text::num_dot_run(l, n, j);
            if e > j {
                Some(l.substring_char(j, e).to_owned())
            } else {
                None
            }
        },
        None => None,
    }
}

/// Match `require <path> <version>` against a trimmed line.
fn require_match_exec(l: &str, n: usize) -> (r: Option<(String, String)>)
    requires
        n == l@.len(),
    ensures
        r.deep_view() == match_require(l@),
{
    proof {
        reveal_strlit("require");
    }
    match keyword_rest_exec(l, n, "require", 7) {
        Some(j) => match_two_tokens_exec(l, n, j),
        None => None,
    }
}

/// Match `use <dir>` against a trimmed line.
fn use_match_exec(l: &str, n: usize) -> (r: Option<String>)
    requires
        n == l@.len(),
    ensures
        r.deep_view() == match_use(l@),
{
    proof {
        reveal_strlit("use");
    }
    match keyword_rest_exec(l, n, "use", 3) {
        Some(j) => one_token_exec(l, n, j),
        None => None,
    }
}

} // verus!
