//! The library's cross-cutting guarantees, stated and proved once over
//! the spec functions that the operations' contracts use.

use vstd::prelude::*;

use crate::config::ResolverConfigV;
use crate::error::ErrV;
use crate::manifest::{is_comment, mod_step, work_step, ModSt, WorkSt};
use crate::resolver::{
    bump_spec, kept_commands, publish_plan_spec, resolve_all_spec, resolve_list, resolve_spec,
    member_lookup, normalize_dir, RootSnapshotV, ResolvedPackageV,
};
use crate::manifest::GoModV;
use crate::sort::{entry_gt, insert_spec, sort_spec};
use crate::text::{is_digit, space_end, trim_spec};
use crate::version::{assign_at, boilerplate, eq_ci, extract_version_spec, first_assign,
    get_version_spec, is_version_core, kw_ci_at, tags_version_spec, update_content_spec};

verus! {

/// Resolution is a function of the snapshot alone: two resolutions of the
/// same unmodified snapshot yield identical packages.
pub proof fn lemma_resolution_idempotent(
    snap: RootSnapshotV,
    path: Seq<char>,
    r1: Result<ResolvedPackageV, ErrV>,
    r2: Result<ResolvedPackageV, ErrV>,
)
    requires
        r1 == resolve_spec(snap, path),
        r2 == resolve_spec(snap, path),
    ensures
        r1 == r2,
{
}

/// The version chain is strictly ordered: a version-file hit wins over any
/// tag, a tag hit wins over the default, and with neither the default
/// `0.0.0` is returned.
pub proof fn lemma_priority_chain(
    vg: Option<Seq<char>>,
    tags: Option<Seq<char>>,
    module: Seq<char>,
)
    ensures
        (vg is Some && extract_version_spec(vg->0) is Some) ==> get_version_spec(
            vg,
            tags,
            module,
        ) == extract_version_spec(vg->0)->0,
        (!(vg is Some && extract_version_spec(vg->0) is Some) && tags is Some
            && tags_version_spec(tags->0, module) is Some) ==> get_version_spec(vg, tags, module)
            == tags_version_spec(tags->0, module)->0,
        (!(vg is Some && extract_version_spec(vg->0) is Some) && !(tags is Some
            && tags_version_spec(tags->0, module) is Some)) ==> get_version_spec(vg, tags, module)
            == "0.0.0"@,
{
}

/// A blank or comment line changes neither parser's state; in particular a
/// comment-marked line inside a requirement block adds no requirement.
pub proof fn lemma_comment_line_inert(mst: ModSt, wst: WorkSt, raw: Seq<char>)
    requires
        trim_spec(raw).len() == 0 || is_comment(trim_spec(raw)),
    ensures
        mod_step(mst, raw) == mst,
        work_step(wst, raw) == wst,
{
}

/// Every package of a workspace resolution carries the normalized path of
/// the corresponding member, in member order.
pub proof fn lemma_workspace_expansion(
    snap: RootSnapshotV,
    dirs: Seq<Seq<char>>,
    i: int,
    ps: Seq<ResolvedPackageV>,
)
    requires
        0 <= i <= dirs.len(),
        resolve_list(snap, dirs, i) == Ok::<Seq<ResolvedPackageV>, ErrV>(ps),
    ensures
        ps.len() == dirs.len() - i,
        forall|j: int| 0 <= j < ps.len() ==> ps[j].path == normalize_dir(dirs[i + j]),
    decreases dirs.len() - i,
{
    if i < dirs.len() {
        let nd = normalize_dir(dirs[i]);
        let p = resolve_spec(snap, nd)->Ok_0;
        let rest = resolve_list(snap, dirs, i + 1)->Ok_0;
        lemma_workspace_expansion(snap, dirs, i + 1, rest);
        assert(ps =~= seq![p] + rest);
        assert(p.path == nd);
        assert forall|j: int| 0 <= j < ps.len() implies ps[j].path == normalize_dir(
            dirs[i + j],
        ) by {
            if j > 0 {
                assert(ps[j] == rest[j - 1]);
            }
        }
    }
}

/// A root with neither a workspace manifest nor a root module manifest
/// resolves to no packages at all — not to an error.
pub proof fn lemma_missing_manifest(snap: RootSnapshotV)
    requires
        snap.go_work is None,
        match member_lookup(snap.members, "."@) {
            Some(m) => m.go_mod is None,
            None => true,
        },
    ensures
        resolve_all_spec(snap) == Ok::<Seq<ResolvedPackageV>, ErrV>(Seq::empty()),
{
}

/// No command survives the dry-run filter when none overrides it.
proof fn lemma_kept_empty(cmds: Seq<crate::config::CommandV>, i: int)
    requires
        forall|k: int| 0 <= k < cmds.len() ==> (#[trigger] cmds[k]).dry_run != Some(true),
    ensures
        kept_commands(cmds, i, true) == Seq::<crate::config::CommandV>::empty(),
    decreases cmds.len() - i,
{
    if 0 <= i < cmds.len() {
        lemma_kept_empty(cmds, i + 1);
    }
}

/// Under dry run the engine mutates nothing: `bump` writes no file and the
/// publish plan is empty, unless a command explicitly overrides dry run.
pub proof fn lemma_dry_run_suppression(
    cfg: ResolverConfigV,
    current: Option<Seq<char>>,
    version: Seq<char>,
)
    requires
        forall|k: int|
            0 <= k < cfg.prepublish.len() ==> (#[trigger] cfg.prepublish[k]).dry_run != Some(
                true,
            ),
        forall|k: int|
            0 <= k < cfg.publish.len() ==> (#[trigger] cfg.publish[k]).dry_run != Some(true),
    ensures
        bump_spec(true, current, version) is None,
        publish_plan_spec(cfg, true) == Seq::<crate::config::CommandV>::empty(),
{
    lemma_kept_empty(cfg.prepublish, 0);
    lemma_kept_empty(cfg.publish, 0);
    assert(publish_plan_spec(cfg, true) =~= Seq::<crate::config::CommandV>::empty());
}

/// For a directly related pair the dependency comes first: when `a`
/// depends on `b`, sorting the two places `b` before `a`.
pub proof fn lemma_pair_order(
    a: (Seq<char>, crate::config::PackageConfigV),
    b: (Seq<char>, crate::config::PackageConfigV),
    cache: Seq<(Seq<char>, GoModV)>,
)
    requires
        entry_gt(a, b, cache),
    ensures
        sort_spec(seq![a, b], cache) =~= seq![b, a],
{
    let es = seq![a, b];
    assert(es.drop_last() =~= seq![a]);
    assert(seq![a].drop_last() =~= Seq::<(Seq<char>, crate::config::PackageConfigV)>::empty());
    assert(sort_spec(seq![a], cache) =~= insert_spec(
        sort_spec(seq![a].drop_last(), cache),
        a,
        cache,
    ));
    assert(sort_spec(seq![a], cache) =~= seq![a]);
    assert(seq![a].last() == a);
    assert(insert_spec(seq![a], b, cache) =~= insert_spec(
        seq![a].drop_last(),
        b,
        cache,
    ).push(a));
    assert(insert_spec(seq![a], b, cache) =~= seq![b, a]);
}

/// An unrelated pair keeps its order: when `a` need not come after `b`,
/// sorting the two leaves them as they stand.
pub proof fn lemma_pair_stable(
    a: (Seq<char>, crate::config::PackageConfigV),
    b: (Seq<char>, crate::config::PackageConfigV),
    cache: Seq<(Seq<char>, GoModV)>,
)
    requires
        !entry_gt(a, b, cache),
    ensures
        sort_spec(seq![a, b], cache) =~= seq![a, b],
{
    let es = seq![a, b];
    assert(es.drop_last() =~= seq![a]);
    assert(seq![a].drop_last() =~= Seq::<(Seq<char>, crate::config::PackageConfigV)>::empty());
    assert(sort_spec(seq![a], cache) =~= insert_spec(
        sort_spec(seq![a].drop_last(), cache),
        a,
        cache,
    ));
    assert(sort_spec(seq![a], cache) =~= seq![a]);
    assert(seq![a].last() == a);
    assert(insert_spec(seq![a], b, cache) =~= seq![a, b]);
}


/// No assignment matches in the template text before its own `const`.
#[verifier::rlimit(100)]
proof fn lemma_template_no_early_match(v: Seq<char>)
    ensures
        forall|p: int| 0 <= p < 63 ==> #[trigger] assign_at(boilerplate(v), p) is None,
{
    let bp = boilerplate(v);
    reveal_strlit("package main\n\n// Version is the current version of the module.\nconst Version = \"");
    reveal_strlit("const");
    reveal_strlit("var");
    assert(bp[0] == 'p');
    assert(bp[1] == 'a');
    assert(bp[2] == 'c');
    assert(bp[3] == 'k');
    assert(bp[4] == 'a');
    assert(bp[5] == 'g');
    assert(bp[6] == 'e');
    assert(bp[7] == ' ');
    assert(bp[8] == 'm');
    assert(bp[9] == 'a');
    assert(bp[10] == 'i');
    assert(bp[11] == 'n');
    assert(bp[12] == '\n');
    assert(bp[13] == '\n');
    assert(bp[14] == '/');
    assert(bp[15] == '/');
    assert(bp[16] == ' ');
    assert(bp[17] == 'V');
    assert(bp[18] == 'e');
    assert(bp[19] == 'r');
    assert(bp[20] == 's');
    assert(bp[21] == 'i');
    assert(bp[22] == 'o');
    assert(bp[23] == 'n');
    assert(bp[24] == ' ');
    assert(bp[25] == 'i');
    assert(bp[26] == 's');
    assert(bp[27] == ' ');
    assert(bp[28] == 't');
    assert(bp[29] == 'h');
    assert(bp[30] == 'e');
    assert(bp[31] == ' ');
    assert(bp[32] == 'c');
    assert(bp[33] == 'u');
    assert(bp[34] == 'r');
    assert(bp[35] == 'r');
    assert(bp[36] == 'e');
    assert(bp[37] == 'n');
    assert(bp[38] == 't');
    assert(bp[39] == ' ');
    assert(bp[40] == 'v');
    assert(bp[41] == 'e');
    assert(bp[42] == 'r');
    assert(bp[43] == 's');
    assert(bp[44] == 'i');
    assert(bp[45] == 'o');
    assert(bp[46] == 'n');
    assert(bp[47] == ' ');
    assert(bp[48] == 'o');
    assert(bp[49] == 'f');
    assert(bp[50] == ' ');
    assert(bp[51] == 't');
    assert(bp[52] == 'h');
    assert(bp[53] == 'e');
    assert(bp[54] == ' ');
    assert(bp[55] == 'm');
    assert(bp[56] == 'o');
    assert(bp[57] == 'd');
    assert(bp[58] == 'u');
    assert(bp[59] == 'l');
    assert(bp[60] == 'e');
    assert(bp[61] == '.');
    assert(bp[62] == '\n');
    assert forall|p: int| 0 <= p < 63 implies #[trigger] assign_at(bp, p) is None by {
        if assign_at(bp, p) is Some {
            crate::version::lemma_assign_head(bp, p);
            if p == 2 {
                if kw_ci_at(bp, 2, "const"@) {
                    crate::version::lemma_kw_ci_char(bp, 2, "const"@, 1);
                    assert(eq_ci(bp[3], 'o'));
                    assert(false);
                }
                if kw_ci_at(bp, 2, "var"@) {
                    crate::version::lemma_kw_ci_char(bp, 2, "var"@, 0);
                    assert(eq_ci(bp[2], 'v'));
                    assert(false);
                }
                assert(false);
            } else if p == 17 {
                if kw_ci_at(bp, 17, "const"@) {
                    crate::version::lemma_kw_ci_char(bp, 17, "const"@, 0);
                    assert(eq_ci(bp[17], 'c'));
                    assert(false);
                }
                if kw_ci_at(bp, 17, "var"@) {
                    crate::version::lemma_kw_ci_char(bp, 17, "var"@, 1);
                    assert(eq_ci(bp[18], 'a'));
                    assert(false);
                }
                assert(false);
            } else if p == 32 {
                if kw_ci_at(bp, 32, "const"@) {
                    crate::version::lemma_kw_ci_char(bp, 32, "const"@, 1);
                    assert(eq_ci(bp[33], 'o'));
                    assert(false);
                }
                if kw_ci_at(bp, 32, "var"@) {
                    crate::version::lemma_kw_ci_char(bp, 32, "var"@, 0);
                    assert(eq_ci(bp[32], 'v'));
                    assert(false);
                }
                assert(false);
            } else if p == 40 {
                if kw_ci_at(bp, 40, "const"@) {
                    crate::version::lemma_kw_ci_char(bp, 40, "const"@, 0);
                    assert(eq_ci(bp[40], 'c'));
                    assert(false);
                }
                if kw_ci_at(bp, 40, "var"@) {
                    crate::version::lemma_kw_ci_char(bp, 40, "var"@, 1);
                    assert(eq_ci(bp[41], 'a'));
                    assert(false);
                }
                assert(false);
            } else if p == 0 {
                assert(!eq_ci(bp[0], 'c'));
                assert(!eq_ci(bp[0], 'v'));
                assert(false);
            } else if p == 1 {
                assert(!eq_ci(bp[1], 'c'));
                assert(!eq_ci(bp[1], 'v'));
                assert(false);
            } else if p == 3 {
                assert(!eq_ci(bp[3], 'c'));
                assert(!eq_ci(bp[3], 'v'));
                assert(false);
            } else if p == 4 {
                assert(!eq_ci(bp[4], 'c'));
                assert(!eq_ci(bp[4], 'v'));
                assert(false);
            } else if p == 5 {
                assert(!eq_ci(bp[5], 'c'));
                assert(!eq_ci(bp[5], 'v'));
                assert(false);
            } else if p == 6 {
                assert(!eq_ci(bp[6], 'c'));
                assert(!eq_ci(bp[6], 'v'));
                assert(false);
            } else if p == 7 {
                assert(!eq_ci(bp[7], 'c'));
                assert(!eq_ci(bp[7], 'v'));
                assert(false);
            } else if p == 8 {
                assert(!eq_ci(bp[8], 'c'));
                assert(!eq_ci(bp[8], 'v'));
                assert(false);
            } else if p == 9 {
                assert(!eq_ci(bp[9], 'c'));
                assert(!eq_ci(bp[9], 'v'));
                assert(false);
            } else if p == 10 {
                assert(!eq_ci(bp[10], 'c'));
                assert(!eq_ci(bp[10], 'v'));
                assert(false);
            } else if p == 11 {
                assert(!eq_ci(bp[11], 'c'));
                assert(!eq_ci(bp[11], 'v'));
                assert(false);
            } else if p == 12 {
                assert(!eq_ci(bp[12], 'c'));
                assert(!eq_ci(bp[12], 'v'));
                assert(false);
            } else if p == 13 {
                assert(!eq_ci(bp[13], 'c'));
                assert(!eq_ci(bp[13], 'v'));
                assert(false);
            } else if p == 14 {
                assert(!eq_ci(bp[14], 'c'));
                assert(!eq_ci(bp[14], 'v'));
                assert(false);
            } else if p == 15 {
                assert(!eq_ci(bp[15], 'c'));
                assert(!eq_ci(bp[15], 'v'));
                assert(false);
            } else if p == 16 {
                assert(!eq_ci(bp[16], 'c'));
                assert(!eq_ci(bp[16], 'v'));
                assert(false);
            } else if p == 18 {
                assert(!eq_ci(bp[18], 'c'));
                assert(!eq_ci(bp[18], 'v'));
                assert(false);
            } else if p == 19 {
                assert(!eq_ci(bp[19], 'c'));
                assert(!eq_ci(bp[19], 'v'));
                assert(false);
            } else if p == 20 {
                assert(!eq_ci(bp[20], 'c'));
                assert(!eq_ci(bp[20], 'v'));
                assert(false);
            } else if p == 21 {
                assert(!eq_ci(bp[21], 'c'));
                assert(!eq_ci(bp[21], 'v'));
                assert(false);
            } else if p == 22 {
                assert(!eq_ci(bp[22], 'c'));
                assert(!eq_ci(bp[22], 'v'));
                assert(false);
            } else if p == 23 {
                assert(!eq_ci(bp[23], 'c'));
                assert(!eq_ci(bp[23], 'v'));
                assert(false);
            } else if p == 24 {
                assert(!eq_ci(bp[24], 'c'));
                assert(!eq_ci(bp[24], 'v'));
                assert(false);
            } else if p == 25 {
                assert(!eq_ci(bp[25], 'c'));
                assert(!eq_ci(bp[25], 'v'));
                assert(false);
            } else if p == 26 {
                assert(!eq_ci(bp[26], 'c'));
                assert(!eq_ci(bp[26], 'v'));
                assert(false);
            } else if p == 27 {
                assert(!eq_ci(bp[27], 'c'));
                assert(!eq_ci(bp[27], 'v'));
                assert(false);
            } else if p == 28 {
                assert(!eq_ci(bp[28], 'c'));
                assert(!eq_ci(bp[28], 'v'));
                assert(false);
            } else if p == 29 {
                assert(!eq_ci(bp[29], 'c'));
                assert(!eq_ci(bp[29], 'v'));
                assert(false);
            } else if p == 30 {
                assert(!eq_ci(bp[30], 'c'));
                assert(!eq_ci(bp[30], 'v'));
                assert(false);
            } else if p == 31 {
                assert(!eq_ci(bp[31], 'c'));
                assert(!eq_ci(bp[31], 'v'));
                assert(false);
            } else if p == 33 {
                assert(!eq_ci(bp[33], 'c'));
                assert(!eq_ci(bp[33], 'v'));
                assert(false);
            } else if p == 34 {
                assert(!eq_ci(bp[34], 'c'));
                assert(!eq_ci(bp[34], 'v'));
                assert(false);
            } else if p == 35 {
                assert(!eq_ci(bp[35], 'c'));
                assert(!eq_ci(bp[35], 'v'));
                assert(false);
            } else if p == 36 {
                assert(!eq_ci(bp[36], 'c'));
                assert(!eq_ci(bp[36], 'v'));
                assert(false);
            } else if p == 37 {
                assert(!eq_ci(bp[37], 'c'));
                assert(!eq_ci(bp[37], 'v'));
                assert(false);
            } else if p == 38 {
                assert(!eq_ci(bp[38], 'c'));
                assert(!eq_ci(bp[38], 'v'));
                assert(false);
            } else if p == 39 {
                assert(!eq_ci(bp[39], 'c'));
                assert(!eq_ci(bp[39], 'v'));
                assert(false);
            } else if p == 41 {
                assert(!eq_ci(bp[41], 'c'));
                assert(!eq_ci(bp[41], 'v'));
                assert(false);
            } else if p == 42 {
                assert(!eq_ci(bp[42], 'c'));
                assert(!eq_ci(bp[42], 'v'));
                assert(false);
            } else if p == 43 {
                assert(!eq_ci(bp[43], 'c'));
                assert(!eq_ci(bp[43], 'v'));
                assert(false);
            } else if p == 44 {
                assert(!eq_ci(bp[44], 'c'));
                assert(!eq_ci(bp[44], 'v'));
                assert(false);
            } else if p == 45 {
                assert(!eq_ci(bp[45], 'c'));
                assert(!eq_ci(bp[45], 'v'));
                assert(false);
            } else if p == 46 {
                assert(!eq_ci(bp[46], 'c'));
                assert(!eq_ci(bp[46], 'v'));
                assert(false);
            } else if p == 47 {
                assert(!eq_ci(bp[47], 'c'));
                assert(!eq_ci(bp[47], 'v'));
                assert(false);
            } else if p == 48 {
                assert(!eq_ci(bp[48], 'c'));
                assert(!eq_ci(bp[48], 'v'));
                assert(false);
            } else if p == 49 {
                assert(!eq_ci(bp[49], 'c'));
                assert(!eq_ci(bp[49], 'v'));
                assert(false);
            } else if p == 50 {
                assert(!eq_ci(bp[50], 'c'));
                assert(!eq_ci(bp[50], 'v'));
                assert(false);
            } else if p == 51 {
                assert(!eq_ci(bp[51], 'c'));
                assert(!eq_ci(bp[51], 'v'));
                assert(false);
            } else if p == 52 {
                assert(!eq_ci(bp[52], 'c'));
                assert(!eq_ci(bp[52], 'v'));
                assert(false);
            } else if p == 53 {
                assert(!eq_ci(bp[53], 'c'));
                assert(!eq_ci(bp[53], 'v'));
                assert(false);
            } else if p == 54 {
                assert(!eq_ci(bp[54], 'c'));
                assert(!eq_ci(bp[54], 'v'));
                assert(false);
            } else if p == 55 {
                assert(!eq_ci(bp[55], 'c'));
                assert(!eq_ci(bp[55], 'v'));
                assert(false);
            } else if p == 56 {
                assert(!eq_ci(bp[56], 'c'));
                assert(!eq_ci(bp[56], 'v'));
                assert(false);
            } else if p == 57 {
                assert(!eq_ci(bp[57], 'c'));
                assert(!eq_ci(bp[57], 'v'));
                assert(false);
            } else if p == 58 {
                assert(!eq_ci(bp[58], 'c'));
                assert(!eq_ci(bp[58], 'v'));
                assert(false);
            } else if p == 59 {
                assert(!eq_ci(bp[59], 'c'));
                assert(!eq_ci(bp[59], 'v'));
                assert(false);
            } else if p == 60 {
                assert(!eq_ci(bp[60], 'c'));
                assert(!eq_ci(bp[60], 'v'));
                assert(false);
            } else if p == 61 {
                assert(!eq_ci(bp[61], 'c'));
                assert(!eq_ci(bp[61], 'v'));
                assert(false);
            } else if p == 62 {
                assert(!eq_ci(bp[62], 'c'));
                assert(!eq_ci(bp[62], 'v'));
                assert(false);
            } else {
                assert(false);
            }
        }
    }
}

/// The template's own assignment matches at its `const`, capturing `v`.
#[verifier::rlimit(100)]
proof fn lemma_template_match(v: Seq<char>)
    requires
        is_version_core(v),
    ensures
        assign_at(boilerplate(v), 63) == Some((80int, 80int, 80 + v.len() as int)),
        boilerplate(v).len() == 82 + v.len(),
        forall|j: int| 0 <= j < v.len() ==> boilerplate(v)[80 + j] == #[trigger] v[j],
{
    let pre = "package main\n\n// Version is the current version of the module.\nconst Version = \""@;
    let bp = boilerplate(v);
    let n = v.len() as int;
    reveal_strlit("package main\n\n// Version is the current version of the module.\nconst Version = \"");
    reveal_strlit("\"\n");
    reveal_strlit("const");
    reveal_strlit("var");
    reveal_strlit("version");
    assert(pre.len() == 80);
    assert(bp.len() == 82 + n);
    assert forall|j: int| 0 <= j < n implies bp[80 + j] == #[trigger] v[j] by {
        assert(bp[80 + j] == (pre + v)[80 + j]);
    }
    assert(bp[80 + n] == '"');
    crate::version::lemma_ver_core_embedded(bp, 80, v);
    crate::text::lemma_digit_end_chars(v, 0);
    assert(is_digit(v[0]));
    assert(bp[80] == v[0]);
    assert(!(bp[80] == 'v' || bp[80] == 'V'));
    assert(bp[63] == 'c');
    assert(bp[64] == 'o');
    assert(bp[65] == 'n');
    assert(bp[66] == 's');
    assert(bp[67] == 't');
    assert(bp[68] == ' ');
    assert(bp[69] == 'V');
    assert(bp[70] == 'e');
    assert(bp[71] == 'r');
    assert(bp[72] == 's');
    assert(bp[73] == 'i');
    assert(bp[74] == 'o');
    assert(bp[75] == 'n');
    assert(bp[76] == ' ');
    assert(bp[77] == '=');
    assert(bp[78] == ' ');
    assert(bp[79] == '"');
    assert(kw_ci_at(bp, 63, "const"@));
    assert(space_end(bp, 69) == 69);
    assert(space_end(bp, 68) == 69);
    assert(kw_ci_at(bp, 69, "version"@));
    assert(space_end(bp, 77) == 77);
    assert(space_end(bp, 76) == 77);
    assert(space_end(bp, 79) == 79);
    assert(space_end(bp, 78) == 79);
    assert(assign_at(bp, 63) == Some((80int, 80int, 80 + n)));
}

/// Writing a fresh version file and reading it back yields exactly the
/// written version: the created file's first assignment captures `v`.
pub proof fn lemma_round_trip_created(v: Seq<char>)
    requires
        is_version_core(v),
    ensures
        extract_version_spec(boilerplate(v)) == Some(v),
{
    let bp = boilerplate(v);
    let n = v.len() as int;
    lemma_template_no_early_match(v);
    lemma_template_match(v);
    crate::version::lemma_first_assign_skip(bp, 0, 63);
    assert(first_assign(bp, 63) == Some((80int, 80int, 80 + n)));
    assert forall|j: int| 0 <= j < n implies bp.subrange(80, 80 + n)[j] == v[j] by {
        assert(bp[80 + j] == v[j]);
    }
    assert(bp.subrange(80, 80 + n) =~= v);
}

/// Rewriting the file the writer itself created yields exactly the fresh
/// file for the new version, so the rewritten file reads back the new
/// version as well.
pub proof fn lemma_round_trip_rewritten(v1: Seq<char>, v2: Seq<char>)
    requires
        is_version_core(v1),
        is_version_core(v2),
    ensures
        update_content_spec(boilerplate(v1), v2) == boilerplate(v2),
        extract_version_spec(update_content_spec(boilerplate(v1), v2)) == Some(v2),
{
    let pre = "package main\n\n// Version is the current version of the module.\nconst Version = \""@;
    let suf = "\"\n"@;
    let bp1 = boilerplate(v1);
    let n1 = v1.len() as int;
    reveal_strlit("package main\n\n// Version is the current version of the module.\nconst Version = \"");
    reveal_strlit("\"\n");
    assert(pre.len() == 80);
    assert(suf.len() == 2);
    lemma_template_no_early_match(v1);
    lemma_template_match(v1);
    crate::version::lemma_first_assign_skip(bp1, 0, 63);
    assert(first_assign(bp1, 0) == Some((80int, 80int, 80 + n1)));
    let upd = update_content_spec(bp1, v2);
    assert(upd == bp1.subrange(0, 80) + v2 + bp1.subrange(80 + n1, bp1.len() as int));
    assert forall|j: int| 0 <= j < 80 implies bp1.subrange(0, 80)[j] == pre[j] by {
        assert(bp1[j] == ((pre + v1) + suf)[j]);
        assert(bp1[j] == pre[j]);
    }
    assert(bp1.subrange(0, 80) =~= pre);
    assert forall|j: int| 0 <= j < 2 implies bp1.subrange(80 + n1, bp1.len() as int)[j] == suf[j]
        by {
        assert(bp1[80 + n1 + j] == ((pre + v1) + suf)[80 + n1 + j]);
        assert(bp1[80 + n1 + j] == suf[j]);
    }
    assert(bp1.subrange(80 + n1, bp1.len() as int) =~= suf);
    assert(upd =~= pre + v2 + suf);
    assert(upd == boilerplate(v2));
    lemma_round_trip_created(v2);
}

} // verus!
