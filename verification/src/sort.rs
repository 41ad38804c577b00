//! Dependency-respecting ordering of a package set.
//!
//! Only entries resolved by the Go engine participate: each participating
//! entry's manifest is parsed (once, into a cache keyed by package name)
//! and a pairwise relation is derived — an entry comes after another when
//! its requirements name the other's module identity.  The set is then
//! reordered by a stable insertion sort over that pairwise relation, so
//! for directly related pairs the dependency comes first; entries of other
//! ecosystems compare equal to everything and keep their relative order.

use vstd::prelude::*;

use crate::config::{PackageConfig, PackageConfigV, ResolverType};
use crate::error::{ErrV, ResolveError};
use crate::manifest::{parse_go_mod, parse_go_mod_spec, GoMod, GoModV};
use crate::text::str_eq;

verus! {

/// The first manifest content recorded under `name`.
pub open spec fn manifest_lookup(ms: Seq<(Seq<char>, Seq<char>)>, name: Seq<char>) -> Option<
    Seq<char>,
>
    decreases ms.len(),
{
    if ms.len() == 0 {
        None
    } else if ms[0].0 == name {
        Some(ms[0].1)
    } else {
        manifest_lookup(ms.drop_first(), name)
    }
}

/// The manifest path label of a package entry.
pub open spec fn entry_mod_path(cfg: PackageConfigV) -> Seq<char> {
    cfg.path + "/go.mod"@
}

/// The first failure met while parsing the participating entries'
/// manifests, in entry order: a missing manifest, or a parse error.
pub open spec fn sort_error_spec(
    es: Seq<(Seq<char>, PackageConfigV)>,
    ms: Seq<(Seq<char>, Seq<char>)>,
) -> Option<ErrV>
    decreases es.len(),
{
    if es.len() == 0 {
        None
    } else {
        let h = es[0];
        if h.1.resolver is Go {
            match manifest_lookup(ms, h.0) {
                None => Some(ErrV::FileOrDirNotFound { path: entry_mod_path(h.1) }),
                Some(c) => match parse_go_mod_spec(c, entry_mod_path(h.1)) {
                    Err(e) => Some(e),
                    Ok(g) => sort_error_spec(es.drop_first(), ms),
                },
            }
        } else {
            sort_error_spec(es.drop_first(), ms)
        }
    }
}

/// The manifest cache: each participating entry's parsed manifest under
/// its package name, in entry order (entries whose manifest is missing or
/// malformed contribute nothing; the sort is not reached then).
pub open spec fn cache_spec(
    es: Seq<(Seq<char>, PackageConfigV)>,
    ms: Seq<(Seq<char>, Seq<char>)>,
) -> Seq<(Seq<char>, GoModV)>
    decreases es.len(),
{
    if es.len() == 0 {
        Seq::empty()
    } else {
        let h = es[0];
        let rest = cache_spec(es.drop_first(), ms);
        if h.1.resolver is Go {
            match manifest_lookup(ms, h.0) {
                None => rest,
                Some(c) => match parse_go_mod_spec(c, entry_mod_path(h.1)) {
                    Err(e) => rest,
                    Ok(g) => seq![(h.0, g)] + rest,
                },
            }
        } else {
            rest
        }
    }
}

/// The first cached manifest under `name`.
pub open spec fn name_lookup(cache: Seq<(Seq<char>, GoModV)>, name: Seq<char>) -> Option<GoModV>
    decreases cache.len(),
{
    if cache.len() == 0 {
        None
    } else if cache[0].0 == name {
        Some(cache[0].1)
    } else {
        name_lookup(cache.drop_first(), name)
    }
}

/// The name of the first cached package whose module identity is `module`.
pub open spec fn module_lookup(cache: Seq<(Seq<char>, GoModV)>, module: Seq<char>) -> Option<
    Seq<char>,
>
    decreases cache.len(),
{
    if cache.len() == 0 {
        None
    } else if cache[0].1.module == module {
        Some(cache[0].0)
    } else {
        module_lookup(cache.drop_first(), module)
    }
}

/// Some requirement among `reqs[i..]` names, via the cache, the package
/// named `bn`.
pub open spec fn req_hits(
    cache: Seq<(Seq<char>, GoModV)>,
    reqs: Seq<(Seq<char>, Seq<char>)>,
    i: int,
    bn: Seq<char>,
) -> bool
    decreases reqs.len() - i,
{
    if 0 <= i < reqs.len() {
        module_lookup(cache, reqs[i].0) == Some(bn) || req_hits(cache, reqs, i + 1, bn)
    } else {
        false
    }
}

/// Package `an` declares a requirement on the module identity of package
/// `bn`, as the cache records them.
pub open spec fn depends_on(
    an: Seq<char>,
    bn: Seq<char>,
    cache: Seq<(Seq<char>, GoModV)>,
) -> bool {
    match name_lookup(cache, an) {
        Some(g) => req_hits(cache, g.require, 0, bn),
        None => false,
    }
}

/// Entry `a` must come after entry `b`: both participate and `a` depends
/// on `b`.
pub open spec fn entry_gt(
    a: (Seq<char>, PackageConfigV),
    b: (Seq<char>, PackageConfigV),
    cache: Seq<(Seq<char>, GoModV)>,
) -> bool {
    a.1.resolver is Go && b.1.resolver is Go && depends_on(a.0, b.0, cache)
}

/// Stable insertion of `x` into `sorted`: `x` moves left past every entry
/// that must come after it.
pub open spec fn insert_spec(
    sorted: Seq<(Seq<char>, PackageConfigV)>,
    x: (Seq<char>, PackageConfigV),
    cache: Seq<(Seq<char>, GoModV)>,
) -> Seq<(Seq<char>, PackageConfigV)>
    decreases sorted.len(),
{
    if sorted.len() == 0 {
        seq![x]
    } else if entry_gt(sorted.last(), x, cache) {
        insert_spec(sorted.drop_last(), x, cache).push(sorted.last())
    } else {
        sorted.push(x)
    }
}

/// The package sequence after the stable insertion sort over the pairwise
/// relation.
pub open spec fn sort_spec(
    es: Seq<(Seq<char>, PackageConfigV)>,
    cache: Seq<(Seq<char>, GoModV)>,
) -> Seq<(Seq<char>, PackageConfigV)>
    decreases es.len(),
{
    if es.len() == 0 {
        Seq::empty()
    } else {
        insert_spec(sort_spec(es.drop_last(), cache), es.last(), cache)
    }
}

/// The whole contract of `sort_packages`: on the first manifest failure
/// that error is returned and the sequence is untouched; otherwise the
/// sequence is reordered by the insertion sort over the cached manifests.
pub open spec fn sort_packages_post(
    before: Seq<(Seq<char>, PackageConfigV)>,
    manifests: Seq<(Seq<char>, Seq<char>)>,
    after: Seq<(Seq<char>, PackageConfigV)>,
    err: Option<ErrV>,
) -> bool {
    match sort_error_spec(before, manifests) {
        Some(e) => err == Some(e) && after == before,
        None => err is None && after == sort_spec(before, cache_spec(before, manifests)),
    }
}

/// Where `x` lands: inserting at `pos` is the stable insertion when
/// everything at or right of `pos` must come after `x` and the entry just
/// left of `pos` (if any) need not.
proof fn lemma_insert_at(
    sorted: Seq<(Seq<char>, PackageConfigV)>,
    x: (Seq<char>, PackageConfigV),
    cache: Seq<(Seq<char>, GoModV)>,
    pos: int,
)
    requires
        0 <= pos <= sorted.len(),
        forall|k: int| pos <= k < sorted.len() ==> entry_gt(sorted[k], x, cache),
        pos > 0 ==> !entry_gt(sorted[pos - 1], x, cache),
    ensures
        insert_spec(sorted, x, cache) =~= sorted.subrange(0, pos) + seq![x] + sorted.subrange(
            pos,
            sorted.len() as int,
        ),
    decreases sorted.len(),
{
    if sorted.len() == 0 {
    } else if entry_gt(sorted.last(), x, cache) {
        assert(pos < sorted.len());
        lemma_insert_at(sorted.drop_last(), x, cache, pos);
        assert(insert_spec(sorted, x, cache) =~= sorted.subrange(0, pos) + seq![x]
            + sorted.subrange(pos, sorted.len() as int));
    } else {
        assert(pos == sorted.len());
    }
}

/// The first manifest entry whose name matches, as an index.
fn manifest_lookup_exec(ms: &Vec<(String, String)>, name: &str) -> (r: Option<usize>)
    ensures
        match r {
            Some(ix) => ix < ms.len() && manifest_lookup(ms.deep_view(), name@) == Some(
                ms.deep_view()[ix as int].1,
            ),
            None => manifest_lookup(ms.deep_view(), name@) is None,
        },
{
    let ghost mv = ms.deep_view();
    let mut i: usize = 0;
    proof {
        assert(mv.len() == ms@.len());
        assert(mv.skip(0) =~= mv);
    }
    while i < ms.len()
        invariant
            i <= ms.len(),
            mv == ms.deep_view(),
            mv.len() == ms@.len(),
            manifest_lookup(mv, name@) == manifest_lookup(mv.skip(i as int), name@),
        decreases ms.len() - i,
    {
        proof {
            assert(ms@[i as int].deep_view() == mv[i as int]);
            assert(mv.skip(i as int)[0] == mv[i as int]);
        }
        if str_eq(ms[i].0.as_str(), name) {
            return Some(i);
        }
        proof {
            assert(mv.skip(i as int).drop_first() =~= mv.skip(i + 1));
        }
        i = i + 1;
    }
    proof {
        assert(mv.skip(i as int).len() == 0);
    }
    None
}

/// The first cached entry whose name matches, as an index.
fn name_lookup_exec(cache: &Vec<(String, GoMod)>, name: &str) -> (r: Option<usize>)
    ensures
        match r {
            Some(ix) => ix < cache.len() && name_lookup(cache.deep_view(), name@) == Some(
                cache.deep_view()[ix as int].1,
            ),
            None => name_lookup(cache.deep_view(), name@) is None,
        },
{
    let ghost cv = cache.deep_view();
    let mut i: usize = 0;
    proof {
        assert(cv.len() == cache@.len());
        assert(cv.skip(0) =~= cv);
    }
    while i < cache.len()
        invariant
            i <= cache.len(),
            cv == cache.deep_view(),
            cv.len() == cache@.len(),
            name_lookup(cv, name@) == name_lookup(cv.skip(i as int), name@),
        decreases cache.len() - i,
    {
        proof {
            assert(cache@[i as int].deep_view() == cv[i as int]);
            assert(cv.skip(i as int)[0] == cv[i as int]);
        }
        if str_eq(cache[i].0.as_str(), name) {
            return Some(i);
        }
        proof {
            assert(cv.skip(i as int).drop_first() =~= cv.skip(i + 1));
        }
        i = i + 1;
    }
    proof {
        assert(cv.skip(i as int).len() == 0);
    }
    None
}

/// The first cached entry whose module identity matches, as an index.
fn module_lookup_exec(cache: &Vec<(String, GoMod)>, module: &str) -> (r: Option<usize>)
    ensures
        match r {
            Some(ix) => ix < cache.len() && module_lookup(cache.deep_view(), module@) == Some(
                cache.deep_view()[ix as int].0,
            ),
            None => module_lookup(cache.deep_view(), module@) is None,
        },
{
    let ghost cv = cache.deep_view();
    let mut i: usize = 0;
    proof {
        assert(cv.len() == cache@.len());
        assert(cv.skip(0) =~= cv);
    }
    while i < cache.len()
        invariant
            i <= cache.len(),
            cv == cache.deep_view(),
            cv.len() == cache@.len(),
            module_lookup(cv, module@) == module_lookup(cv.skip(i as int), module@),
        decreases cache.len() - i,
    {
        proof {
            assert(cache@[i as int].deep_view() == cv[i as int]);
            assert(cv.skip(i as int)[0] == cv[i as int]);
        }
        if str_eq(cache[i].1.module.as_str(), module) {
            return Some(i);
        }
        proof {
            assert(cv.skip(i as int).drop_first() =~= cv.skip(i + 1));
        }
        i = i + 1;
    }
    proof {
        assert(cv.skip(i as int).len() == 0);
    }
    None
}

/// Whether entry `a` must come after entry `b`.
fn entry_gt_exec(
    a: &(String, PackageConfig),
    b: &(String, PackageConfig),
    cache: &Vec<(String, GoMod)>,
) -> (r: bool)
    ensures
        r == entry_gt(a.deep_view(), b.deep_view(), cache.deep_view()),
{
    let ghost cv = cache.deep_view();
    if !(a.1.resolver == ResolverType::Go && b.1.resolver == ResolverType::Go) {
        return false;
    }
    proof {
        assert(a.deep_view().1.resolver is Go);
        assert(b.deep_view().1.resolver is Go);
    }
    let g_ix = match name_lookup_exec(cache, a.0.as_str()) {
        Some(ix) => ix,
        None => {
            return false;
        },
    };
    let g = &cache[g_ix].1;
    let ghost gv = name_lookup(cv, a.0@)->0;
    proof {
        assert(cache@[g_ix as int].deep_view() == cv[g_ix as int]);
        assert(g.deep_view() == gv);
    }
    let mut k: usize = 0;
    while k < g.require.len()
        invariant
            k <= g.require.len(),
            cv == cache.deep_view(),
            g.deep_view() == gv,
            gv.require.len() == g.require@.len(),
            a.deep_view().1.resolver is Go,
            b.deep_view().1.resolver is Go,
            name_lookup(cv, a.deep_view().0) == Some(gv),
            req_hits(cv, gv.require, 0, b.deep_view().0) == req_hits(
                cv,
                gv.require,
                k as int,
                b.deep_view().0,
            ),
        decreases g.require.len() - k,
    {
        proof {
            assert(g.require@[k as int].deep_view() == gv.require[k as int]);
        }
        match module_lookup_exec(cache, g.require[k].path.as_str()) {
            Some(ix) => {
                proof {
                    assert(cache@[ix as int].deep_view() == cv[ix as int]);
                }
                if str_eq(cache[ix].0.as_str(), b.0.as_str()) {
                    proof {
                        assert(module_lookup(cv, gv.require[k as int].0) == Some(
                            b.deep_view().0,
                        ));
                        assert(req_hits(cv, gv.require, k as int, b.deep_view().0));
                        assert(depends_on(a.deep_view().0, b.deep_view().0, cv));
                        assert(entry_gt(a.deep_view(), b.deep_view(), cache.deep_view()));
                    }
                    return true;
                }
                proof {
                    assert(module_lookup(cv, gv.require[k as int].0) != Some(b.deep_view().0));
                    assert(req_hits(cv, gv.require, k as int, b.deep_view().0) == req_hits(
                        cv,
                        gv.require,
                        k + 1,
                        b.deep_view().0,
                    ));
                }
            },
            None => {
                proof {
                    assert(module_lookup(cv, gv.require[k as int].0) != Some(b.deep_view().0));
                    assert(req_hits(cv, gv.require, k as int, b.deep_view().0) == req_hits(
                        cv,
                        gv.require,
                        k + 1,
                        b.deep_view().0,
                    ));
                }
            },
        }
        k = k + 1;
    }
    proof {
        assert(!req_hits(cv, gv.require, k as int, b.deep_view().0));
        assert(!depends_on(a.deep_view().0, b.deep_view().0, cv));
    }
    false
}

/// Reorder `packages` so that, for every directly related pair of Go
/// entries, the dependency comes before the dependent.  `manifests` holds
/// each Go entry's manifest content under its package name; a missing or
/// malformed manifest is the error of the whole call and the sequence is
/// left untouched.
pub fn sort_go_packages(
    packages: &mut Vec<(String, PackageConfig)>,
    manifests: &Vec<(String, String)>,
) -> (r: Result<(), ResolveError>)
    ensures
        sort_packages_post(
            old(packages).deep_view(),
            manifests.deep_view(),
            final(packages).deep_view(),
            match r {
                Ok(u) => None,
                Err(e) => Some(e@),
            },
        ),
{
    let ghost es = packages.deep_view();
    let ghost mv = manifests.deep_view();
    let mut cache: Vec<(String, GoMod)> = Vec::new();
    let mut i: usize = 0;
    proof {
        assert(es.len() == packages@.len());
        assert(es.skip(0) =~= es);
        assert(cache.deep_view() =~= Seq::<(Seq<char>, GoModV)>::empty());
        assert(cache.deep_view() + cache_spec(es, mv) =~= cache_spec(es, mv));
    }
    while i < packages.len()
        invariant
            i <= packages.len(),
            es == packages.deep_view(),
            es.len() == packages@.len(),
            mv == manifests.deep_view(),
            sort_error_spec(es, mv) == sort_error_spec(es.skip(i as int), mv),
            cache.deep_view() + cache_spec(es.skip(i as int), mv) =~= cache_spec(es, mv),
        decreases packages.len() - i,
    {
        let ghost rest = es.skip(i as int);
        proof {
            assert(packages@[i as int].deep_view() == es[i as int]);
            assert(rest[0] == es[i as int]);
            assert(rest.drop_first() =~= es.skip(i + 1));
        }
        let is_go = matches!(packages[i].1.resolver, ResolverType::Go);
        if is_go {
            let mod_path = packages[i].1.path.clone().concat("/go.mod");
            proof {
                assert(mod_path@ == entry_mod_path(es[i as int].1));
            }
            let m_ix = match manifest_lookup_exec(manifests, packages[i].0.as_str()) {
                Some(ix) => ix,
                None => {
                    return Err(ResolveError::FileOrDirNotFound { path: mod_path });
                },
            };
            proof {
                assert(manifests@[m_ix as int].deep_view() == mv[m_ix as int]);
            }
            let gm = match parse_go_mod(manifests[m_ix].1.as_str(), mod_path.as_str()) {
                Ok(gm) => gm,
                Err(e) => {
                    return Err(e);
                },
            };
            let name = packages[i].0.clone();
            let ghost old_cache = cache.deep_view();
            cache.push((name, gm));
            proof {
                assert(cache.deep_view() =~= old_cache.push(
                    (es[i as int].0, parse_go_mod_spec(mv[m_ix as int].1, mod_path@)->Ok_0),
                ));
                assert(cache.deep_view() + cache_spec(es.skip(i + 1), mv) =~= cache_spec(es, mv));
            }
        }
        i = i + 1;
    }
    proof {
        assert(sort_error_spec(es.skip(i as int), mv) is None);
        assert(cache_spec(es.skip(i as int), mv) =~= Seq::<(Seq<char>, GoModV)>::empty());
        assert(cache.deep_view() =~= cache_spec(es, mv));
    }
    let ghost cachev = cache.deep_view();
    let mut out: Vec<(String, PackageConfig)> = Vec::new();
    let mut j: usize = 0;
    let n = packages.len();
    proof {
        assert(out.deep_view() =~= sort_spec(es.subrange(0, 0), cachev));
    }
    while j < n
        invariant
            j <= n,
            n == packages.len(),
            es == packages.deep_view(),
            es.len() == packages@.len(),
            cachev == cache.deep_view(),
            out.deep_view() =~= sort_spec(es.subrange(0, j as int), cachev),
            out.len() == j,
        decreases n - j,
    {
        proof {
            assert(packages@[j as int].deep_view() == es[j as int]);
        }
        let x = clone_entry(&packages[j]);
        let mut pos: usize = out.len();
        while pos > 0 && entry_gt_exec(&out[pos - 1], &x, &cache)
            invariant
                pos <= out.len(),
                cachev == cache.deep_view(),
                x.deep_view() == es[j as int],
                out.len() == j,
                j < es.len(),
                forall|k: int|
                    pos <= k < out.len() ==> entry_gt(
                        #[trigger] out.deep_view()[k],
                        es[j as int],
                        cachev,
                    ),
            decreases pos,
        {
            proof {
                assert(out@[pos - 1].deep_view() == out.deep_view()[pos - 1]);
            }
            pos = pos - 1;
        }
        proof {
            if pos > 0 {
                assert(out@[pos - 1].deep_view() == out.deep_view()[pos - 1]);
            }
            lemma_insert_at(out.deep_view(), es[j as int], cachev, pos as int);
        }
        let ghost old_out = out.deep_view();
        out.insert(pos, x);
        proof {
            assert(out.deep_view() =~= old_out.insert(pos as int, es[j as int]));
            assert(out.deep_view() =~= old_out.subrange(0, pos as int) + seq![es[j as int]]
                + old_out.subrange(pos as int, old_out.len() as int));
            assert(es.subrange(0, j + 1).drop_last() =~= es.subrange(0, j as int));
            assert(es.subrange(0, j + 1).last() == es[j as int]);
            assert(out.deep_view() =~= insert_spec(old_out, es[j as int], cachev));
        }
        j = j + 1;
    }
    proof {
        assert(es.subrange(0, n as int) =~= es);
        assert(out.deep_view() =~= sort_spec(es, cachev));
    }
    *packages = out;
    Ok(())
}

/// A deep copy of one package entry.
fn clone_entry(e: &(String, PackageConfig)) -> (r: (String, PackageConfig))
    ensures
        r.deep_view() == e.deep_view(),
{
    let mut assets: Vec<String> = Vec::new();
    let mut i: usize = 0;
    while i < e.1.assets.len()
        invariant
            i <= e.1.assets.len(),
            assets.deep_view() =~= e.1.assets.deep_view().take(i as int),
        decreases e.1.assets.len() - i,
    {
        let ghost old_deep = assets.deep_view();
        assets.push(e.1.assets[i].clone());
        proof {
            assert(assets.deep_view() =~= old_deep.push(e.1.assets@[i as int]@));
            assert(assets.deep_view() =~= e.1.assets.deep_view().take(i + 1));
        }
        i = i + 1;
    }
    proof {
        assert(assets.deep_view() =~= e.1.assets.deep_view());
    }
    let cfg = PackageConfig {
        path: e.1.path.clone(),
        resolver: e.1.resolver,
        version_mode: e.1.version_mode,
        assets,
    };
    let r = (e.0.clone(), cfg);
    proof {
        assert(r.deep_view().1 == e.deep_view().1);
    }
    r
}

} // verus!
