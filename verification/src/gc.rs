use crate::api::{
    avs, gc_dep, kept_prefix, names_contain, structural_dep_exec, Api, ApiV, Payload, PayloadV,
    TypeClass,
};
use crate::allocators::{alloc_name_exec, free_name_exec};
use crate::apivec::ApiVec;
use crate::casts::{downcast_name_exec, upcast_name_exec};
use crate::config::IncludeCppConfig;
use crate::name::QualifiedName;
use crate::reach::{
    closure_marks, em_of, init_set_of, lemma_reach_closed, lemma_reach_seed, lemma_reach_step,
    reach_set, reached,
};
use vstd::prelude::*;

verus! {

/// The root set of reachability pruning: records the caller's
/// allow-list names, plus records flagged always-keep.
pub open spec fn gc_root(s: Seq<ApiV>, cfg: &IncludeCppConfig, i: int) -> bool {
    cfg.allowlist_v().contains(s[i].name) || s[i].always_keep
}

pub open spec fn gc_edge(s: Seq<ApiV>, j: int, i: int) -> bool {
    gc_dep(s[j], s[i].name)
}

pub open spec fn gc_init(s: Seq<ApiV>, cfg: &IncludeCppConfig) -> Set<int> {
    Set::new(|i: int| 0 <= i < s.len() && gc_root(s, cfg, i))
}

pub open spec fn gc_em(s: Seq<ApiV>) -> Seq<Seq<bool>> {
    Seq::new(s.len(), |j: int| Seq::new(s.len(), |i: int| gc_edge(s, j, i)))
}

/// The record survives pruning: it lies in the least set containing
/// the roots and closed under following recorded edges forward.
pub open spec fn gc_reached(s: Seq<ApiV>, cfg: &IncludeCppConfig, i: int) -> bool {
    reached(gc_init(s, cfg), gc_em(s), i)
}

pub open spec fn gc_keep(s: Seq<ApiV>, cfg: &IncludeCppConfig) -> Seq<bool> {
    Seq::new(s.len(), |i: int| gc_reached(s, cfg, i))
}

/// Decide one recorded edge: a structural reference, a decorated
/// constructor dependency, the record's synthesized allocator pair, a
/// cast to one of its bases, or its synthesized wrapper.
fn gc_dep_exec(a: &Api, n: &QualifiedName) -> (r: bool)
    ensures
        r == gc_dep(a@, n@),
{
    if structural_dep_exec(a, n) {
        return true;
    }
    if names_contain(&a.ctor_deps, n) {
        return true;
    }
    match &a.payload {
        Payload::Record(d) => {
            let opaque = match &a.class {
                Some(TypeClass::Opaque) => true,
                _ => false,
            };
            if opaque {
                let an = alloc_name_exec(&a.name);
                let fnm = free_name_exec(&a.name);
                if an.eq_name(n) || fnm.eq_name(n) {
                    return true;
                }
            }
            let ghost dv = d@;
            let blen = d.bases.len();
            let mut b: usize = 0;
            while b < blen
                invariant
                    b <= blen,
                    dv == d@,
                    blen == dv.bases.len(),
                    forall|q: int|
                        0 <= q < b ==> !(n@ == crate::api::upcast_name_v(a@.name, #[trigger] dv.bases[q])
                            || n@ == crate::api::downcast_name_v(a@.name, dv.bases[q])),
                decreases blen - b,
            {
                proof {
                    assert(dv.bases[b as int] == d.bases@[b as int]@);
                }
                let un = upcast_name_exec(&a.name, &d.bases[b]);
                let dn = downcast_name_exec(&a.name, &d.bases[b]);
                if un.eq_name(n) || dn.eq_name(n) {
                    proof {
                        assert(n@ == crate::api::upcast_name_v(a@.name, dv.bases[b as int]) || n@
                            == crate::api::downcast_name_v(a@.name, dv.bases[b as int]));
                    }
                    return true;
                }
                b = b + 1;
            }
            false
        },
        Payload::Function(_) => {
            match &a.shape {
                Some(sh) => match &sh.wrapper {
                    Some(w) => w.eq_name(n),
                    None => false,
                },
                None => false,
            }
        },
        _ => false,
    }
}

/// Reachability pruning: keep exactly the records reachable from the
/// allow-list root set (plus always-keep records) by following every
/// recorded edge forward, in collection order.
pub fn filter_apis_by_following_edges_from_allowlist(apis: ApiVec, config: &IncludeCppConfig) -> (r:
    ApiVec)
    ensures
        avs(r@) == kept_prefix(avs(apis@), gc_keep(avs(apis@), config), avs(apis@).len() as int),
{
    let ghost s = avs(apis@);
    let ghost n = s.len() as int;
    let nn = apis.len();
    let mut init: Vec<bool> = Vec::new();
    let mut i: usize = 0;
    while i < nn
        invariant
            i <= nn,
            nn == s.len(),
            init@.len() == i,
            forall|p: int| 0 <= p < i ==> init@[p] == gc_root(s, config, p),
        decreases nn - i,
    {
        let a = apis.get(i);
        proof {
            assert(s[i as int] == apis@[i as int]@);
        }
        let root = config.is_on_allowlist(&a.name) || a.always_keep;
        init.push(root);
        i = i + 1;
    }
    let mut edges: Vec<Vec<bool>> = Vec::new();
    let mut j: usize = 0;
    while j < nn
        invariant
            j <= nn,
            nn == s.len(),
            edges@.len() == j,
            forall|p: int| 0 <= p < j ==> #[trigger] edges@[p]@.len() == nn,
            forall|p: int, q: int| 0 <= p < j && 0 <= q < nn ==> edges@[p]@[q] == gc_edge(s, p, q),
        decreases nn - j,
    {
        let mut row: Vec<bool> = Vec::new();
        let mut i2: usize = 0;
        while i2 < nn
            invariant
                i2 <= nn,
                nn == s.len(),
                j < nn,
                row@.len() == i2,
                forall|q: int| 0 <= q < i2 ==> row@[q] == gc_edge(s, j as int, q),
            decreases nn - i2,
        {
            let target = apis.get(i2).name.clone();
            proof {
                assert(s[i2 as int] == apis@[i2 as int]@);
                assert(target@ == s[i2 as int].name);
            }
            let e = gc_dep_exec(apis.get(j), &target);
            proof {
                assert(s[j as int] == apis@[j as int]@);
            }
            row.push(e);
            i2 = i2 + 1;
        }
        edges.push(row);
        j = j + 1;
    }
    proof {
        assert(init_set_of(init@) =~= gc_init(s, config));
        assert forall|p: int| 0 <= p < nn implies #[trigger] em_of(edges@)[p] == gc_em(s)[p] by {
            assert(em_of(edges@)[p] == edges@[p]@);
            assert(em_of(edges@)[p] =~= gc_em(s)[p]);
        }
        assert(em_of(edges@) =~= gc_em(s));
    }
    let marks = closure_marks(&init, &edges);
    let ghost keep = gc_keep(s, config);
    let mut rest = apis;
    let mut out = ApiVec::new();
    while rest.len() > 0
        invariant
            out@.len() + rest@.len() <= n,
            n == s.len(),
            n - rest@.len() >= 0,
            marks@.len() == n,
            forall|p: int| 0 <= p < n ==> marks@[p] == gc_reached(s, config, p),
            avs(rest@) == s.subrange(n - rest@.len(), n),
            avs(out@) == kept_prefix(s, keep, n - rest@.len()),
        decreases rest@.len(),
    {
        let ghost kk = n - rest@.len();
        let idx = nn - rest.len();
        let ghost prev_rest = rest@;
        let a = rest.remove_first();
        proof {
            assert(a@ == avs(prev_rest)[0]);
            assert(a@ == s[kk]);
            assert(avs(rest@) =~= s.subrange(kk + 1, n)) by {
                assert(forall|p: int|
                    0 <= p < rest@.len() ==> #[trigger] avs(rest@)[p] == avs(prev_rest)[p + 1]);
            }
        }
        let keep_it = marks[idx];
        proof {
            assert(keep_it == keep[kk]);
        }
        if keep_it {
            let ghost prev_out = out@;
            out.push(a);
            proof {
                assert(avs(out@) =~= avs(prev_out).push(a@));
            }
        }
        proof {
            assert(avs(out@) == kept_prefix(s, keep, kk + 1));
        }
    }
    out
}

/// Reachability soundness, first half: every record present in the
/// pruned collection came from a position reachable from the root set.
pub proof fn reachability_soundness(s: Seq<ApiV>, cfg: &IncludeCppConfig, out: Seq<ApiV>, p: int)
    requires
        out == kept_prefix(s, gc_keep(s, cfg), s.len() as int),
        0 <= p < out.len(),
    ensures
        exists|j: int| 0 <= j < s.len() && #[trigger] gc_reached(s, cfg, j) && s[j] == out[p],
{
    crate::api::lemma_kept_prefix_src(s, gc_keep(s, cfg), s.len() as int, p);
    let j = choose|j: int|
        0 <= j < s.len() as int && (#[trigger] gc_keep(s, cfg)[j]) && s[j] == kept_prefix(
            s,
            gc_keep(s, cfg),
            s.len() as int,
        )[p];
    assert(gc_reached(s, cfg, j) && s[j] == out[p]);
}

/// Reachability soundness, second half: no reachable record is absent
/// from the pruned collection.
pub proof fn reachability_completeness(s: Seq<ApiV>, cfg: &IncludeCppConfig, out: Seq<ApiV>, j: int)
    requires
        out == kept_prefix(s, gc_keep(s, cfg), s.len() as int),
        0 <= j < s.len(),
        gc_reached(s, cfg, j),
    ensures
        out.contains(s[j]),
{
    crate::api::lemma_kept_prefix_keeps(s, gc_keep(s, cfg), s.len() as int, j);
}

/// Roots are always retained, and following one recorded edge from a
/// retained record retains its target.
pub proof fn gc_reach_seed(s: Seq<ApiV>, cfg: &IncludeCppConfig, i: int)
    requires
        0 <= i < s.len(),
        gc_root(s, cfg, i),
    ensures
        gc_reached(s, cfg, i),
{
    lemma_reach_seed(gc_init(s, cfg), gc_em(s), i);
}

pub proof fn gc_reach_step(s: Seq<ApiV>, cfg: &IncludeCppConfig, j: int, i: int)
    requires
        0 <= j < s.len(),
        0 <= i < s.len(),
        gc_reached(s, cfg, j),
        gc_dep(s[j], s[i].name),
    ensures
        gc_reached(s, cfg, i),
{
    assert(gc_em(s)[j][i] == gc_edge(s, j, i));
    assert(gc_edge(s, j, i));
    lemma_reach_step(gc_init(s, cfg), gc_em(s), j, i);
}

} // verus!
