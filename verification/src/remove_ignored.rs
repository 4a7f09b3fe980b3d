use crate::api::{avs, kept_prefix, reason_is_silent, structural_dep, structural_dep_exec, ApiV};
use crate::apivec::ApiVec;
use crate::reach::{
    closure_marks, em_of, init_set_of, lemma_reach_closed, lemma_reach_seed, lemma_reach_step,
    reach_set, reached,
};
use vstd::prelude::*;

verus! {

/// A record already marked unsupported for a reportable reason: the
/// seeds of the removal cascade.
pub open spec fn cascade_seed(s: Seq<ApiV>, i: int) -> bool {
    match s[i].ignored {
        Some(re) => !reason_is_silent(re),
        None => false,
    }
}

/// Removal spreads from a removed record to everything that
/// structurally depends on it (field, parameter, return, base,
/// typedef target, callee, cast end, allocator subject).
pub open spec fn cascade_edge(s: Seq<ApiV>, j: int, i: int) -> bool {
    structural_dep(s[i], s[j].name)
}

pub open spec fn cascade_init(s: Seq<ApiV>) -> Set<int> {
    Set::new(|i: int| 0 <= i < s.len() && cascade_seed(s, i))
}

pub open spec fn cascade_em(s: Seq<ApiV>) -> Seq<Seq<bool>> {
    Seq::new(s.len(), |j: int| Seq::new(s.len(), |i: int| cascade_edge(s, j, i)))
}

/// The record falls to the cascade: it is in the least set containing
/// the unsupported records and closed under structural dependence.
pub open spec fn cascade_removed(s: Seq<ApiV>, i: int) -> bool {
    reached(cascade_init(s), cascade_em(s), i)
}

pub open spec fn cascade_keep(s: Seq<ApiV>) -> Seq<bool> {
    Seq::new(s.len(), |i: int| !cascade_removed(s, i))
}

/// The ignored-dependent cascade: drop every record marked unsupported
/// for a reportable reason and, to a fixed point, every record
/// structurally depending on a dropped one; everything else survives,
/// in collection order. Per-item failures never abort the run.
pub fn filter_apis_by_ignored_dependents(apis: ApiVec) -> (r: ApiVec)
    ensures
        avs(r@) == kept_prefix(avs(apis@), cascade_keep(avs(apis@)), avs(apis@).len() as int),
{
    let ghost s = avs(apis@);
    let ghost n = s.len() as int;
    let nn = apis.len();
    let mut init: Vec<bool> = Vec::new();
    let mut i: usize = 0;
    while i < nn
        invariant
            i <= nn,
            nn == s.len(),
            init@.len() == i,
            forall|p: int| 0 <= p < i ==> init@[p] == cascade_seed(s, p),
        decreases nn - i,
    {
        let a = apis.get(i);
        proof {
            assert(s[i as int] == apis@[i as int]@);
        }
        let seed = match &a.ignored {
            Some(re) => match re {
                crate::api::IgnoreReason::AbstractMemberDiscarded => false,
                _ => true,
            },
            None => false,
        };
        init.push(seed);
        i = i + 1;
    }
    let mut edges: Vec<Vec<bool>> = Vec::new();
    let mut j: usize = 0;
    while j < nn
        invariant
            j <= nn,
            nn == s.len(),
            edges@.len() == j,
            forall|p: int| 0 <= p < j ==> #[trigger] edges@[p]@.len() == nn,
            forall|p: int, q: int|
                0 <= p < j && 0 <= q < nn ==> edges@[p]@[q] == cascade_edge(s, p, q),
        decreases nn - j,
    {
        let jn = apis.get(j).name.clone();
        proof {
            assert(s[j as int] == apis@[j as int]@);
            assert(jn@ == s[j as int].name);
        }
        let mut row: Vec<bool> = Vec::new();
        let mut i2: usize = 0;
        while i2 < nn
            invariant
                i2 <= nn,
                nn == s.len(),
                j < nn,
                jn@ == s[j as int].name,
                row@.len() == i2,
                forall|q: int| 0 <= q < i2 ==> row@[q] == cascade_edge(s, j as int, q),
            decreases nn - i2,
        {
            let e = structural_dep_exec(apis.get(i2), &jn);
            proof {
                assert(s[i2 as int] == apis@[i2 as int]@);
            }
            row.push(e);
            i2 = i2 + 1;
        }
        edges.push(row);
        j = j + 1;
    }
    proof {
        assert(init_set_of(init@) =~= cascade_init(s));
        assert forall|p: int| 0 <= p < nn implies #[trigger] em_of(edges@)[p] == cascade_em(s)[p] by {
            assert(em_of(edges@)[p] == edges@[p]@);
            assert(em_of(edges@)[p] =~= cascade_em(s)[p]);
        }
        assert(em_of(edges@) =~= cascade_em(s));
    }
    let marks = closure_marks(&init, &edges);
    let ghost keep = cascade_keep(s);
    let mut rest = apis;
    let mut out = ApiVec::new();
    while rest.len() > 0
        invariant
            n == out@.len() + rest@.len() + (n - out@.len() - rest@.len()),
            out@.len() + rest@.len() <= n,
            n == s.len(),
            n - rest@.len() >= 0,
            marks@.len() == n,
            forall|p: int| 0 <= p < n ==> marks@[p] == cascade_removed(s, p),
            avs(rest@) == s.subrange(n - rest@.len(), n),
            avs(out@) == kept_prefix(s, keep, n - rest@.len()),
        decreases rest@.len(),
    {
        let ghost kk = n - rest@.len();
        let idx = nn - rest.len();
        let ghost prev_rest = rest@;
        let a = rest.remove_first();
        proof {
            assert(a@ == avs(prev_rest)[0]);
            assert(a@ == s[kk]);
            assert(avs(rest@) =~= s.subrange(kk + 1, n)) by {
                assert(forall|p: int|
                    0 <= p < rest@.len() ==> #[trigger] avs(rest@)[p] == avs(prev_rest)[p + 1]);
            }
        }
        let keep_it = !marks[idx];
        proof {
            assert(keep_it == keep[kk]);
        }
        if keep_it {
            let ghost prev_out = out@;
            out.push(a);
            proof {
                assert(avs(out@) =~= avs(prev_out).push(a@));
            }
        }
        proof {
            assert(avs(out@) == kept_prefix(s, keep, kk + 1));
        }
    }
    out
}

/// Cascade closure, one step: whatever structurally depends on a
/// removed record is itself removed.
pub proof fn cascade_closure_step(s: Seq<ApiV>, j: int, i: int)
    requires
        0 <= j < s.len(),
        0 <= i < s.len(),
        cascade_removed(s, j),
        structural_dep(s[i], s[j].name),
    ensures
        cascade_removed(s, i),
{
    assert(cascade_em(s)[j][i] == cascade_edge(s, j, i));
    assert(cascade_edge(s, j, i));
    lemma_reach_step(cascade_init(s), cascade_em(s), j, i);
}

/// Unsupported records seed their own removal.
pub proof fn cascade_seed_removed(s: Seq<ApiV>, i: int)
    requires
        0 <= i < s.len(),
        cascade_seed(s, i),
    ensures
        cascade_removed(s, i),
{
    lemma_reach_seed(cascade_init(s), cascade_em(s), i);
}

/// Cascade minimality: any set of survivors that excludes the
/// unsupported records and never keeps a dependent of an excluded
/// record excludes everything the cascade removes — no record that
/// depends on no removed record is removed.
pub proof fn cascade_least(s: Seq<ApiV>, excluded: Seq<bool>)
    requires
        excluded.len() == s.len(),
        forall|p: int| 0 <= p < s.len() && cascade_seed(s, p) ==> excluded[p],
        forall|p: int, q: int|
            0 <= p < s.len() && 0 <= q < s.len() && excluded[p] && structural_dep(
                #[trigger] s[q],
                (#[trigger] s[p]).name,
            ) ==> excluded[q],
    ensures
        forall|i: int| 0 <= i < s.len() && #[trigger] cascade_removed(s, i) ==> excluded[i],
{
    assert forall|i: int|
        0 <= i < s.len() && #[trigger] cascade_removed(s, i) implies excluded[i] by {
        let k = choose|k: nat| reach_set(cascade_init(s), cascade_em(s), k).contains(i);
        assert forall|p: int, q: int|
            0 <= p < cascade_em(s).len() && 0 <= q < cascade_em(s).len() && excluded[p]
                && #[trigger] cascade_em(s)[p][q] implies excluded[q] by {
            assert(cascade_em(s)[p][q] == cascade_edge(s, p, q));
        }
        lemma_reach_closed(cascade_init(s), cascade_em(s), excluded, k);
    }
}

} // verus!
