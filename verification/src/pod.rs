use crate::api::{avs, Api, ApiV, IgnoreReason, Payload, PayloadV, TypeClass, TypeRefV, TypeShape};
use crate::apivec::ApiVec;
use crate::config::{IncludeCppConfig, ParseCallbackResults};
use crate::name::QualifiedName;
use crate::reach::{closure_marks, em_of, init_set_of, lemma_reach_step, reached};
use vstd::prelude::*;

verus! {

/// The records value-semantics analysis classifies: record-types and
/// typedefs (a typedef is as POD as its target).
pub open spec fn is_pod_node(a: ApiV) -> bool {
    a.payload is Record || a.payload is Typedef
}

/// The type mentions of a record that must themselves be POD for the
/// record to be POD: its fields, or a typedef's target.
pub open spec fn byvalue_fields(a: ApiV) -> Seq<TypeRefV> {
    match a.payload {
        PayloadV::Record(d) => d.fields,
        PayloadV::Typedef(t) => seq![t],
        _ => Seq::empty(),
    }
}

/// The name `n` refers to some type record of the snapshot.
pub open spec fn names_a_type(s: Seq<ApiV>, n: Seq<char>) -> bool {
    exists|j: int|
        0 <= j < s.len() && #[trigger] s[j].name == n && (s[j].payload is Record
            || s[j].payload is Typedef || s[j].payload is EnumDecl)
}

/// The record holds `n` by value in one of its fields.
pub open spec fn byvalue_uses(a: ApiV, n: Seq<char>) -> bool {
    exists|f: int|
        0 <= f < byvalue_fields(a).len() && (#[trigger] byvalue_fields(a)[f].shape) is Value
            && !byvalue_fields(a)[f].primitive && byvalue_fields(a)[f].name == n
}

/// A record is directly disqualified from POD-ness when the parser
/// reported a user-declared special member forbidding trivial copy, or
/// when it holds by value a non-primitive type the snapshot does not
/// even contain.
pub open spec fn pod_seed(s: Seq<ApiV>, cb: &ParseCallbackResults, i: int) -> bool {
    is_pod_node(s[i]) && ((s[i].payload is Record && cb.forbids_trivial_copy_v(s[i].name)) || (
    exists|f: int|
        0 <= f < byvalue_fields(s[i]).len() && (#[trigger] byvalue_fields(s[i])[f].shape) is Value
            && !byvalue_fields(s[i])[f].primitive && !names_a_type(
            s,
            byvalue_fields(s[i])[f].name,
        )))
}

/// Opaqueness propagates from a type to every record holding it by
/// value.
pub open spec fn pod_edge(s: Seq<ApiV>, j: int, i: int) -> bool {
    is_pod_node(s[j]) && is_pod_node(s[i]) && byvalue_uses(s[i], s[j].name)
}

pub open spec fn pod_init(s: Seq<ApiV>, cb: &ParseCallbackResults) -> Set<int> {
    Set::new(|i: int| 0 <= i < s.len() && pod_seed(s, cb, i))
}

pub open spec fn pod_em(s: Seq<ApiV>) -> Seq<Seq<bool>> {
    Seq::new(s.len(), |j: int| Seq::new(s.len(), |i: int| pod_edge(s, j, i)))
}

/// The classification itself: a record is opaque exactly when a chain
/// of by-value containment connects it to a directly disqualified
/// record; otherwise it is POD.
pub open spec fn pod_opaque(s: Seq<ApiV>, cb: &ParseCallbackResults, i: int) -> bool {
    reached(pod_init(s, cb), pod_em(s), i)
}

/// What the analysis does to one record: classify the POD nodes, leave
/// everything else untouched, and mark a record unsupported when the
/// caller requested POD treatment that the type cannot satisfy.
pub open spec fn pod_annotated(
    s: Seq<ApiV>,
    cb: &ParseCallbackResults,
    cfg: &IncludeCppConfig,
    i: int,
) -> ApiV {
    let a = s[i];
    if is_pod_node(a) {
        let cls = if pod_opaque(s, cb, i) {
            TypeClass::Opaque
        } else {
            TypeClass::Pod
        };
        let ign = if a.payload is Record && cfg.pod_requests_v().contains(a.name) && pod_opaque(
            s,
            cb,
            i,
        ) && a.ignored is None {
            Some(IgnoreReason::PodRequestedForNonPod)
        } else {
            a.ignored
        };
        ApiV {
            name: a.name,
            cpp_name: a.cpp_name,
            payload: a.payload,
            class: Some(cls),
            shape: a.shape,
            ctor_deps: a.ctor_deps,
            ignored: ign,
            always_keep: a.always_keep,
        }
    } else {
        a
    }
}

/// Does any type record of the snapshot carry this name?
pub fn names_a_type_exec(apis: &ApiVec, n: &QualifiedName) -> (r: bool)
    ensures
        r == names_a_type(avs(apis@), n@),
{
    let ghost s = avs(apis@);
    let len = apis.len();
    let mut j: usize = 0;
    while j < len
        invariant
            j <= len,
            forall|p: int|
                0 <= p < j ==> !(#[trigger] s[p].name == n@ && (s[p].payload is Record
                    || s[p].payload is Typedef || s[p].payload is EnumDecl)),
        decreases len - j,
    {
        let a = apis.get(j);
        let is_type = match &a.payload {
            Payload::Record(_) => true,
            Payload::Typedef(_) => true,
            Payload::EnumDecl => true,
            _ => false,
        };
        if is_type && a.name.eq_name(n) {
            proof {
                assert(s[j as int] == apis@[j as int]@);
                assert(s[j as int].name == n@);
            }
            return true;
        }
        proof {
            assert(s[j as int] == apis@[j as int]@);
        }
        j = j + 1;
    }
    false
}

/// Does this record hold any by-value non-primitive field that either
/// matches `target` (when `Some`) or names no type of the snapshot
/// (when `None`)?
fn byvalue_uses_exec(a: &Api, n: &QualifiedName) -> (r: bool)
    ensures
        r == byvalue_uses(a@, n@),
{
    match &a.payload {
        Payload::Record(d) => {
            let len = d.fields.len();
            let mut f: usize = 0;
            while f < len
                invariant
                    f <= len,
                    len == d.fields@.len(),
                    byvalue_fields(a@) == d@.fields,
                    forall|p: int|
                        0 <= p < f ==> !((#[trigger] byvalue_fields(a@)[p].shape) is Value
                            && !byvalue_fields(a@)[p].primitive && byvalue_fields(a@)[p].name
                            == n@),
                decreases len - f,
            {
                let fld = &d.fields[f];
                let by_value = match fld.shape {
                    TypeShape::Value => true,
                    _ => false,
                };
                if by_value && !fld.primitive && fld.name.eq_name(n) {
                    proof {
                        assert(byvalue_fields(a@)[f as int] == d.fields@[f as int]@);
                        assert((byvalue_fields(a@)[f as int].shape) is Value && !byvalue_fields(
                            a@,
                        )[f as int].primitive && byvalue_fields(a@)[f as int].name == n@);
                    }
                    return true;
                }
                proof {
                    assert(byvalue_fields(a@)[f as int] == d.fields@[f as int]@);
                }
                f = f + 1;
            }
            false
        },
        Payload::Typedef(t) => {
            let by_value = match t.shape {
                TypeShape::Value => true,
                _ => false,
            };
            proof {
                assert(byvalue_fields(a@) =~= seq![t@]);
                assert(byvalue_fields(a@)[0] == t@);
                assert(byvalue_fields(a@).len() == 1);
            }
            if by_value && !t.primitive && t.name.eq_name(n) {
                proof {
                    assert((byvalue_fields(a@)[0].shape) is Value && !byvalue_fields(
                        a@,
                    )[0].primitive && byvalue_fields(a@)[0].name == n@);
                }
                true
            } else {
                false
            }
        },
        _ => {
            proof {
                assert(byvalue_fields(a@).len() == 0);
            }
            false
        },
    }
}

/// Does this record hold by value some non-primitive type that the
/// snapshot does not contain at all?
fn has_unresolvable_byvalue(apis: &ApiVec, a: &Api) -> (r: bool)
    ensures
        r == (exists|f: int|
            0 <= f < byvalue_fields(a@).len() && (#[trigger] byvalue_fields(a@)[f].shape) is Value
                && !byvalue_fields(a@)[f].primitive && !names_a_type(
                avs(apis@),
                byvalue_fields(a@)[f].name,
            )),
{
    match &a.payload {
        Payload::Record(d) => {
            let len = d.fields.len();
            let mut f: usize = 0;
            while f < len
                invariant
                    f <= len,
                    len == d.fields@.len(),
                    byvalue_fields(a@) == d@.fields,
                    forall|p: int|
                        0 <= p < f ==> !((#[trigger] byvalue_fields(a@)[p].shape) is Value
                            && !byvalue_fields(a@)[p].primitive && !names_a_type(
                            avs(apis@),
                            byvalue_fields(a@)[p].name,
                        )),
                decreases len - f,
            {
                let fld = &d.fields[f];
                let by_value = match fld.shape {
                    TypeShape::Value => true,
                    _ => false,
                };
                if by_value && !fld.primitive && !names_a_type_exec(apis, &fld.name) {
                    proof {
                        assert(byvalue_fields(a@)[f as int] == d.fields@[f as int]@);
                        assert((byvalue_fields(a@)[f as int].shape) is Value && !byvalue_fields(
                            a@,
                        )[f as int].primitive && !names_a_type(
                            avs(apis@),
                            byvalue_fields(a@)[f as int].name,
                        ));
                    }
                    return true;
                }
                proof {
                    assert(byvalue_fields(a@)[f as int] == d.fields@[f as int]@);
                }
                f = f + 1;
            }
            false
        },
        Payload::Typedef(t) => {
            let by_value = match t.shape {
                TypeShape::Value => true,
                _ => false,
            };
            proof {
                assert(byvalue_fields(a@) =~= seq![t@]);
                assert(byvalue_fields(a@)[0] == t@);
                assert(byvalue_fields(a@).len() == 1);
            }
            if by_value && !t.primitive && !names_a_type_exec(apis, &t.name) {
                proof {
                    assert((byvalue_fields(a@)[0].shape) is Value && !byvalue_fields(
                        a@,
                    )[0].primitive && !names_a_type(avs(apis@), byvalue_fields(a@)[0].name));
                }
                true
            } else {
                false
            }
        },
        _ => {
            proof {
                assert(byvalue_fields(a@).len() == 0);
            }
            false
        },
    }
}

fn is_pod_node_exec(a: &Api) -> (r: bool)
    ensures
        r == is_pod_node(a@),
{
    match &a.payload {
        Payload::Record(_) => true,
        Payload::Typedef(_) => true,
        _ => false,
    }
}

fn pod_seed_exec(apis: &ApiVec, cb: &ParseCallbackResults, i: usize) -> (r: bool)
    requires
        i < apis@.len(),
    ensures
        r == pod_seed(avs(apis@), cb, i as int),
{
    let a = apis.get(i);
    proof {
        assert(avs(apis@)[i as int] == apis@[i as int]@);
    }
    if !is_pod_node_exec(a) {
        return false;
    }
    let is_rec = match &a.payload {
        Payload::Record(_) => true,
        _ => false,
    };
    if is_rec && cb.forbids_trivial_copy(&a.name) {
        return true;
    }
    has_unresolvable_byvalue(apis, a)
}

fn pod_edge_exec(apis: &ApiVec, j: usize, i: usize) -> (r: bool)
    requires
        j < apis@.len(),
        i < apis@.len(),
    ensures
        r == pod_edge(avs(apis@), j as int, i as int),
{
    proof {
        assert(avs(apis@)[i as int] == apis@[i as int]@);
        assert(avs(apis@)[j as int] == apis@[j as int]@);
    }
    let aj = apis.get(j);
    let ai = apis.get(i);
    is_pod_node_exec(aj) && is_pod_node_exec(ai) && byvalue_uses_exec(ai, &aj.name)
}

/// POD analysis: classify every record-type and typedef as POD or
/// opaque. A record is opaque exactly when a chain of by-value
/// containment connects it to a directly disqualified record; a type
/// the caller demanded POD treatment for but which came out opaque is
/// marked unsupported, to be reported and cascaded away.
pub fn analyze_pod_apis(
    apis: ApiVec,
    config: &IncludeCppConfig,
    callback_results: &ParseCallbackResults,
) -> (r: ApiVec)
    ensures
        r@.len() == apis@.len(),
        forall|i: int|
            0 <= i < apis@.len() ==> avs(r@)[i] == pod_annotated(
                avs(apis@),
                callback_results,
                config,
                i,
            ),
{
    let ghost s = avs(apis@);
    let n = apis.len();
    let mut init: Vec<bool> = Vec::new();
    let mut i: usize = 0;
    while i < n
        invariant
            i <= n,
            init@.len() == i,
            forall|p: int| 0 <= p < i ==> init@[p] == pod_seed(s, callback_results, p),
        decreases n - i,
    {
        init.push(pod_seed_exec(&apis, callback_results, i));
        i = i + 1;
    }
    let mut edges: Vec<Vec<bool>> = Vec::new();
    let mut j: usize = 0;
    while j < n
        invariant
            j <= n,
            edges@.len() == j,
            forall|p: int| 0 <= p < j ==> #[trigger] edges@[p]@.len() == n,
            forall|p: int, q: int|
                0 <= p < j && 0 <= q < n ==> edges@[p]@[q] == pod_edge(s, p, q),
        decreases n - j,
    {
        let mut row: Vec<bool> = Vec::new();
        let mut i2: usize = 0;
        while i2 < n
            invariant
                i2 <= n,
                row@.len() == i2,
                forall|q: int| 0 <= q < i2 ==> row@[q] == pod_edge(s, j as int, q),
            decreases n - i2,
        {
            row.push(pod_edge_exec(&apis, j, i2));
            i2 = i2 + 1;
        }
        edges.push(row);
        j = j + 1;
    }
    proof {
        assert(init_set_of(init@) =~= pod_init(s, callback_results));
        assert forall|p: int| 0 <= p < n implies #[trigger] em_of(edges@)[p] == pod_em(s)[p] by {
            assert(em_of(edges@)[p] == edges@[p]@);
            assert(em_of(edges@)[p] =~= pod_em(s)[p]);
        }
        assert(em_of(edges@) =~= pod_em(s));
    }
    let marks = closure_marks(&init, &edges);
    let mut rest = apis;
    let mut out = ApiVec::new();
    while rest.len() > 0
        invariant
            s.len() == out@.len() + rest@.len(),
            avs(rest@) == s.subrange(out@.len() as int, s.len() as int),
            out@.len() <= n,
            forall|p: int|
                0 <= p < out@.len() ==> avs(out@)[p] == pod_annotated(
                    s,
                    callback_results,
                    config,
                    p,
                ),
        decreases rest@.len(),
    {
        let k = out.len();
        let ghost prev_rest = rest@;
        let mut a = rest.remove_first();
        proof {
            assert(a@ == avs(prev_rest)[0]);
            assert(a@ == s[k as int]);
            assert(avs(rest@) =~= s.subrange(k + 1, s.len() as int)) by {
                assert(forall|p: int|
                    0 <= p < rest@.len() ==> #[trigger] avs(rest@)[p] == avs(prev_rest)[p + 1]);
            }
        }
        if is_pod_node_exec(&a) {
            let opaque = marks[k];
            proof {
                assert(opaque == pod_opaque(s, callback_results, k as int));
            }
            a.class = Some(
                if opaque {
                    TypeClass::Opaque
                } else {
                    TypeClass::Pod
                },
            );
            let is_rec = match &a.payload {
                Payload::Record(_) => true,
                _ => false,
            };
            if is_rec && opaque && a.ignored.is_none() && config.is_pod_requested(&a.name) {
                a.ignored = Some(IgnoreReason::PodRequestedForNonPod);
            }
        }
        let ghost prev_out = out@;
        out.push(a);
        proof {
            assert(avs(out@)[k as int] == out@[k as int]@);
            assert(avs(out@)[k as int] == pod_annotated(s, callback_results, config, k as int));
            assert(forall|p: int| 0 <= p < k ==> #[trigger] avs(out@)[p] == avs(prev_out)[p]);
        }
    }
    out
}

/// POD propagation monotonicity: when one record holds another by
/// value and the held record is classified opaque, the holder is
/// classified opaque as well — never the reverse.
pub proof fn pod_propagation_monotone(s: Seq<ApiV>, cb: &ParseCallbackResults, a: int, b: int)
    requires
        0 <= a < s.len(),
        0 <= b < s.len(),
        is_pod_node(s[a]),
        is_pod_node(s[b]),
        byvalue_uses(s[a], s[b].name),
        pod_opaque(s, cb, b),
    ensures
        pod_opaque(s, cb, a),
{
    assert(pod_em(s)[b][a] == pod_edge(s, b, a));
    assert(pod_edge(s, b, a));
    lemma_reach_step(pod_init(s, cb), pod_em(s), b, a);
}

} // verus!
