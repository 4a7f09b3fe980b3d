use crate::api::{
    avs, has_name, uniq_names, wrapper_name_v, Api, ApiV, ArgSource, ArgSourceV, FnDetailsV,
    FnShape, FnShapeV, Param, PassMode, Payload, PayloadV, TypeClass, TypeRef, TypeRefV, TypeShape,
    WrapperPlan,
};
use crate::apivec::ApiVec;
use crate::config::{CodegenOptions, IncludeCppConfig, UnsafePolicy};
use crate::name::QualifiedName;
use vstd::prelude::*;
use vstd::string::StringExecFns;

verus! {

/// A type mention already has a direct bridge-representable shape:
/// any pointer or reference, a primitive, or a by-value use of an
/// enum or of a type classified POD.
pub open spec fn tref_direct(s: Seq<ApiV>, t: TypeRefV) -> bool {
    t.shape is Pointer || t.shape is Reference || t.primitive || (exists|j: int|
        0 <= j < s.len() && #[trigger] s[j].name == t.name && (s[j].payload is EnumDecl || ((
        s[j].payload is Record || s[j].payload is Typedef) && s[j].class == Some(TypeClass::Pod))))
}

/// How a parameter crosses the bridge: by value when its type mention
/// is directly bridge-representable by value, otherwise by pointer.
pub open spec fn pass_of(s: Seq<ApiV>, t: TypeRefV) -> PassMode {
    if t.shape is Value && tref_direct(s, t) {
        PassMode::ByValue
    } else {
        PassMode::ByPointer
    }
}

/// A function can cross the bridge directly, without a wrapper, only
/// if every parameter and the return type have a direct shape, and it
/// is not an ambiguous overload, a defaulted-parameter signature, an
/// operator needing renaming, or a special member, and the caller did
/// not force wrapper generation.
pub open spec fn fn_direct(s: Seq<ApiV>, f: FnDetailsV, force: bool) -> bool {
    !force && !f.ambiguous_overload && !f.is_operator && f.special is NotSpecial && (forall|p: int|
        0 <= p < f.params.len() ==> (#[trigger] f.params[p]).default_expr is None && tref_direct(
            s,
            f.params[p].ty,
        )) && (match f.ret {
        Some(t) => tref_direct(s, t),
        None => true,
    })
}

/// The calling-convention annotation a function record receives.
pub open spec fn shape_of(s: Seq<ApiV>, a: ApiV, f: FnDetailsV, force: bool, safe: bool) -> FnShapeV {
    FnShapeV {
        param_passing: Seq::new(f.params.len(), |p: int| pass_of(s, f.params[p].ty)),
        wrapper: if fn_direct(s, f, force) {
            None
        } else {
            Some(wrapper_name_v(a.name))
        },
        safe,
    }
}

/// What shaping does to one record: non-ignored function records get
/// their shape annotation, everything else is untouched.
pub open spec fn fn_shaped(s: Seq<ApiV>, i: int, force: bool, safe: bool) -> ApiV {
    let a = s[i];
    match a.payload {
        PayloadV::Function(f) => if a.ignored is None {
            ApiV {
                name: a.name,
                cpp_name: a.cpp_name,
                payload: a.payload,
                class: a.class,
                shape: Some(shape_of(s, a, f, force, safe)),
                ctor_deps: a.ctor_deps,
                ignored: a.ignored,
                always_keep: a.always_keep,
            }
        } else {
            a
        },
        _ => a,
    }
}

/// The argument plan of a synthesized wrapper: forward each parameter,
/// except that a defaulted parameter is resolved to its default
/// expression at the call site inside the wrapper.
pub open spec fn plan_args_of(f: FnDetailsV) -> Seq<ArgSourceV> {
    Seq::new(
        f.params.len(),
        |p: int|
            match f.params[p].default_expr {
                Some(e) => ArgSourceV::DefaultExpr(e),
                None => ArgSourceV::FromParam(p),
            },
    )
}

/// A synthesized wrapper record is justified by a non-ignored function
/// record of the input that cannot cross directly, named after it, and
/// carries exactly its argument plan.
pub open spec fn is_synth_wrapper(a: ApiV, s: Seq<ApiV>, force: bool) -> bool {
    match a.payload {
        PayloadV::Wrapper(w) => a.name == wrapper_name_v(w.callee) && (exists|i: int|
            0 <= i < s.len() && #[trigger] s[i].name == w.callee && (match s[i].payload {
                PayloadV::Function(f) => s[i].ignored is None && !fn_direct(s, f, force) && w.args
                    == plan_args_of(f),
                _ => false,
            })) && crate::allocators::fresh_synth(a),
        _ => false,
    }
}

fn tref_direct_exec(apis: &ApiVec, t: &TypeRef) -> (r: bool)
    ensures
        r == tref_direct(avs(apis@), t@),
{
    let ghost s = avs(apis@);
    let shaped_ok = match t.shape {
        TypeShape::Pointer => true,
        TypeShape::Reference => true,
        TypeShape::Value => false,
    };
    if shaped_ok || t.primitive {
        return true;
    }
    let len = apis.len();
    let mut j: usize = 0;
    while j < len
        invariant
            j <= len,
            len == s.len(),
            forall|p: int|
                0 <= p < j ==> !(#[trigger] s[p].name == t@.name && (s[p].payload is EnumDecl || ((
                s[p].payload is Record || s[p].payload is Typedef) && s[p].class == Some(
                    TypeClass::Pod,
                )))),
        decreases len - j,
    {
        let a = apis.get(j);
        proof {
            assert(s[j as int] == apis@[j as int]@);
        }
        let hit = match &a.payload {
            Payload::EnumDecl => true,
            Payload::Record(_) => match &a.class {
                Some(TypeClass::Pod) => true,
                _ => false,
            },
            Payload::Typedef(_) => match &a.class {
                Some(TypeClass::Pod) => true,
                _ => false,
            },
            _ => false,
        };
        if hit && a.name.eq_name(&t.name) {
            proof {
                assert(s[j as int].name == t@.name && (s[j as int].payload is EnumDecl || ((s[
                    j as int].payload is Record || s[j as int].payload is Typedef) && s[
                    j as int].class == Some(TypeClass::Pod))));
            }
            return true;
        }
        j = j + 1;
    }
    false
}

/// Function shaping: decide, for every function record, whether it can
/// cross the bridge directly; annotate every function with its shape
/// and synthesize a wrapper record for each one that needs it. The
/// wrapper's call plan resolves defaulted parameters to their default
/// expressions. Safety of shaped records follows the unsafe policy.
pub fn analyze_functions(
    apis: ApiVec,
    unsafe_policy: &UnsafePolicy,
    config: &IncludeCppConfig,
    force_wrapper_gen: bool,
) -> (r: ApiVec)
    requires
        uniq_names(avs(apis@)),
    ensures
        r@.len() >= apis@.len(),
        forall|i: int|
            0 <= i < apis@.len() ==> avs(r@)[i] == fn_shaped(
                avs(apis@),
                i,
                force_wrapper_gen,
                *unsafe_policy is AllFunctionsSafe,
            ),
        forall|k: int|
            apis@.len() <= k < r@.len() ==> is_synth_wrapper(
                #[trigger] avs(r@)[k],
                avs(apis@),
                force_wrapper_gen,
            ),
        forall|i: int|
            0 <= i < apis@.len() ==> (match (#[trigger] avs(apis@)[i]).payload {
                PayloadV::Function(f) => (avs(apis@)[i].ignored is None && !fn_direct(
                    avs(apis@),
                    f,
                    force_wrapper_gen,
                )) ==> has_name(avs(r@), wrapper_name_v(avs(apis@)[i].name)),
                _ => true,
            }),
        uniq_names(avs(r@)),
{
    let ghost s = avs(apis@);
    let safe = match unsafe_policy {
        UnsafePolicy::AllFunctionsSafe => true,
        UnsafePolicy::AllFunctionsUnsafe => false,
    };
    let n = apis.len();
    // Pass 1: compute each function's shape annotation against the
    // input snapshot.
    let mut shapes: Vec<Option<FnShape>> = Vec::new();
    let mut i: usize = 0;
    while i < n
        invariant
            i <= n,
            n == s.len(),
            shapes@.len() == i,
            forall|p: int|
                0 <= p < i ==> (match #[trigger] shapes@[p] {
                    Some(sh) => (match s[p].payload {
                        PayloadV::Function(f) => s[p].ignored is None && sh@ == shape_of(
                            s,
                            s[p],
                            f,
                            force_wrapper_gen,
                            safe,
                        ),
                        _ => false,
                    }),
                    None => (match s[p].payload {
                        PayloadV::Function(_) => s[p].ignored is Some,
                        _ => true,
                    }),
                }),
        decreases n - i,
    {
        let a = apis.get(i);
        proof {
            assert(s[i as int] == apis@[i as int]@);
        }
        let entry = match &a.payload {
            Payload::Function(f) => {
                if a.ignored.is_none() {
                    let ghost fv = f@;
                    let plen = f.params.len();
                    let mut passing: Vec<PassMode> = Vec::new();
                    let mut direct = !force_wrapper_gen && !f.ambiguous_overload && !f.is_operator
                        && (match f.special {
                        crate::api::SpecialMember::NotSpecial => true,
                        _ => false,
                    });
                    let mut p: usize = 0;
                    while p < plen
                        invariant
                            p <= plen,
                            plen == fv.params.len(),
                            fv == f@,
                            passing@.len() == p,
                            forall|q: int|
                                0 <= q < p ==> passing@[q] == pass_of(s, fv.params[q].ty),
                            direct == (!force_wrapper_gen && !fv.ambiguous_overload
                                && !fv.is_operator && fv.special is NotSpecial && (forall|q: int|
                                0 <= q < p ==> (#[trigger] fv.params[q]).default_expr is None
                                    && tref_direct(s, fv.params[q].ty))),
                        decreases plen - p,
                    {
                        let prm = &f.params[p];
                        proof {
                            assert(fv.params[p as int] == f.params@[p as int]@);
                        }
                        let td = tref_direct_exec(&apis, &prm.ty);
                        let by_value = match prm.ty.shape {
                            TypeShape::Value => true,
                            _ => false,
                        };
                        passing.push(
                            if by_value && td {
                                PassMode::ByValue
                            } else {
                                PassMode::ByPointer
                            },
                        );
                        if prm.default_expr.is_some() || !td {
                            direct = false;
                        }
                        p = p + 1;
                    }
                    let ret_ok = match &f.ret {
                        Some(t) => tref_direct_exec(&apis, t),
                        None => true,
                    };
                    if !ret_ok {
                        direct = false;
                    }
                    let wrapper = if direct {
                        None
                    } else {
                        Some(wrapper_name_exec(&a.name))
                    };
                    proof {
                        assert(direct == fn_direct(s, fv, force_wrapper_gen));
                        assert(passing@ =~= Seq::new(
                            fv.params.len(),
                            |q: int| pass_of(s, fv.params[q].ty),
                        ));
                    }
                    Some(FnShape { param_passing: passing, wrapper, safe })
                } else {
                    None
                }
            },
            _ => None,
        };
        shapes.push(entry);
        i = i + 1;
    }
    // Pass 2: attach the annotations in collection order.
    let ghost shs = shapes@;
    let mut rest = apis;
    let mut out = ApiVec::new();
    while rest.len() > 0
        invariant
            s.len() == out@.len() + rest@.len(),
            s.len() == n,
            shs.len() == n,
            shapes@ == shs.subrange(out@.len() as int, n as int),
            avs(rest@) == s.subrange(out@.len() as int, s.len() as int),
            forall|p: int|
                0 <= p < n ==> (match #[trigger] shs[p] {
                    Some(sh) => (match s[p].payload {
                        PayloadV::Function(f) => s[p].ignored is None && sh@ == shape_of(
                            s,
                            s[p],
                            f,
                            force_wrapper_gen,
                            safe,
                        ),
                        _ => false,
                    }),
                    None => (match s[p].payload {
                        PayloadV::Function(_) => s[p].ignored is Some,
                        _ => true,
                    }),
                }),
            forall|p: int|
                0 <= p < out@.len() ==> avs(out@)[p] == fn_shaped(s, p, force_wrapper_gen, safe),
        decreases rest@.len(),
    {
        let k = out.len();
        let ghost prev_rest = rest@;
        let ghost prev_shapes = shapes@;
        let mut a = rest.remove_first();
        let sh = shapes.remove(0);
        proof {
            assert(a@ == avs(prev_rest)[0]);
            assert(a@ == s[k as int]);
            assert(sh == shs[k as int]);
            assert(avs(rest@) =~= s.subrange(k + 1, s.len() as int)) by {
                assert(forall|p: int|
                    0 <= p < rest@.len() ==> #[trigger] avs(rest@)[p] == avs(prev_rest)[p + 1]);
            }
            assert(shapes@ =~= shs.subrange(k + 1, n as int));
        }
        let is_fn = match &a.payload {
            Payload::Function(_) => true,
            _ => false,
        };
        if is_fn && a.ignored.is_none() {
            a.shape = sh;
        }
        let ghost prev_out = out@;
        out.push(a);
        proof {
            assert(avs(out@)[k as int] == out@[k as int]@);
            assert(avs(out@)[k as int] == fn_shaped(s, k as int, force_wrapper_gen, safe));
            assert(forall|p: int| 0 <= p < k ==> #[trigger] avs(out@)[p] == avs(prev_out)[p]);
        }
    }
    // Pass 3: synthesize a wrapper record for every function that
    // cannot cross directly.
    let len0 = out.len();
    let mut d: usize = 0;
    while d < len0
        invariant
            len0 == n,
            n == s.len(),
            d <= len0,
            out@.len() >= len0,
            forall|p: int|
                0 <= p < len0 ==> avs(out@)[p] == fn_shaped(s, p, force_wrapper_gen, safe),
            forall|k: int|
                len0 <= k < out@.len() ==> is_synth_wrapper(
                    #[trigger] avs(out@)[k],
                    s,
                    force_wrapper_gen,
                ),
            forall|p: int|
                0 <= p < d ==> (match (#[trigger] s[p]).payload {
                    PayloadV::Function(f) => (s[p].ignored is None && !fn_direct(
                        s,
                        f,
                        force_wrapper_gen,
                    )) ==> has_name(avs(out@), wrapper_name_v(s[p].name)),
                    _ => true,
                }),
            uniq_names(avs(out@)),
        decreases len0 - d,
    {
        let made = {
            let a = out.get(d);
            proof {
                assert(avs(out@)[d as int] == out@[d as int]@);
                assert(avs(out@)[d as int] == fn_shaped(s, d as int, force_wrapper_gen, safe));
            }
            match &a.payload {
                Payload::Function(f) => {
                    let needs = match &a.shape {
                        Some(shp) => shp.wrapper.is_some(),
                        None => false,
                    };
                    if a.ignored.is_none() && needs {
                        let ghost fv = (match s[d as int].payload {
                            PayloadV::Function(fv0) => fv0,
                            _ => arbitrary(),
                        });
                        let plen = f.params.len();
                        let mut args: Vec<ArgSource> = Vec::new();
                        let mut p: usize = 0;
                        while p < plen
                            invariant
                                p <= plen,
                                fv == f@,
                                plen == fv.params.len(),
                                args@.len() == p,
                                forall|q: int|
                                    0 <= q < p ==> #[trigger] args@[q]@ == plan_args_of(fv)[q],
                            decreases plen - p,
                        {
                            let prm = &f.params[p];
                            proof {
                                assert(fv.params[p as int] == f.params@[p as int]@);
                            }
                            let arg = match &prm.default_expr {
                                Some(e) => ArgSource::DefaultExpr(e.clone()),
                                None => ArgSource::FromParam(p),
                            };
                            args.push(arg);
                            p = p + 1;
                        }
                        Some((a.name.clone(), args))
                    } else {
                        None
                    }
                },
                _ => None,
            }
        };
        if let Some((callee, args)) = made {
            let wname = wrapper_name_exec(&callee);
            if !out.contains_name(&wname) {
                let rec = Api::plain(
                    wname,
                    None,
                    Payload::Wrapper(WrapperPlan { callee, args }),
                    false,
                );
                let ghost prev = out@;
                out.push(rec);
                proof {
                    assert(forall|p: int|
                        0 <= p < prev.len() ==> #[trigger] avs(out@)[p] == avs(prev)[p]);
                    assert(avs(out@).last() == out@.last()@);
                    assert(is_synth_wrapper(avs(out@).last(), s, force_wrapper_gen)) by {
                        assert(avs(out@).last().payload matches PayloadV::Wrapper(w) && w.args
                            =~= plan_args_of(
                            match s[d as int].payload {
                                PayloadV::Function(fv0) => fv0,
                                _ => arbitrary(),
                            },
                        ));
                        assert(s[d as int].payload is Function);
                    }
                    assert(forall|p: int, q: int|
                        0 <= p < q < avs(out@).len() ==> avs(out@)[p].name != avs(out@)[q].name);
                    crate::allocators::lemma_has_name_grow(avs(prev), avs(out@));
                }
            }
            proof {
                assert(has_name(avs(out@), wrapper_name_v(s[d as int].name)));
            }
        }
        d = d + 1;
    }
    out
}

pub fn wrapper_name_exec(n: &QualifiedName) -> (r: QualifiedName)
    ensures
        r@ == wrapper_name_v(n@),
{
    QualifiedName { text: n.text.clone().concat("_shim_wrapper") }
}

} // verus!
