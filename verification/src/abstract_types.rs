use crate::api::{
    avs, kept_prefix, Api, ApiV, IgnoreReason, Payload, PayloadV, SpecialMember, TypeClass,
};
use crate::apivec::ApiVec;
use crate::name::QualifiedName;
use vstd::prelude::*;

verus! {

/// Some function record of the snapshot is a pure-virtual member of
/// the named type.
pub open spec fn has_pure_virtual_member(s: Seq<ApiV>, n: Seq<char>) -> bool {
    exists|i: int|
        0 <= i < s.len() && (match (#[trigger] s[i]).payload {
            PayloadV::Function(f) => f.self_ty == Some(n) && f.is_pure_virtual,
            _ => false,
        })
}

/// The named type is a record-type with a pure-virtual member.
pub open spec fn is_abstract_type(s: Seq<ApiV>, n: Seq<char>) -> bool {
    (exists|j: int| 0 <= j < s.len() && (#[trigger] s[j]).name == n && s[j].payload is Record)
        && has_pure_virtual_member(s, n)
}

/// A value-construction or destruction record targeting an abstract
/// type: a special-member function of it, a wrapper calling such a
/// member, or its synthesized allocator pair. None of these may be
/// generated for an uninstantiable type.
pub open spec fn targets_abstract(s: Seq<ApiV>, a: ApiV) -> bool {
    match a.payload {
        PayloadV::Function(f) => !(f.special is NotSpecial) && (match f.self_ty {
            Some(t) => is_abstract_type(s, t),
            None => false,
        }),
        PayloadV::Wrapper(w) => exists|i: int|
            0 <= i < s.len() && (#[trigger] s[i]).name == w.callee && (match s[i].payload {
                PayloadV::Function(f) => !(f.special is NotSpecial) && (match f.self_ty {
                    Some(t) => is_abstract_type(s, t),
                    None => false,
                }),
                _ => false,
            }),
        PayloadV::Alloc(t) => is_abstract_type(s, t),
        PayloadV::Free(t) => is_abstract_type(s, t),
        _ => false,
    }
}

/// What abstract marking does to one record: record-types with a
/// pure-virtual member are classified abstract; records targeting an
/// abstract type are silently discarded later.
pub open spec fn abstract_marked(s: Seq<ApiV>, i: int) -> ApiV {
    let a = s[i];
    if a.payload is Record && has_pure_virtual_member(s, a.name) {
        ApiV {
            name: a.name,
            cpp_name: a.cpp_name,
            payload: a.payload,
            class: Some(TypeClass::Abstract),
            shape: a.shape,
            ctor_deps: a.ctor_deps,
            ignored: a.ignored,
            always_keep: a.always_keep,
        }
    } else if targets_abstract(s, a) && a.ignored is None {
        ApiV {
            name: a.name,
            cpp_name: a.cpp_name,
            payload: a.payload,
            class: a.class,
            shape: a.shape,
            ctor_deps: a.ctor_deps,
            ignored: Some(IgnoreReason::AbstractMemberDiscarded),
            always_keep: a.always_keep,
        }
    } else {
        a
    }
}

fn has_pure_virtual_member_exec(apis: &ApiVec, n: &QualifiedName) -> (r: bool)
    ensures
        r == has_pure_virtual_member(avs(apis@), n@),
{
    let ghost s = avs(apis@);
    let len = apis.len();
    let mut i: usize = 0;
    while i < len
        invariant
            i <= len,
            len == s.len(),
            forall|p: int|
                0 <= p < i ==> !(match (#[trigger] s[p]).payload {
                    PayloadV::Function(f) => f.self_ty == Some(n@) && f.is_pure_virtual,
                    _ => false,
                }),
        decreases len - i,
    {
        let a = apis.get(i);
        proof {
            assert(s[i as int] == apis@[i as int]@);
        }
        match &a.payload {
            Payload::Function(f) => {
                let hit = f.is_pure_virtual && (match &f.self_ty {
                    Some(t) => t.eq_name(n),
                    None => false,
                });
                if hit {
                    return true;
                }
            },
            _ => {},
        }
        i = i + 1;
    }
    false
}

fn is_abstract_type_exec(apis: &ApiVec, n: &QualifiedName) -> (r: bool)
    ensures
        r == is_abstract_type(avs(apis@), n@),
{
    let ghost s = avs(apis@);
    let len = apis.len();
    let mut found = false;
    let mut i: usize = 0;
    while i < len
        invariant
            i <= len,
            len == s.len(),
            found == (exists|p: int|
                0 <= p < i && (#[trigger] s[p]).name == n@ && s[p].payload is Record),
        decreases len - i,
    {
        let a = apis.get(i);
        proof {
            assert(s[i as int] == apis@[i as int]@);
        }
        let is_rec = match &a.payload {
            Payload::Record(_) => true,
            _ => false,
        };
        if is_rec && a.name.eq_name(n) {
            proof {
                assert(s[i as int].name == n@ && s[i as int].payload is Record);
            }
            found = true;
        }
        i = i + 1;
    }
    found && has_pure_virtual_member_exec(apis, n)
}

/// Whether this record is one of the construction/destruction records
/// that must be discarded because it targets an abstract type.
fn targets_abstract_exec(apis: &ApiVec, a: &Api) -> (r: bool)
    ensures
        r == targets_abstract(avs(apis@), a@),
{
    let ghost s = avs(apis@);
    match &a.payload {
        Payload::Function(f) => {
            let special = match f.special {
                SpecialMember::NotSpecial => false,
                _ => true,
            };
            special && (match &f.self_ty {
                Some(t) => is_abstract_type_exec(apis, t),
                None => false,
            })
        },
        Payload::Wrapper(w) => {
            let len = apis.len();
            let mut i: usize = 0;
            while i < len
                invariant
                    i <= len,
                    len == s.len(),
                    forall|p: int|
                        0 <= p < i ==> !((#[trigger] s[p]).name == w.callee@ && (match s[
                            p].payload {
                            PayloadV::Function(f) => !(f.special is NotSpecial) && (match f.self_ty {
                                Some(t) => is_abstract_type(s, t),
                                None => false,
                            }),
                            _ => false,
                        })),
                decreases len - i,
            {
                let b = apis.get(i);
                proof {
                    assert(s[i as int] == apis@[i as int]@);
                }
                if b.name.eq_name(&w.callee) {
                    match &b.payload {
                        Payload::Function(f) => {
                            let special = match f.special {
                                SpecialMember::NotSpecial => false,
                                _ => true,
                            };
                            let hit = special && (match &f.self_ty {
                                Some(t) => is_abstract_type_exec(apis, t),
                                None => false,
                            });
                            if hit {
                                proof {
                                    assert(s[i as int].name == w.callee@);
                                }
                                return true;
                            }
                        },
                        _ => {},
                    }
                }
                i = i + 1;
            }
            false
        },
        Payload::Alloc(t) => is_abstract_type_exec(apis, t),
        Payload::Free(t) => is_abstract_type_exec(apis, t),
        _ => false,
    }
}

/// Abstract-type marking: classify every record-type with a
/// pure-virtual member as abstract, and mark for silent discard every
/// construction or destruction record targeting such a type — even if
/// the caller requested them.
pub fn mark_types_abstract(apis: ApiVec) -> (r: ApiVec)
    ensures
        r@.len() == apis@.len(),
        forall|i: int| 0 <= i < apis@.len() ==> avs(r@)[i] == abstract_marked(avs(apis@), i),
{
    let ghost s = avs(apis@);
    let n = apis.len();
    let mut abs_marks: Vec<bool> = Vec::new();
    let mut disc_marks: Vec<bool> = Vec::new();
    let mut i: usize = 0;
    while i < n
        invariant
            i <= n,
            n == s.len(),
            abs_marks@.len() == i,
            disc_marks@.len() == i,
            forall|p: int|
                0 <= p < i ==> abs_marks@[p] == (s[p].payload is Record && has_pure_virtual_member(
                    s,
                    s[p].name,
                )),
            forall|p: int| 0 <= p < i ==> disc_marks@[p] == targets_abstract(s, s[p]),
        decreases n - i,
    {
        let a = apis.get(i);
        proof {
            assert(s[i as int] == apis@[i as int]@);
        }
        let is_rec = match &a.payload {
            Payload::Record(_) => true,
            _ => false,
        };
        abs_marks.push(is_rec && has_pure_virtual_member_exec(&apis, &a.name));
        disc_marks.push(targets_abstract_exec(&apis, a));
        i = i + 1;
    }
    let mut rest = apis;
    let mut out = ApiVec::new();
    while rest.len() > 0
        invariant
            s.len() == out@.len() + rest@.len(),
            s.len() == n,
            abs_marks@.len() == n,
            disc_marks@.len() == n,
            avs(rest@) == s.subrange(out@.len() as int, s.len() as int),
            forall|p: int|
                0 <= p < n ==> abs_marks@[p] == (s[p].payload is Record && has_pure_virtual_member(
                    s,
                    s[p].name,
                )),
            forall|p: int| 0 <= p < n ==> disc_marks@[p] == targets_abstract(s, s[p]),
            forall|p: int| 0 <= p < out@.len() ==> avs(out@)[p] == abstract_marked(s, p),
        decreases rest@.len(),
    {
        let k = out.len();
        let ghost prev_rest = rest@;
        let mut a = rest.remove_first();
        proof {
            assert(a@ == avs(prev_rest)[0]);
            assert(a@ == s[k as int]);
            assert(avs(rest@) =~= s.subrange(k + 1, s.len() as int)) by {
                assert(forall|p: int|
                    0 <= p < rest@.len() ==> #[trigger] avs(rest@)[p] == avs(prev_rest)[p + 1]);
            }
        }
        if abs_marks[k] {
            a.class = Some(TypeClass::Abstract);
        } else if disc_marks[k] && a.ignored.is_none() {
            a.ignored = Some(IgnoreReason::AbstractMemberDiscarded);
        }
        let ghost prev_out = out@;
        out.push(a);
        proof {
            assert(avs(out@)[k as int] == out@[k as int]@);
            assert(avs(out@)[k as int] == abstract_marked(s, k as int));
            assert(forall|p: int| 0 <= p < k ==> #[trigger] avs(out@)[p] == avs(prev_out)[p]);
        }
    }
    out
}

/// Whether the record survives the silent discard of ignorable
/// functions.
pub open spec fn not_silently_ignored(a: ApiV) -> bool {
    match a.ignored {
        Some(re) => !crate::api::reason_is_silent(re),
        None => true,
    }
}

/// Drop every record marked for silent discard (members of abstract
/// types); reportable unsupported marks survive to seed the cascade.
pub fn discard_ignored_functions(apis: ApiVec) -> (r: ApiVec)
    ensures
        avs(r@) == kept_prefix(
            avs(apis@),
            Seq::new(avs(apis@).len(), |i: int| not_silently_ignored(avs(apis@)[i])),
            avs(apis@).len() as int,
        ),
{
    let ghost s = avs(apis@);
    let ghost keep = Seq::new(s.len(), |i: int| not_silently_ignored(s[i]));
    let mut rest = apis;
    let mut out = ApiVec::new();
    let ghost n = s.len() as int;
    while rest.len() > 0
        invariant
            s.len() == out@.len() + rest@.len() + (n - out@.len() - rest@.len()),
            out@.len() + rest@.len() <= n,
            n == s.len(),
            n - rest@.len() >= 0,
            avs(rest@) == s.subrange(n - rest@.len(), n),
            avs(out@) == kept_prefix(s, keep, n - rest@.len()),
        decreases rest@.len(),
    {
        let ghost k = n - rest@.len();
        let ghost prev_rest = rest@;
        let a = rest.remove_first();
        proof {
            assert(a@ == avs(prev_rest)[0]);
            assert(a@ == s[k]);
            assert(avs(rest@) =~= s.subrange(k + 1, n)) by {
                assert(forall|p: int|
                    0 <= p < rest@.len() ==> #[trigger] avs(rest@)[p] == avs(prev_rest)[p + 1]);
            }
        }
        let keep_it = match &a.ignored {
            Some(re) => match re {
                IgnoreReason::AbstractMemberDiscarded => false,
                _ => true,
            },
            None => true,
        };
        proof {
            assert(keep_it == keep[k]);
        }
        if keep_it {
            let ghost prev_out = out@;
            out.push(a);
            proof {
                assert(avs(out@) =~= avs(prev_out).push(a@));
            }
        }
        proof {
            assert(avs(out@) == kept_prefix(s, keep, k + 1));
        }
    }
    out
}

} // verus!
