use crate::api::{
    alloc_name_v, avs, free_name_v, has_name, uniq_names, Api, ApiV, Payload, PayloadV, TypeClass,
};
use crate::apivec::ApiVec;
use crate::name::QualifiedName;
use vstd::prelude::*;
use vstd::string::StringExecFns;

verus! {

pub open spec fn is_opaque_record(a: ApiV) -> bool {
    a.payload is Record && a.class == Some(TypeClass::Opaque)
}

/// A freshly synthesized record: no annotation slot filled, not a root.
pub open spec fn fresh_synth(a: ApiV) -> bool {
    a.cpp_name is None && a.class is None && a.shape is None && a.ctor_deps.len() == 0
        && a.ignored is None && !a.always_keep
}

/// A synthesized allocate-uninitialized record is justified by an
/// opaque record-type of the input snapshot, and named after it.
pub open spec fn is_synth_alloc(a: ApiV, s: Seq<ApiV>) -> bool {
    match a.payload {
        PayloadV::Alloc(t) => a.name == alloc_name_v(t) && (exists|d: int|
            0 <= d < s.len() && s[d].name == t && is_opaque_record(#[trigger] s[d])) && fresh_synth(
            a,
        ),
        _ => false,
    }
}

pub open spec fn is_synth_free(a: ApiV, s: Seq<ApiV>) -> bool {
    match a.payload {
        PayloadV::Free(t) => a.name == free_name_v(t) && (exists|d: int|
            0 <= d < s.len() && s[d].name == t && is_opaque_record(#[trigger] s[d])) && fresh_synth(
            a,
        ),
        _ => false,
    }
}

pub proof fn lemma_has_name_grow(prev: Seq<ApiV>, cur: Seq<ApiV>)
    requires
        cur.len() >= prev.len(),
        forall|p: int| 0 <= p < prev.len() ==> cur[p] == prev[p],
    ensures
        forall|x: Seq<char>| #[trigger] has_name(prev, x) ==> has_name(cur, x),
{
    assert forall|x: Seq<char>| #[trigger] has_name(prev, x) implies has_name(cur, x) by {
        let i = choose|i: int| 0 <= i < prev.len() && prev[i].name == x;
        assert(cur[i].name == x);
    }
}

pub fn alloc_name_exec(n: &QualifiedName) -> (r: QualifiedName)
    ensures
        r@ == alloc_name_v(n@),
{
    QualifiedName { text: n.text.clone().concat("_shim_alloc") }
}

pub fn free_name_exec(n: &QualifiedName) -> (r: QualifiedName)
    ensures
        r@ == free_name_v(n@),
{
    QualifiedName { text: n.text.clone().concat("_shim_free") }
}

/// Allocator/deallocator synthesis: for every opaque record-type,
/// append a paired allocate-uninitialized and free/destroy record, used
/// by the wrapper layer to manage foreign-side storage. POD types get
/// no pair. A synthesized name that would collide with an existing
/// record is skipped rather than duplicated.
pub fn create_alloc_and_frees(apis: ApiVec) -> (r: ApiVec)
    requires
        uniq_names(avs(apis@)),
    ensures
        r@.len() >= apis@.len(),
        forall|i: int| 0 <= i < apis@.len() ==> avs(r@)[i] == avs(apis@)[i],
        forall|k: int|
            apis@.len() <= k < r@.len() ==> is_synth_alloc(#[trigger] avs(r@)[k], avs(apis@))
                || is_synth_free(avs(r@)[k], avs(apis@)),
        forall|d: int|
            0 <= d < apis@.len() && is_opaque_record(#[trigger] avs(apis@)[d]) ==> has_name(
                avs(r@),
                alloc_name_v(avs(apis@)[d].name),
            ) && has_name(avs(r@), free_name_v(avs(apis@)[d].name)),
        uniq_names(avs(r@)),
{
    let ghost s = avs(apis@);
    let len0 = apis.len();
    let mut out = apis;
    let mut d: usize = 0;
    while d < len0
        invariant
            len0 == s.len(),
            d <= len0,
            out@.len() >= len0,
            forall|p: int| 0 <= p < len0 ==> avs(out@)[p] == s[p],
            forall|k: int|
                len0 <= k < out@.len() ==> is_synth_alloc(#[trigger] avs(out@)[k], s)
                    || is_synth_free(avs(out@)[k], s),
            forall|p: int|
                0 <= p < d && is_opaque_record(#[trigger] s[p]) ==> has_name(
                    avs(out@),
                    alloc_name_v(s[p].name),
                ) && has_name(avs(out@), free_name_v(s[p].name)),
            uniq_names(avs(out@)),
        decreases len0 - d,
    {
        let a = out.get(d);
        proof {
            assert(avs(out@)[d as int] == out@[d as int]@);
        }
        let is_op = match &a.payload {
            Payload::Record(_) => match &a.class {
                Some(TypeClass::Opaque) => true,
                _ => false,
            },
            _ => false,
        };
        if is_op {
            let subject = a.name.clone();
            let an = alloc_name_exec(&subject);
            let fname = free_name_exec(&subject);
            if !out.contains_name(&an) {
                let rec = Api::plain(an, None, Payload::Alloc(subject.clone()), false);
                let ghost prev = out@;
                out.push(rec);
                proof {
                    assert(forall|p: int|
                        0 <= p < prev.len() ==> #[trigger] avs(out@)[p] == avs(prev)[p]);
                    assert(avs(out@).last() == out@.last()@);
                    assert(is_synth_alloc(avs(out@).last(), s)) by {
                        assert(s[d as int].name == subject@ && is_opaque_record(s[d as int]));
                    }
                    assert(forall|p: int, q: int|
                        0 <= p < q < avs(out@).len() ==> avs(out@)[p].name != avs(out@)[q].name);
                    lemma_has_name_grow(avs(prev), avs(out@));
                }
            }
            proof {
                assert(has_name(avs(out@), alloc_name_v(s[d as int].name)));
            }
            if !out.contains_name(&fname) {
                let rec = Api::plain(fname, None, Payload::Free(subject), false);
                let ghost prev = out@;
                out.push(rec);
                proof {
                    assert(forall|p: int|
                        0 <= p < prev.len() ==> #[trigger] avs(out@)[p] == avs(prev)[p]);
                    assert(avs(out@).last() == out@.last()@);
                    assert(is_synth_free(avs(out@).last(), s)) by {
                        assert(s[d as int].name == subject@ && is_opaque_record(s[d as int]));
                    }
                    assert(forall|p: int, q: int|
                        0 <= p < q < avs(out@).len() ==> avs(out@)[p].name != avs(out@)[q].name);
                    lemma_has_name_grow(avs(prev), avs(out@));
                }
            }
            proof {
                assert(has_name(avs(out@), free_name_v(s[d as int].name)));
            }
        }
        d = d + 1;
    }
    out
}

} // verus!
