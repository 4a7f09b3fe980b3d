use crate::api::{avs, ApiV, IgnoreReason, PayloadV};
use crate::apivec::ApiVec;
use crate::config::IncludeCppConfig;
use crate::pod::{names_a_type, names_a_type_exec};
use vstd::prelude::*;

verus! {

/// A typedef is hopeless when its non-primitive target names no type of
/// the snapshot: nothing the bridge could resolve it to.
pub open spec fn hopeless(s: Seq<ApiV>, i: int) -> bool {
    match s[i].payload {
        PayloadV::Typedef(t) => !t.primitive && !names_a_type(s, t.name),
        _ => false,
    }
}

/// What the pass does to one record: hopeless typedefs get the
/// unsupported mark (unless already marked), everything else is kept.
pub open spec fn hopeless_marked(s: Seq<ApiV>, i: int) -> ApiV {
    let a = s[i];
    if hopeless(s, i) && a.ignored is None {
        ApiV {
            name: a.name,
            cpp_name: a.cpp_name,
            payload: a.payload,
            class: a.class,
            shape: a.shape,
            ctor_deps: a.ctor_deps,
            ignored: Some(IgnoreReason::HopelessTypedefTarget),
            always_keep: a.always_keep,
        }
    } else {
        a
    }
}

/// Mark every typedef whose target cannot be resolved to any type of
/// the snapshot as unsupported, so the cascade removes it and its
/// dependents.
pub fn replace_hopeless_typedef_targets(config: &IncludeCppConfig, apis: ApiVec) -> (r: ApiVec)
    ensures
        r@.len() == apis@.len(),
        forall|i: int| 0 <= i < apis@.len() ==> avs(r@)[i] == hopeless_marked(avs(apis@), i),
{
    let ghost s = avs(apis@);
    let n = apis.len();
    let mut marks: Vec<bool> = Vec::new();
    let mut i: usize = 0;
    while i < n
        invariant
            i <= n,
            marks@.len() == i,
            forall|p: int| 0 <= p < i ==> marks@[p] == hopeless(s, p),
        decreases n - i,
    {
        let a = apis.get(i);
        proof {
            assert(s[i as int] == apis@[i as int]@);
        }
        let h = match &a.payload {
            crate::api::Payload::Typedef(t) => !t.primitive && !names_a_type_exec(&apis, &t.name),
            _ => false,
        };
        marks.push(h);
        i = i + 1;
    }
    let mut rest = apis;
    let mut out = ApiVec::new();
    while rest.len() > 0
        invariant
            s.len() == out@.len() + rest@.len(),
            s.len() == n,
            avs(rest@) == s.subrange(out@.len() as int, s.len() as int),
            forall|p: int| 0 <= p < out@.len() ==> avs(out@)[p] == hopeless_marked(s, p),
        decreases rest@.len(),
    {
        let k = out.len();
        let ghost prev_rest = rest@;
        let mut a = rest.remove_first();
        proof {
            assert(a@ == avs(prev_rest)[0]);
            assert(a@ == s[k as int]);
            assert(avs(rest@) =~= s.subrange(k + 1, s.len() as int)) by {
                assert(forall|p: int|
                    0 <= p < rest@.len() ==> #[trigger] avs(rest@)[p] == avs(prev_rest)[p + 1]);
            }
        }
        if marks[k] && a.ignored.is_none() {
            a.ignored = Some(IgnoreReason::HopelessTypedefTarget);
        }
        let ghost prev_out = out@;
        out.push(a);
        proof {
            assert(avs(out@)[k as int] == out@[k as int]@);
            assert(avs(out@)[k as int] == hopeless_marked(s, k as int));
            assert(forall|p: int| 0 <= p < k ==> #[trigger] avs(out@)[p] == avs(prev_out)[p]);
        }
    }
    out
}

} // verus!
