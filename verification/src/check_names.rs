use crate::api::{avs, ApiV, IgnoreReason};
use crate::apivec::ApiVec;
use crate::name::QualifiedName;
use vstd::prelude::*;
use vstd::string::StrSliceExecFns;

verus! {

/// Bridge-convention keywords a record's name must not collide with.
pub open spec fn is_reserved_word(n: Seq<char>) -> bool {
    n == "box"@ || n == "ref"@ || n == "self"@ || n == "crate"@ || n == "super"@ || n == "async"@
        || n == "impl"@ || n == "dyn"@
}

/// Names beginning with the bridge's reserved mangling prefix.
pub open spec fn has_reserved_prefix(n: Seq<char>) -> bool {
    n.len() >= 9 && n.subrange(0, 9) == "cxxbridge"@
}

/// A bridge-facing name the convention cannot accept: a keyword
/// collision or a reserved-prefix collision.
pub open spec fn illegal_bridge_name(n: Seq<char>) -> bool {
    is_reserved_word(n) || has_reserved_prefix(n)
}

/// What the pass does to one record: an illegal name earns the
/// unsupported mark (never a silent rename), everything else is kept.
pub open spec fn name_checked(s: Seq<ApiV>, i: int) -> ApiV {
    let a = s[i];
    if illegal_bridge_name(a.name) && a.ignored is None {
        ApiV {
            name: a.name,
            cpp_name: a.cpp_name,
            payload: a.payload,
            class: a.class,
            shape: a.shape,
            ctor_deps: a.ctor_deps,
            ignored: Some(IgnoreReason::IllegalBridgeName),
            always_keep: a.always_keep,
        }
    } else {
        a
    }
}

fn illegal_bridge_name_exec(n: &QualifiedName) -> (r: bool)
    ensures
        r == illegal_bridge_name(n@),
{
    let kw = n.text == "box".to_owned() || n.text == "ref".to_owned() || n.text
        == "self".to_owned() || n.text == "crate".to_owned() || n.text == "super".to_owned()
        || n.text == "async".to_owned() || n.text == "impl".to_owned() || n.text
        == "dyn".to_owned();
    if kw {
        return true;
    }
    let s = n.text.as_str();
    let len = s.unicode_len();
    if len >= 9 {
        let prefix = s.substring_char(0, 9);
        prefix.to_owned() == "cxxbridge".to_owned()
    } else {
        false
    }
}

/// Name-compatibility check: any surviving record whose bridge-facing
/// name would be illegal under the bridge convention is rejected with
/// a descriptive per-item error rather than silently renamed; the
/// cascade then removes it and its dependents.
pub fn check_names(apis: ApiVec) -> (r: ApiVec)
    ensures
        r@.len() == apis@.len(),
        forall|i: int| 0 <= i < apis@.len() ==> avs(r@)[i] == name_checked(avs(apis@), i),
{
    let ghost s = avs(apis@);
    let mut rest = apis;
    let mut out = ApiVec::new();
    while rest.len() > 0
        invariant
            s.len() == out@.len() + rest@.len(),
            avs(rest@) == s.subrange(out@.len() as int, s.len() as int),
            forall|p: int| 0 <= p < out@.len() ==> avs(out@)[p] == name_checked(s, p),
        decreases rest@.len(),
    {
        let k = out.len();
        let ghost prev_rest = rest@;
        let mut a = rest.remove_first();
        proof {
            assert(a@ == avs(prev_rest)[0]);
            assert(a@ == s[k as int]);
            assert(avs(rest@) =~= s.subrange(k + 1, s.len() as int)) by {
                assert(forall|p: int|
                    0 <= p < rest@.len() ==> #[trigger] avs(rest@)[p] == avs(prev_rest)[p + 1]);
            }
        }
        if illegal_bridge_name_exec(&a.name) && a.ignored.is_none() {
            a.ignored = Some(IgnoreReason::IllegalBridgeName);
        }
        let ghost prev_out = out@;
        out.push(a);
        proof {
            assert(avs(out@)[k as int] == out@[k as int]@);
            assert(avs(out@)[k as int] == name_checked(s, k as int));
            assert(forall|p: int| 0 <= p < k ==> #[trigger] avs(out@)[p] == avs(prev_out)[p]);
        }
    }
    out
}

} // verus!
