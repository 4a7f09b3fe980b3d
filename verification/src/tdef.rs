use crate::api::{avs, Api, ApiV, Payload, PayloadV, TypeRef, TypeRefV};
use crate::apivec::ApiVec;
use crate::config::{IncludeCppConfig, ParseCallbackResults};
use crate::name::QualifiedName;
use vstd::prelude::*;

verus! {

/// The bridge-convention spelling of a type name: parser-internal
/// spellings of the well-known foreign standard types are rewritten to
/// their bridge-native names, everything else is left alone.
pub open spec fn bridge_spelling(n: Seq<char>) -> Seq<char> {
    if n == "root::std::unique_ptr"@ {
        "UniquePtr"@
    } else if n == "root::std::shared_ptr"@ {
        "SharedPtr"@
    } else if n == "root::std::weak_ptr"@ {
        "WeakPtr"@
    } else if n == "root::std::basic_string"@ {
        "CxxString"@
    } else if n == "root::std::vector"@ {
        "CxxVector"@
    } else {
        n
    }
}

pub open spec fn convert_tref_v(t: TypeRefV) -> TypeRefV {
    TypeRefV { name: bridge_spelling(t.name), primitive: t.primitive, shape: t.shape }
}

/// What typedef-target conversion does to one record: only a typedef's
/// target is rewritten, every other record is untouched.
pub open spec fn convert_record_v(a: ApiV) -> ApiV {
    match a.payload {
        PayloadV::Typedef(t) => ApiV {
            name: a.name,
            cpp_name: a.cpp_name,
            payload: PayloadV::Typedef(convert_tref_v(t)),
            class: a.class,
            shape: a.shape,
            ctor_deps: a.ctor_deps,
            ignored: a.ignored,
            always_keep: a.always_keep,
        },
        _ => a,
    }
}

pub open spec fn convert_all_v(s: Seq<ApiV>) -> Seq<ApiV> {
    s.map_values(|a: ApiV| convert_record_v(a))
}

fn bridge_spelling_exec(n: &QualifiedName) -> (r: QualifiedName)
    ensures
        r@ == bridge_spelling(n@),
{
    let unique_ptr = "root::std::unique_ptr".to_owned();
    let shared_ptr = "root::std::shared_ptr".to_owned();
    let weak_ptr = "root::std::weak_ptr".to_owned();
    let basic_string = "root::std::basic_string".to_owned();
    let vector = "root::std::vector".to_owned();
    if n.text == unique_ptr {
        QualifiedName::from_path("UniquePtr")
    } else if n.text == shared_ptr {
        QualifiedName::from_path("SharedPtr")
    } else if n.text == weak_ptr {
        QualifiedName::from_path("WeakPtr")
    } else if n.text == basic_string {
        QualifiedName::from_path("CxxString")
    } else if n.text == vector {
        QualifiedName::from_path("CxxVector")
    } else {
        n.clone()
    }
}

fn convert_record(a: Api) -> (r: Api)
    ensures
        r@ == convert_record_v(a@),
{
    let Api { name, cpp_name, payload, class, shape, ctor_deps, ignored, always_keep } = a;
    let payload = match payload {
        Payload::Typedef(t) => {
            let nt = TypeRef {
                name: bridge_spelling_exec(&t.name),
                primitive: t.primitive,
                shape: t.shape,
            };
            Payload::Typedef(nt)
        },
        p => p,
    };
    Api { name, cpp_name, payload, class, shape, ctor_deps, ignored, always_keep }
}

/// Typedef target conversion: replace parser-internal spellings of the
/// well-known standard types with their bridge-convention spellings in
/// every typedef target. Names, order and every other record are kept.
pub fn convert_typedef_targets(
    config: &IncludeCppConfig,
    apis: ApiVec,
    callback_results: &ParseCallbackResults,
) -> (r: ApiVec)
    ensures
        r@.len() == apis@.len(),
        avs(r@) == convert_all_v(avs(apis@)),
{
    let ghost s = avs(apis@);
    let mut rest = apis;
    let mut out = ApiVec::new();
    while rest.len() > 0
        invariant
            s.len() == out@.len() + rest@.len(),
            avs(rest@) == s.subrange(out@.len() as int, s.len() as int),
            forall|p: int| 0 <= p < out@.len() ==> avs(out@)[p] == convert_record_v(s[p]),
        decreases rest@.len(),
    {
        let ghost k = out@.len() as int;
        let ghost prev_rest = rest@;
        let a = rest.remove_first();
        proof {
            assert(a@ == avs(prev_rest)[0]);
            assert(a@ == s[k]);
            assert(avs(rest@) =~= s.subrange(k + 1, s.len() as int)) by {
                assert(forall|i: int|
                    0 <= i < rest@.len() ==> #[trigger] avs(rest@)[i] == avs(prev_rest)[i + 1]);
            }
        }
        let c = convert_record(a);
        let ghost prev_out = out@;
        out.push(c);
        proof {
            assert(avs(out@)[k] == c@);
            assert(forall|p: int| 0 <= p < k ==> #[trigger] avs(out@)[p] == avs(prev_out)[p]);
        }
    }
    proof {
        assert(avs(out@) =~= convert_all_v(s));
    }
    out
}

proof fn lemma_spelling_idempotent(n: Seq<char>)
    ensures
        bridge_spelling(bridge_spelling(n)) == bridge_spelling(n),
{
    reveal_strlit("root::std::unique_ptr");
    reveal_strlit("root::std::shared_ptr");
    reveal_strlit("root::std::weak_ptr");
    reveal_strlit("root::std::basic_string");
    reveal_strlit("root::std::vector");
    reveal_strlit("UniquePtr");
    reveal_strlit("SharedPtr");
    reveal_strlit("WeakPtr");
    reveal_strlit("CxxString");
    reveal_strlit("CxxVector");
}

/// Typedef target conversion is idempotent: converting a collection
/// twice yields exactly the collection obtained by converting it once.
pub proof fn typedef_conversion_idempotent(s: Seq<ApiV>)
    ensures
        convert_all_v(convert_all_v(s)) == convert_all_v(s),
{
    assert forall|i: int| 0 <= i < s.len() implies convert_all_v(convert_all_v(s))[i]
        == convert_all_v(s)[i] by {
        match s[i].payload {
            PayloadV::Typedef(t) => {
                lemma_spelling_idempotent(t.name);
            },
            _ => {},
        }
    }
    assert(convert_all_v(convert_all_v(s)) =~= convert_all_v(s));
}

} // verus!
