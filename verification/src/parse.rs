use crate::api::{avs, has_name, Api, ApiV, IgnoreReason, Payload, PayloadV};
use crate::apivec::ApiVec;
use crate::config::ParseCallbackResults;
use crate::errors::{ConvertError, ConvertErrorFromCpp};
use crate::name::{CppOriginalName, QualifiedName};
use vstd::prelude::*;

verus! {

/// One declaration as the external parser hands it over: the resolved
/// qualified name, the C++ spelling when it differs, the kind-specific
/// payload, and whether the caller asked to keep it unconditionally.
#[derive(Debug)]
pub struct RawItem {
    pub name: QualifiedName,
    pub cpp_name: Option<CppOriginalName>,
    pub payload: Payload,
    pub always_keep: bool,
}

pub struct RawItemV {
    pub name: Seq<char>,
    pub cpp_name: Option<Seq<char>>,
    pub payload: PayloadV,
    pub always_keep: bool,
}

impl View for RawItem {
    type V = RawItemV;

    open spec fn view(&self) -> RawItemV {
        RawItemV {
            name: self.name@,
            cpp_name: match self.cpp_name {
                Some(ref c) => Some(c@),
                None => None,
            },
            payload: self.payload@,
            always_keep: self.always_keep,
        }
    }
}

pub open spec fn raw_views(s: Seq<RawItem>) -> Seq<RawItemV> {
    s.map_values(|it: RawItem| it@)
}

pub open spec fn raw_names_uniq(s: Seq<RawItemV>) -> bool {
    forall|i: int, j: int| 0 <= i < j < s.len() ==> s[i].name != s[j].name
}

/// The per-item unsupported mark ingestion attaches from the parser's
/// callback reports, if any.
pub open spec fn fatal_mark(cb: &ParseCallbackResults, n: Seq<char>) -> Option<IgnoreReason> {
    if cb.discards_v(n) {
        Some(IgnoreReason::UnusedTemplateParam)
    } else if !cb.is_public_v(n) {
        Some(IgnoreReason::NonPublicNestedType)
    } else {
        None
    }
}

/// What one raw item becomes in the initial snapshot: a record with no
/// annotation slot filled, except for the fatal-attribute mark.
pub open spec fn ingested(raw: RawItemV, cb: &ParseCallbackResults, a: ApiV) -> bool {
    a.name == raw.name && a.cpp_name == raw.cpp_name && a.payload == raw.payload
        && a.always_keep == raw.always_keep && a.class is None && a.shape is None
        && a.ctor_deps.len() == 0 && a.ignored == fatal_mark(cb, raw.name)
}

/// Ingestion: turn the raw declaration stream into the initial record
/// collection. An empty stream is a hard configuration error; a
/// duplicated qualified name is a validation error, never a silent
/// merge. Items whose callback reports show a fatal attribute are kept
/// but marked unsupported, to be cascaded away later.
pub fn parse_items(items: Vec<RawItem>, callback_results: &ParseCallbackResults) -> (r: Result<
    ApiVec,
    ConvertError,
>)
    ensures
        (r is Ok) == (items@.len() > 0 && raw_names_uniq(raw_views(items@))),
        match r {
            Ok(apis) => apis@.len() == items@.len() && (forall|i: int|
                0 <= i < items@.len() ==> ingested(
                    raw_views(items@)[i],
                    callback_results,
                    avs(apis@)[i],
                )),
            Err(e) => match e {
                ConvertError::NoContent => items@.len() == 0,
                ConvertError::Cpp(c) => items@.len() > 0 && !raw_names_uniq(raw_views(items@)) && (
                c matches ConvertErrorFromCpp::DuplicateName(_)),
            },
        },
{
    if items.is_empty() {
        return Err(ConvertError::NoContent);
    }
    let ghost orig = raw_views(items@);
    let mut rest = items;
    let mut apis = ApiVec::new();
    while rest.len() > 0
        invariant
            orig.len() == apis@.len() + rest@.len(),
            raw_views(rest@) == orig.subrange(apis@.len() as int, orig.len() as int),
            forall|p: int|
                0 <= p < apis@.len() ==> ingested(orig[p], callback_results, avs(apis@)[p]),
            forall|p: int| 0 <= p < apis@.len() ==> avs(apis@)[p].name == orig[p].name,
            forall|p: int, q: int|
                0 <= p < q < apis@.len() ==> avs(apis@)[p].name != avs(apis@)[q].name,
        decreases rest@.len(),
    {
        let ghost k = apis@.len() as int;
        let ghost prev_rest = rest@;
        let it = rest.remove(0);
        proof {
            assert(it@ == raw_views(prev_rest)[0]);
            assert(it@ == orig[k]);
            assert(raw_views(rest@) =~= orig.subrange(k + 1, orig.len() as int)) by {
                assert(forall|i: int|
                    0 <= i < rest@.len() ==> #[trigger] raw_views(rest@)[i] == raw_views(
                        prev_rest,
                    )[i + 1]);
            }
        }
        if apis.contains_name(&it.name) {
            proof {
                assert(has_name(avs(apis@), it.name@));
                let p = choose|i: int|
                    0 <= i < avs(apis@).len() && avs(apis@)[i].name == it.name@;
                assert(avs(apis@)[p].name == orig[p].name);
                assert(orig[k].name == it.name@);
                assert(0 <= p < k < orig.len());
                assert(orig[p].name == orig[k].name);
                assert(!raw_names_uniq(orig));
            }
            return Err(ConvertError::Cpp(ConvertErrorFromCpp::DuplicateName(it.name)));
        }
        let ignored = match crate::check_for_fatal_attrs(callback_results, &it.name) {
            Ok(_) => None,
            Err(e) => match e.0 {
                ConvertErrorFromCpp::UnusedTemplateParam => Some(IgnoreReason::UnusedTemplateParam),
                _ => Some(IgnoreReason::NonPublicNestedType),
            },
        };
        let mut a = Api::plain(it.name, it.cpp_name, it.payload, it.always_keep);
        a.ignored = ignored;
        let ghost prev_apis = apis@;
        apis.push(a);
        proof {
            assert(avs(apis@)[k] == apis@[k]@);
            assert(ingested(orig[k], callback_results, avs(apis@)[k]));
            assert(forall|p: int| 0 <= p < k ==> #[trigger] avs(apis@)[p] == avs(prev_apis)[p]);
            assert(forall|p: int| 0 <= p < k ==> avs(apis@)[p].name != avs(apis@)[k].name);
        }
    }
    proof {
        assert(apis@.len() == orig.len());
        assert(raw_names_uniq(orig)) by {
            assert(forall|p: int|
                0 <= p < orig.len() ==> orig[p].name == #[trigger] avs(apis@)[p].name);
        }
    }
    Ok(apis)
}

} // verus!
