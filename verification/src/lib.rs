#![verifier::loop_isolation(false)]
//! A compiler-like pipeline that turns a parsed description of foreign
//! (C++-style) declarations into two synchronized artifacts: a shim layer
//! in the foreign language and bridge declarations for the host language.
//! The work happens in an ordered sequence of whole-program analyses over
//! a collection of declaration records, followed by dependency-graph
//! reachability pruning and a dual-target code generator.

pub mod api;
pub mod abstract_types;
pub mod allocators;
pub mod apivec;
pub mod casts;
pub mod check_names;
pub mod codegen;
pub mod config;
pub mod ctor_deps;
pub mod ctypes;
pub mod errors;
pub mod fun;
pub mod gc;
pub mod hopeless;
pub mod name;
pub mod parse;
pub mod pod;
pub mod reach;
pub mod remove_ignored;
pub mod tdef;

use crate::apivec::ApiVec;
use crate::config::{IncludeCppConfig, ParseCallbackResults};
use crate::errors::{ConvertErrorFromCpp, ConvertErrorWithContext, ErrorContext};
use crate::name::QualifiedName;
use vstd::prelude::*;

verus! {

/// One entry of the phase trace: which phase just finished and, for
/// every record of its output snapshot in collection order, the name
/// and the observable annotations (classification and unsupported
/// mark).
#[derive(Debug)]
pub struct PhaseLog {
    pub label: String,
    pub api_names: Vec<QualifiedName>,
    pub api_classes: Vec<Option<crate::api::TypeClass>>,
    pub api_ignored: Vec<Option<crate::api::IgnoreReason>>,
}

/// An injectable trace sink recording the collection at each phase
/// boundary, for callers that want to observe intermediate snapshots.
#[derive(Debug)]
pub struct PhaseTrace {
    pub entries: Vec<PhaseLog>,
}

impl PhaseTrace {
    pub fn new() -> (r: PhaseTrace)
        ensures
            r.entries@.len() == 0,
    {
        PhaseTrace { entries: Vec::new() }
    }
}

/// Converts ingested foreign declarations into the two bridge outputs.
/// Most of the work happens in the analysis phases `convert` chains.
#[derive(Debug)]
pub struct BridgeConverter {
    pub include_list: Vec<String>,
    pub config: IncludeCppConfig,
}

impl BridgeConverter {
    pub fn new(include_list: Vec<String>, config: IncludeCppConfig) -> (r: Self)
        ensures
            r.include_list == include_list,
            r.config == config,
    {
        Self { include_list, config }
    }

    /// Convert the ingested foreign declarations into the two bridge
    /// outputs: run the whole analysis pipeline with this converter's
    /// configuration, then hand the pruned collection to the dual code
    /// generator, threading the generated shim header name end to end.
    pub fn convert(
        &self,
        items: Vec<crate::parse::RawItem>,
        callback_results: &ParseCallbackResults,
        unsafe_policy: &crate::config::UnsafePolicy,
        codegen_options: &crate::config::CodegenOptions,
        inclusions: &str,
        trace: &mut PhaseTrace,
    ) -> (r: Result<crate::codegen::CodegenResults, crate::errors::ConvertError>)
        ensures
            r matches Err(crate::errors::ConvertError::NoContent) <==> items@.len() == 0,
            (r is Ok) == (items@.len() > 0 && crate::parse::raw_names_uniq(
                crate::parse::raw_views(items@),
            )),
            (match r {
                Err(crate::errors::ConvertError::Cpp(c)) => items@.len() > 0
                    && !crate::parse::raw_names_uniq(crate::parse::raw_views(items@)) && (
                c matches crate::errors::ConvertErrorFromCpp::DuplicateName(_)),
                _ => true,
            }),
            r matches Ok(res) ==> (exists|outv: Seq<crate::api::ApiV>|
                {
                    &&& #[trigger] pipeline_rel(
                        crate::parse::raw_views(items@),
                        callback_results,
                        &self.config,
                        codegen_options.force_wrapper_gen,
                        *unsafe_policy is AllFunctionsSafe,
                        outv,
                    )
                    &&& !crate::codegen::any_missing(outv)
                    &&& res.cxxgen_header_name@ == codegen_options.cxxgen_header_name@
                    &&& (res.cpp is Some) == crate::codegen::has_shim_record(outv)
                    &&& (match res.cpp {
                        Some(p) => p.header_name@ == codegen_options.cxxgen_header_name@,
                        None => true,
                    })
                    &&& crate::codegen::hd_views(res.rs@) == crate::codegen::rs_decls_spec(
                        outv,
                        self.include_list@.map_values(|h: String| h@),
                        if crate::codegen::has_shim_record(outv) {
                            Some(codegen_options.cxxgen_header_name@)
                        } else {
                            None
                        },
                    )
                    &&& crate::codegen::rs_references_header(
                        crate::codegen::hd_views(res.rs@),
                        codegen_options.cxxgen_header_name@,
                    ) == crate::codegen::has_shim_record(outv)
                }),
            r is Ok ==> final(trace).entries@.len() == old(trace).entries@.len() + 13 && (forall|
                p: int,
            |
                0 <= p < old(trace).entries@.len() ==> final(trace).entries@[p] == old(
                    trace,
                ).entries@[p]),
            r matches Err(crate::errors::ConvertError::NoContent) ==> final(trace).entries@ == old(
                trace,
            ).entries@,
    {
        let apis = match run_analysis_pipeline(
            items,
            callback_results,
            unsafe_policy,
            &self.config,
            codegen_options.force_wrapper_gen,
            trace,
        ) {
            Ok(apis) => apis,
            Err(e) => {
                return Err(e);
            },
        };
        match crate::codegen::generate(
            &apis,
            &self.include_list,
            inclusions,
            codegen_options.cxxgen_header_name.as_str(),
        ) {
            Ok(res) => {
                proof {
                    assert(!crate::codegen::any_missing(avs(apis@)));
                }
                Ok(res)
            },
            Err(e) => {
                // The pipeline annotates every record it keeps, so the
                // generator's invariant check can never trip here.
                proof {
                    assert(crate::codegen::any_missing(avs(apis@)));
                    assert(false);
                }
                Err(crate::errors::ConvertError::Cpp(e))
            },
        }
    }

    /// Record one phase boundary in the trace: the label and, for
    /// every record of the snapshot in collection order, its name,
    /// classification and unsupported mark.
    pub fn dump_apis(label: &str, apis: &ApiVec, trace: &mut PhaseTrace)
        ensures
            final(trace).entries@.len() == old(trace).entries@.len() + 1,
            final(trace).entries@.subrange(0, old(trace).entries@.len() as int) == old(
                trace,
            ).entries@,
            final(trace).entries@.last().label@ == label@,
            final(trace).entries@.last().api_names@.len() == apis@.len(),
            final(trace).entries@.last().api_classes@.len() == apis@.len(),
            final(trace).entries@.last().api_ignored@.len() == apis@.len(),
            forall|i: int|
                0 <= i < apis@.len() ==> final(trace).entries@.last().api_names@[i]@ == crate::api::avs(
                    apis@,
                )[i].name,
            forall|i: int|
                0 <= i < apis@.len() ==> final(trace).entries@.last().api_classes@[i]
                    == crate::api::avs(apis@)[i].class,
            forall|i: int|
                0 <= i < apis@.len() ==> final(trace).entries@.last().api_ignored@[i]
                    == crate::api::avs(apis@)[i].ignored,
    {
        let mut names: Vec<QualifiedName> = Vec::new();
        let mut classes: Vec<Option<crate::api::TypeClass>> = Vec::new();
        let mut ignored: Vec<Option<crate::api::IgnoreReason>> = Vec::new();
        let mut i: usize = 0;
        let n = apis.len();
        while i < n
            invariant
                i <= n,
                n == apis@.len(),
                names@.len() == i,
                classes@.len() == i,
                ignored@.len() == i,
                forall|p: int| 0 <= p < i ==> names@[p]@ == crate::api::avs(apis@)[p].name,
                forall|p: int| 0 <= p < i ==> classes@[p] == crate::api::avs(apis@)[p].class,
                forall|p: int| 0 <= p < i ==> ignored@[p] == crate::api::avs(apis@)[p].ignored,
            decreases n - i,
        {
            let a = apis.get(i);
            names.push(a.name.clone());
            classes.push(a.class);
            ignored.push(a.ignored);
            proof {
                assert(crate::api::avs(apis@)[i as int] == apis@[i as int]@);
            }
            i = i + 1;
        }
        let entry = PhaseLog {
            label: label.to_owned(),
            api_names: names,
            api_classes: classes,
            api_ignored: ignored,
        };
        trace.entries.push(entry);
    }
}

/// Some attributes reported by the external parser mean an item can
/// never be bridged: a discarded template parameter, or an effective
/// visibility that is not public.
pub fn check_for_fatal_attrs(callback_results: &ParseCallbackResults, name: &QualifiedName) -> (r:
    Result<(), ConvertErrorWithContext>)
    ensures
        (r is Ok) == (!callback_results.discards_v(name@) && callback_results.is_public_v(name@)),
        match r {
            Ok(_) => true,
            Err(e) => (if callback_results.discards_v(name@) {
                e.0 is UnusedTemplateParam
            } else {
                e.0 is NonPublicNestedType
            }) && (match e.1 {
                Some(ctx) => crate::name::is_final_segment(name@, ctx.item@),
                None => false,
            }),
        },
{
    if callback_results.discards_template_param(name) {
        Err(
            ConvertErrorWithContext(
                ConvertErrorFromCpp::UnusedTemplateParam,
                Some(ErrorContext::new_for_item(name.get_final_ident())),
            ),
        )
    } else if !callback_results.reported_public(name) {
        Err(
            ConvertErrorWithContext(
                ConvertErrorFromCpp::NonPublicNestedType,
                Some(ErrorContext::new_for_item(name.get_final_ident())),
            ),
        )
    } else {
        Ok(())
    }
}

} // verus!

use crate::api::{
    avs, kept_prefix, uniq_names, ApiV, IgnoreReason, PayloadV, TypeClass,
};
use crate::codegen::{
    any_missing, has_shim_record, hd_views, rs_decls_spec, rs_references_header, CodegenResults,
};
use crate::parse::{raw_names_uniq, raw_views, RawItem, RawItemV};

verus! {

/// What ingestion makes of one raw item: the fields carried over, no
/// annotation slot filled, the fatal-attribute mark attached.
pub open spec fn ingested_rec(it: RawItemV, cb: &ParseCallbackResults) -> ApiV {
    ApiV {
        name: it.name,
        cpp_name: it.cpp_name,
        payload: it.payload,
        class: None,
        shape: None,
        ctor_deps: Seq::empty(),
        ignored: crate::parse::fatal_mark(cb, it.name),
        always_keep: it.always_keep,
    }
}

/// The snapshot after the functional front of the pipeline: ingestion,
/// typedef target conversion, value-semantics classification, and
/// hopeless-typedef marking.
pub open spec fn front_snapshot(
    raw: Seq<RawItemV>,
    cb: &ParseCallbackResults,
    cfg: &IncludeCppConfig,
) -> Seq<ApiV> {
    let s0 = Seq::new(raw.len(), |i: int| ingested_rec(raw[i], cb));
    let s1 = crate::tdef::convert_all_v(s0);
    let s2 = Seq::new(s1.len(), |i: int| crate::pod::pod_annotated(s1, cb, cfg, i));
    Seq::new(s2.len(), |i: int| crate::hopeless::hopeless_marked(s2, i))
}

/// The relational shape of cast insertion (its exact contract).
pub open spec fn casts_appended(pre: Seq<ApiV>, post: Seq<ApiV>) -> bool {
    &&& post.len() >= pre.len()
    &&& forall|i: int| 0 <= i < pre.len() ==> post[i] == pre[i]
    &&& forall|k: int|
        pre.len() <= k < post.len() ==> crate::casts::is_synth_cast(#[trigger] post[k], pre)
    &&& uniq_names(post)
}

/// The relational shape of allocator synthesis (its exact contract).
pub open spec fn allocs_appended(pre: Seq<ApiV>, post: Seq<ApiV>) -> bool {
    &&& post.len() >= pre.len()
    &&& forall|i: int| 0 <= i < pre.len() ==> post[i] == pre[i]
    &&& forall|k: int|
        pre.len() <= k < post.len() ==> crate::allocators::is_synth_alloc(
            #[trigger] post[k],
            pre,
        ) || crate::allocators::is_synth_free(post[k], pre)
    &&& forall|d: int|
        0 <= d < pre.len() && crate::allocators::is_opaque_record(#[trigger] pre[d])
            ==> crate::api::has_name(post, crate::api::alloc_name_v(pre[d].name))
            && crate::api::has_name(post, crate::api::free_name_v(pre[d].name))
    &&& uniq_names(post)
}

/// The relational shape of function shaping (its exact contract).
pub open spec fn fns_shaped(pre: Seq<ApiV>, post: Seq<ApiV>, force: bool, safe: bool) -> bool {
    &&& post.len() >= pre.len()
    &&& forall|i: int|
        0 <= i < pre.len() ==> post[i] == crate::fun::fn_shaped(pre, i, force, safe)
    &&& forall|k: int|
        pre.len() <= k < post.len() ==> crate::fun::is_synth_wrapper(
            #[trigger] post[k],
            pre,
            force,
        )
    &&& uniq_names(post)
}

pub open spec fn abstract_all(f: Seq<ApiV>) -> Seq<ApiV> {
    Seq::new(f.len(), |i: int| crate::abstract_types::abstract_marked(f, i))
}

/// The relational shape of constructor-dependency decoration.
pub open spec fn decorated_rel(pre: Seq<ApiV>, post: Seq<ApiV>) -> bool {
    post.len() == pre.len() && (forall|i: int|
        0 <= i < pre.len() ==> crate::ctor_deps::ctor_decorated_ok(pre, i, #[trigger] post[i]))
}

/// The functional tail of the pipeline: silent discard, the name
/// check, the unsupported-dependent cascade, and reachability pruning.
pub open spec fn tail_snapshot(d: Seq<ApiV>, cfg: &IncludeCppConfig) -> Seq<ApiV> {
    let s9 = kept_prefix(
        d,
        Seq::new(d.len(), |i: int| crate::abstract_types::not_silently_ignored(d[i])),
        d.len() as int,
    );
    let s10 = Seq::new(s9.len(), |i: int| crate::check_names::name_checked(s9, i));
    let s11 = kept_prefix(s10, crate::remove_ignored::cascade_keep(s10), s10.len() as int);
    kept_prefix(s11, crate::gc::gc_keep(s11, cfg), s11.len() as int)
}

/// The relational shape of primitive-type recording (its exact
/// contract).
pub open spec fn ctypes_appended(pre: Seq<ApiV>, post: Seq<ApiV>) -> bool {
    &&& post.len() >= pre.len()
    &&& forall|i: int| 0 <= i < pre.len() ==> post[i] == pre[i]
    &&& forall|k: int|
        pre.len() <= k < post.len() ==> crate::ctypes::is_ctype_marker_rec(
            #[trigger] post[k],
            pre,
        )
    &&& forall|d: int, n: Seq<char>|
        #![trigger crate::ctypes::prim_mention(pre[d], n)]
        0 <= d < pre.len() && crate::ctypes::prim_mention(pre[d], n) ==> crate::api::has_name(
            post,
            n,
        )
    &&& uniq_names(post)
}

/// The whole analysis pipeline relates its input stream to its output
/// snapshot: the functional front, then cast insertion, allocator
/// synthesis and function shaping (each appending justified synthesized
/// records), abstract marking, constructor-dependency decoration, the
/// functional pruning tail, and primitive-type recording.
pub open spec fn pipeline_rel(
    raw: Seq<RawItemV>,
    cb: &ParseCallbackResults,
    cfg: &IncludeCppConfig,
    force: bool,
    safe: bool,
    outv: Seq<ApiV>,
) -> bool {
    exists|c: Seq<ApiV>, l: Seq<ApiV>, f: Seq<ApiV>, d: Seq<ApiV>|
        {
            &&& #[trigger] casts_appended(front_snapshot(raw, cb, cfg), c)
            &&& #[trigger] allocs_appended(c, l)
            &&& #[trigger] fns_shaped(l, f, force, safe)
            &&& #[trigger] decorated_rel(abstract_all(f), d)
            &&& ctypes_appended(tail_snapshot(d, cfg), outv)
        }
}

/// The analysis pipeline, end to end: ingest the raw declaration
/// stream, then run the ordered analyses — typedef target conversion,
/// value-semantics classification, hopeless-typedef marking, cast
/// insertion, allocator synthesis, function shaping, abstract-type
/// marking, constructor-dependency decoration, the silent discard of
/// members of abstract types, the name-compatibility check, the
/// unsupported-dependent cascade and reachability pruning — each
/// consuming its input snapshot and producing the next, with a trace
/// entry at every phase boundary. Fails only when ingestion rejects
/// the stream: an empty module, or a duplicated qualified name.
pub fn run_analysis_pipeline(
    items: Vec<RawItem>,
    callback_results: &ParseCallbackResults,
    unsafe_policy: &crate::config::UnsafePolicy,
    config: &IncludeCppConfig,
    force_wrapper_gen: bool,
    trace: &mut PhaseTrace,
) -> (r: Result<ApiVec, crate::errors::ConvertError>)
    ensures
        (r is Ok) == (items@.len() > 0 && raw_names_uniq(raw_views(items@))),
        r matches Err(crate::errors::ConvertError::NoContent) <==> items@.len() == 0,
        (match r {
            Err(crate::errors::ConvertError::Cpp(c)) => items@.len() > 0 && !raw_names_uniq(
                raw_views(items@),
            ) && (c matches crate::errors::ConvertErrorFromCpp::DuplicateName(_)),
            _ => true,
        }),
        r matches Ok(apis) ==> pipeline_rel(
            raw_views(items@),
            callback_results,
            config,
            force_wrapper_gen,
            *unsafe_policy is AllFunctionsSafe,
            avs(apis@),
        ),
        r matches Ok(apis) ==> !any_missing(avs(apis@)),
        r is Ok ==> final(trace).entries@.len() == old(trace).entries@.len() + 13 && (forall|
            p: int,
        |
            0 <= p < old(trace).entries@.len() ==> final(trace).entries@[p] == old(
                trace,
            ).entries@[p]),
        r is Err ==> final(trace).entries@ == old(trace).entries@,
{
    let ghost raw = raw_views(items@);
    let ghost l0 = trace.entries@.len() as int;
    let ghost old_entries = trace.entries@;
    let safe = match unsafe_policy {
        crate::config::UnsafePolicy::AllFunctionsSafe => true,
        crate::config::UnsafePolicy::AllFunctionsUnsafe => false,
    };
    let apis = match crate::parse::parse_items(items, callback_results) {
        Ok(apis) => apis,
        Err(e) => {
            return Err(e);
        },
    };
    BridgeConverter::dump_apis("parsing", &apis, trace);
    proof {
        assert(forall|p: int| 0 <= p < l0 ==> trace.entries@[p] == old_entries[p]);
    }
    let ghost s0 = Seq::new(raw.len(), |i: int| ingested_rec(raw[i], callback_results));
    proof {
        assert(avs(apis@) =~= s0) by {
            assert forall|i: int| 0 <= i < raw.len() implies avs(apis@)[i] == s0[i] by {
                assert(crate::parse::ingested(raw[i], callback_results, avs(apis@)[i]));
                assert(avs(apis@)[i].ctor_deps =~= Seq::<Seq<char>>::empty());
            }
        }
        assert(uniq_names(avs(apis@)));
    }
    let apis = crate::tdef::convert_typedef_targets(config, apis, callback_results);
    let ghost s1 = crate::tdef::convert_all_v(s0);
    proof {
        assert(avs(apis@) == s1);
        assert(uniq_names(avs(apis@))) by {
            assert(forall|p: int|
                0 <= p < s0.len() ==> (#[trigger] avs(apis@)[p]).name == s0[p].name);
        }
    }
    BridgeConverter::dump_apis("typedefs", &apis, trace);
    proof {
        assert(forall|p: int| 0 <= p < l0 ==> trace.entries@[p] == old_entries[p]);
    }
    let apis = crate::pod::analyze_pod_apis(apis, config, callback_results);
    let ghost s2 = Seq::new(s1.len(), |i: int| crate::pod::pod_annotated(s1, callback_results, config, i));
    proof {
        assert(avs(apis@) =~= s2);
        assert(uniq_names(avs(apis@))) by {
            assert(forall|p: int|
                0 <= p < s1.len() ==> (#[trigger] avs(apis@)[p]).name == s1[p].name);
        }
    }
    BridgeConverter::dump_apis("pod analysis", &apis, trace);
    proof {
        assert(forall|p: int| 0 <= p < l0 ==> trace.entries@[p] == old_entries[p]);
    }
    let apis = crate::hopeless::replace_hopeless_typedef_targets(config, apis);
    let ghost s3 = Seq::new(s2.len(), |i: int| crate::hopeless::hopeless_marked(s2, i));
    proof {
        assert(avs(apis@) =~= s3);
        assert(s3 == front_snapshot(raw, callback_results, config));
        assert(uniq_names(avs(apis@))) by {
            assert(forall|p: int|
                0 <= p < s2.len() ==> (#[trigger] avs(apis@)[p]).name == s2[p].name);
        }
    }
    BridgeConverter::dump_apis("replacing hopeless typedefs", &apis, trace);
    proof {
        assert(forall|p: int| 0 <= p < l0 ==> trace.entries@[p] == old_entries[p]);
    }
    let apis = crate::casts::add_casts(apis);
    let ghost sc = avs(apis@);
    proof {
        assert(casts_appended(s3, sc));
    }
    BridgeConverter::dump_apis("adding casts", &apis, trace);
    proof {
        assert(forall|p: int| 0 <= p < l0 ==> trace.entries@[p] == old_entries[p]);
    }
    let apis = crate::allocators::create_alloc_and_frees(apis);
    let ghost sl = avs(apis@);
    proof {
        assert(allocs_appended(sc, sl));
    }
    BridgeConverter::dump_apis("adding allocators", &apis, trace);
    proof {
        assert(forall|p: int| 0 <= p < l0 ==> trace.entries@[p] == old_entries[p]);
    }
    let apis = crate::fun::analyze_functions(apis, unsafe_policy, config, force_wrapper_gen);
    let ghost sf = avs(apis@);
    proof {
        assert(fns_shaped(sl, sf, force_wrapper_gen, safe));
    }
    BridgeConverter::dump_apis("analyze fns", &apis, trace);
    proof {
        assert(forall|p: int| 0 <= p < l0 ==> trace.entries@[p] == old_entries[p]);
    }
    let apis = crate::abstract_types::mark_types_abstract(apis);
    proof {
        assert(avs(apis@) =~= abstract_all(sf));
    }
    BridgeConverter::dump_apis("marking abstract", &apis, trace);
    proof {
        assert(forall|p: int| 0 <= p < l0 ==> trace.entries@[p] == old_entries[p]);
    }
    let apis = crate::ctor_deps::decorate_types_with_constructor_deps(apis);
    let ghost sd = avs(apis@);
    proof {
        assert(decorated_rel(abstract_all(sf), sd));
    }
    BridgeConverter::dump_apis("adding constructor deps", &apis, trace);
    proof {
        assert(forall|p: int| 0 <= p < l0 ==> trace.entries@[p] == old_entries[p]);
    }
    let apis = crate::abstract_types::discard_ignored_functions(apis);
    let ghost dkeep = Seq::new(sd.len(), |i: int| crate::abstract_types::not_silently_ignored(sd[i]));
    let ghost s9 = kept_prefix(sd, dkeep, sd.len() as int);
    proof {
        assert(avs(apis@) == s9);
    }
    BridgeConverter::dump_apis("ignoring ignorable fns", &apis, trace);
    proof {
        assert(forall|p: int| 0 <= p < l0 ==> trace.entries@[p] == old_entries[p]);
    }
    let apis = crate::check_names::check_names(apis);
    let ghost s10 = Seq::new(s9.len(), |i: int| crate::check_names::name_checked(s9, i));
    proof {
        assert(avs(apis@) =~= s10);
    }
    BridgeConverter::dump_apis("checking names", &apis, trace);
    proof {
        assert(forall|p: int| 0 <= p < l0 ==> trace.entries@[p] == old_entries[p]);
    }
    let apis = crate::remove_ignored::filter_apis_by_ignored_dependents(apis);
    let ghost s11 = kept_prefix(s10, crate::remove_ignored::cascade_keep(s10), s10.len() as int);
    proof {
        assert(avs(apis@) == s11);
    }
    BridgeConverter::dump_apis("removing ignored dependents", &apis, trace);
    proof {
        assert(forall|p: int| 0 <= p < l0 ==> trace.entries@[p] == old_entries[p]);
    }
    let apis = crate::gc::filter_apis_by_following_edges_from_allowlist(apis, config);
    let ghost s12 = kept_prefix(s11, crate::gc::gc_keep(s11, config), s11.len() as int);
    proof {
        assert(avs(apis@) == s12);
        assert(avs(apis@) == tail_snapshot(sd, config));
        // Uniqueness survives every pruning and marking step.
        assert(uniq_names(sd)) by {
            assert(forall|p: int| 0 <= p < sd.len() ==> (#[trigger] sd[p]).name == sf[p].name) by {
                assert(forall|p: int|
                    0 <= p < sd.len() ==> crate::ctor_deps::ctor_decorated_ok(
                        abstract_all(sf),
                        p,
                        #[trigger] sd[p],
                    ));
            }
        }
        crate::api::lemma_kept_prefix_uniq(sd, dkeep, sd.len() as int);
        assert(uniq_names(s10)) by {
            assert(forall|p: int| 0 <= p < s10.len() ==> (#[trigger] s10[p]).name == s9[p].name);
        }
        crate::api::lemma_kept_prefix_uniq(
            s10,
            crate::remove_ignored::cascade_keep(s10),
            s10.len() as int,
        );
        crate::api::lemma_kept_prefix_uniq(
            s11,
            crate::gc::gc_keep(s11, config),
            s11.len() as int,
        );
        assert(uniq_names(avs(apis@)));
    }
    let mut apis = apis;
    crate::ctypes::append_ctype_information(&mut apis);
    proof {
        assert(ctypes_appended(s12, avs(apis@)));
    }
    BridgeConverter::dump_apis("GC", &apis, trace);
    proof {
        assert(forall|p: int| 0 <= p < l0 ==> trace.entries@[p] == old_entries[p]);
        assert(pipeline_rel(
            raw,
            callback_results,
            config,
            force_wrapper_gen,
            safe,
            avs(apis@),
        )) by {
            assert(casts_appended(front_snapshot(raw, callback_results, config), sc)
                && allocs_appended(sc, sl) && fns_shaped(sl, sf, force_wrapper_gen, safe)
                && decorated_rel(abstract_all(sf), sd) && ctypes_appended(
                tail_snapshot(sd, config),
                avs(apis@),
            ));
        }
        // No record reaches code generation without its annotation:
        // classification and shape are filled before the pruning tail,
        // and every unsupported function falls to discard or cascade.
        assert forall|i: int|
            0 <= i < sd.len() implies (((#[trigger] sd[i]).payload is Record ==> sd[i].class is Some)
            && (sd[i].payload is Function ==> sd[i].shape is Some || sd[i].ignored is Some)) by {
            assert(crate::ctor_deps::ctor_decorated_ok(abstract_all(sf), i, sd[i]));
            let b = abstract_all(sf)[i];
            assert(b == crate::abstract_types::abstract_marked(sf, i));
            if i < sl.len() {
                assert(sf[i] == crate::fun::fn_shaped(sl, i, force_wrapper_gen, safe));
                if i < sc.len() {
                    assert(sl[i] == sc[i]);
                    if i < s3.len() {
                        assert(sc[i] == s3[i]);
                        assert(s3[i] == crate::hopeless::hopeless_marked(s2, i));
                        assert(s2[i] == crate::pod::pod_annotated(
                            s1,
                            callback_results,
                            config,
                            i,
                        ));
                    }
                }
            }
        }
        assert forall|p: int|
            0 <= p < avs(apis@).len() implies !crate::codegen::missing_annotation_at(
            avs(apis@),
            p,
        ) by {
            if p < s12.len() {
                assert(avs(apis@)[p] == s12[p]);
                crate::api::lemma_kept_prefix_src(
                    s11,
                    crate::gc::gc_keep(s11, config),
                    s11.len() as int,
                    p,
                );
                let j11 = choose|j: int|
                    0 <= j < s11.len() as int && (#[trigger] crate::gc::gc_keep(s11, config)[j])
                        && s11[j] == s12[p];
                crate::api::lemma_kept_prefix_src(
                    s10,
                    crate::remove_ignored::cascade_keep(s10),
                    s10.len() as int,
                    j11,
                );
                let j10 = choose|j: int|
                    0 <= j < s10.len() as int && (#[trigger] crate::remove_ignored::cascade_keep(
                        s10,
                    )[j]) && s10[j] == s11[j11];
                assert(!crate::remove_ignored::cascade_removed(s10, j10));
                if crate::remove_ignored::cascade_seed(s10, j10) {
                    crate::remove_ignored::cascade_seed_removed(s10, j10);
                }
                assert(!crate::remove_ignored::cascade_seed(s10, j10));
                assert(s10[j10] == crate::check_names::name_checked(s9, j10));
                crate::api::lemma_kept_prefix_src(sd, dkeep, sd.len() as int, j10);
                let jd = choose|j: int|
                    0 <= j < sd.len() as int && (#[trigger] dkeep[j]) && sd[j] == s9[j10];
                assert(sd[jd].payload is Record ==> sd[jd].class is Some);
                assert(sd[jd].payload is Function ==> sd[jd].shape is Some
                    || sd[jd].ignored is Some);
                assert(s10[j10].payload == sd[jd].payload && s10[j10].class == sd[jd].class
                    && s10[j10].shape == sd[jd].shape);
                if s10[j10].payload is Function && s10[j10].shape is None {
                    assert(sd[jd].ignored is Some);
                    assert(crate::abstract_types::not_silently_ignored(sd[jd]));
                    assert(s10[j10].ignored is Some);
                    assert(crate::remove_ignored::cascade_seed(s10, j10));
                    assert(false);
                }
            } else {
                assert(crate::ctypes::is_ctype_marker_rec(avs(apis@)[p], s12));
            }
        }
        assert(!any_missing(avs(apis@)));
    }
    Ok(apis)
}

} // verus!
