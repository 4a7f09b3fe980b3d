use bridge_engine::abstract_types::{discard_ignored_functions, mark_types_abstract};
use bridge_engine::allocators::create_alloc_and_frees;
use bridge_engine::api::{
    Api, ArgSource, FnDetails, Param, Payload, SpecialMember, StructDetails, TypeClass, TypeRef,
    TypeShape,
};
use bridge_engine::apivec::ApiVec;
use bridge_engine::codegen::HostDecl;
use bridge_engine::config::{
    CallbackEntry, CodegenOptions, CppVisibility, IncludeCppConfig, ParseCallbackResults, UnsafePolicy,
};
use bridge_engine::errors::{ConvertError, ConvertErrorFromCpp};
use bridge_engine::fun::analyze_functions;
use bridge_engine::hopeless::replace_hopeless_typedef_targets;
use bridge_engine::name::{CppEffectiveName, CppOriginalName, Ident, QualifiedName};
use bridge_engine::parse::{parse_items, RawItem};
use bridge_engine::pod::analyze_pod_apis;
use bridge_engine::tdef::convert_typedef_targets;

fn qn(s: &str) -> QualifiedName {
    QualifiedName::from_path(s)
}

fn value_ref(name: &str, primitive: bool) -> TypeRef {
    TypeRef { name: qn(name), primitive, shape: TypeShape::Value }
}

fn no_callbacks() -> ParseCallbackResults {
    ParseCallbackResults { entries: Vec::new() }
}

fn empty_config() -> IncludeCppConfig {
    IncludeCppConfig { allowlist: Vec::new(), pod_requests: Vec::new() }
}

fn struct_record(name: &str, fields: Vec<TypeRef>) -> Api {
    Api::plain(
        qn(name),
        None,
        Payload::Record(StructDetails { fields, bases: Vec::new() }),
        false,
    )
}

fn plain_fn(params: Vec<Param>) -> FnDetails {
    FnDetails {
        params,
        ret: None,
        self_ty: None,
        special: SpecialMember::NotSpecial,
        is_pure_virtual: false,
        is_operator: false,
        ambiguous_overload: false,
    }
}

#[test]
fn effective_name_nesting() {
    let nested = CppEffectiveName::from_fully_qualified_name_for_subclass("Outer::Inner");
    assert!(nested.is_nested());
    assert_eq!(nested.final_segment_if_any(), Some("Inner"));
    assert_eq!(nested.to_string_for_cpp_generation(), "Outer::Inner");
    let flat = CppEffectiveName::from_rust_name(String::from("flat"));
    assert!(!flat.is_nested());
    assert_eq!(flat.final_segment_if_any(), None);
}

#[test]
fn effective_name_sources() {
    let orig = CppOriginalName::new(String::from("CppName"));
    let eff = CppEffectiveName::from_cpp_name_and_rust_name(Some(&orig), "RustName");
    assert_eq!(eff.to_string_for_cpp_generation(), "CppName");
    let eff2 = CppEffectiveName::from_cpp_name_and_rust_name(None, "RustName");
    assert_eq!(eff2.to_string_for_cpp_generation(), "RustName");
    let eff3 = CppEffectiveName::from_cxxbridge_name(&Ident::new(String::from("bridged")));
    assert_eq!(eff3.to_string_for_cpp_generation(), "bridged");
    let eff4 = CppEffectiveName::from_subclass_function_name(String::from("call_me"));
    assert_eq!(eff4.to_string_for_cpp_generation(), "call_me");
}

#[test]
fn effective_name_from_api_details() {
    let name = qn("ns::Widget");
    let eff = CppEffectiveName::from_api_details(&None, &name);
    assert_eq!(eff.to_string_for_cpp_generation(), "Widget");
    let orig = Some(CppOriginalName::new(String::from("RealWidget")));
    let eff2 = CppEffectiveName::from_api_details(&orig, &name);
    assert_eq!(eff2.to_string_for_cpp_generation(), "RealWidget");
}

#[test]
fn ingestion_rejects_empty_stream() {
    let r = parse_items(Vec::new(), &no_callbacks());
    assert!(matches!(r, Err(ConvertError::NoContent)));
}

#[test]
fn ingestion_rejects_duplicate_names() {
    let items = vec![
        RawItem { name: qn("A"), cpp_name: None, payload: Payload::EnumDecl, always_keep: false },
        RawItem { name: qn("A"), cpp_name: None, payload: Payload::ConstDecl, always_keep: false },
    ];
    let r = parse_items(items, &no_callbacks());
    match r {
        Err(ConvertError::Cpp(ConvertErrorFromCpp::DuplicateName(n))) => {
            assert_eq!(n.text, "A");
        }
        _ => panic!("expected a duplicate-name validation error"),
    }
}

#[test]
fn ingestion_marks_fatal_attrs() {
    let cb = ParseCallbackResults {
        entries: vec![CallbackEntry {
            name: qn("Hidden"),
            visibility: CppVisibility::Protected,
            discards_template_param: false,
            forbids_trivial_copy: false,
        }],
    };
    let items = vec![
        RawItem { name: qn("Hidden"), cpp_name: None, payload: Payload::EnumDecl, always_keep: false },
        RawItem { name: qn("Shown"), cpp_name: None, payload: Payload::EnumDecl, always_keep: false },
    ];
    let apis = parse_items(items, &cb).unwrap();
    assert!(apis.v[0].ignored.is_some());
    assert!(apis.v[1].ignored.is_none());
}

#[test]
fn typedef_conversion_rewrites_and_is_idempotent() {
    let td = Api::plain(
        qn("MyPtr"),
        None,
        Payload::Typedef(TypeRef {
            name: qn("root::std::unique_ptr"),
            primitive: false,
            shape: TypeShape::Value,
        }),
        false,
    );
    let apis = ApiVec { v: vec![td] };
    let cfg = empty_config();
    let cb = no_callbacks();
    let once = convert_typedef_targets(&cfg, apis, &cb);
    match &once.v[0].payload {
        Payload::Typedef(t) => assert_eq!(t.name.text, "UniquePtr"),
        _ => panic!("typedef expected"),
    }
    let twice = convert_typedef_targets(&cfg, once, &cb);
    match &twice.v[0].payload {
        Payload::Typedef(t) => assert_eq!(t.name.text, "UniquePtr"),
        _ => panic!("typedef expected"),
    }
}

#[test]
fn pod_classification_propagates_opaqueness() {
    let cb = ParseCallbackResults {
        entries: vec![CallbackEntry {
            name: qn("B"),
            visibility: CppVisibility::Public,
            discards_template_param: false,
            forbids_trivial_copy: true,
        }],
    };
    let a = struct_record("A", vec![value_ref("B", false)]);
    let b = struct_record("B", vec![value_ref("int", true)]);
    let apis = ApiVec { v: vec![a, b] };
    let out = analyze_pod_apis(apis, &empty_config(), &cb);
    assert_eq!(out.v[0].class, Some(TypeClass::Opaque));
    assert_eq!(out.v[1].class, Some(TypeClass::Opaque));
}

#[test]
fn pod_struct_with_primitive_fields_gets_no_allocators() {
    let a = struct_record("P", vec![value_ref("int", true), value_ref("char", true)]);
    let apis = ApiVec { v: vec![a] };
    let out = analyze_pod_apis(apis, &empty_config(), &no_callbacks());
    assert_eq!(out.v[0].class, Some(TypeClass::Pod));
    let with_allocs = create_alloc_and_frees(out);
    assert_eq!(with_allocs.v.len(), 1);
}

#[test]
fn opaque_struct_gets_alloc_and_free_pair() {
    let cb = ParseCallbackResults {
        entries: vec![CallbackEntry {
            name: qn("O"),
            visibility: CppVisibility::Public,
            discards_template_param: false,
            forbids_trivial_copy: true,
        }],
    };
    let a = struct_record("O", vec![value_ref("int", true)]);
    let apis = ApiVec { v: vec![a] };
    let out = analyze_pod_apis(apis, &empty_config(), &cb);
    let with_allocs = create_alloc_and_frees(out);
    assert_eq!(with_allocs.v.len(), 3);
    assert!(with_allocs.v.iter().any(|r| matches!(&r.payload, Payload::Alloc(t) if t.text == "O")));
    assert!(with_allocs.v.iter().any(|r| matches!(&r.payload, Payload::Free(t) if t.text == "O")));
}

#[test]
fn abstract_type_loses_constructors() {
    let rec = struct_record("AbsT", vec![]);
    let pure_virtual = Api::plain(
        qn("AbsT::method"),
        None,
        Payload::Function(FnDetails {
            params: Vec::new(),
            ret: None,
            self_ty: Some(qn("AbsT")),
            special: SpecialMember::NotSpecial,
            is_pure_virtual: true,
            is_operator: false,
            ambiguous_overload: false,
        }),
        false,
    );
    let ctor = Api::plain(
        qn("AbsT::AbsT"),
        None,
        Payload::Function(FnDetails {
            params: Vec::new(),
            ret: None,
            self_ty: Some(qn("AbsT")),
            special: SpecialMember::Constructor,
            is_pure_virtual: false,
            is_operator: false,
            ambiguous_overload: false,
        }),
        false,
    );
    let apis = ApiVec { v: vec![rec, pure_virtual, ctor] };
    let marked = mark_types_abstract(apis);
    assert_eq!(marked.v[0].class, Some(TypeClass::Abstract));
    assert!(marked.v[2].ignored.is_some());
    let filtered = discard_ignored_functions(marked);
    assert_eq!(filtered.v.len(), 2);
    assert!(filtered.v.iter().all(|r| r.name.text != "AbsT::AbsT"));
}

#[test]
fn defaulted_parameter_forces_wrapper_with_resolved_argument() {
    let f = Api::plain(
        qn("do_thing"),
        None,
        Payload::Function(plain_fn(
            vec![
                Param { ty: value_ref("int", true), default_expr: None },
                Param { ty: value_ref("int", true), default_expr: Some(String::from("42")) },
            ],
        )),
        false,
    );
    let apis = ApiVec { v: vec![f] };
    let out = analyze_functions(apis, &UnsafePolicy::AllFunctionsSafe, &empty_config(), false);
    assert_eq!(out.v.len(), 2);
    match &out.v[1].payload {
        Payload::Wrapper(plan) => {
            assert_eq!(plan.callee.text, "do_thing");
            assert!(matches!(&plan.args[0], ArgSource::FromParam(0)));
            assert!(matches!(&plan.args[1], ArgSource::DefaultExpr(e) if e == "42"));
        }
        _ => panic!("wrapper record expected"),
    }
    match &out.v[0].shape {
        Some(sh) => assert!(sh.wrapper.is_some() && sh.safe),
        None => panic!("shape annotation expected"),
    }
}

#[test]
fn direct_function_needs_no_wrapper() {
    let f = Api::plain(
        qn("simple"),
        None,
        Payload::Function(plain_fn(
            vec![Param { ty: value_ref("int", true), default_expr: None }],
        )),
        false,
    );
    let apis = ApiVec { v: vec![f] };
    let out = analyze_functions(apis, &UnsafePolicy::AllFunctionsUnsafe, &empty_config(), false);
    assert_eq!(out.v.len(), 1);
    match &out.v[0].shape {
        Some(sh) => assert!(sh.wrapper.is_none() && !sh.safe),
        None => panic!("shape annotation expected"),
    }
}

#[test]
fn hopeless_typedef_is_marked_unsupported() {
    let td = Api::plain(
        qn("Mystery"),
        None,
        Payload::Typedef(TypeRef { name: qn("NoSuchType"), primitive: false, shape: TypeShape::Value }),
        false,
    );
    let known = Api::plain(
        qn("IntAlias"),
        None,
        Payload::Typedef(TypeRef { name: qn("int"), primitive: true, shape: TypeShape::Value }),
        false,
    );
    let apis = ApiVec { v: vec![td, known] };
    let out = replace_hopeless_typedef_targets(&empty_config(), apis);
    assert!(out.v[0].ignored.is_some());
    assert!(out.v[1].ignored.is_none());
}

#[test]
fn converter_runs_whole_pipeline() {
    let conv = bridge_engine::BridgeConverter::new(
        vec![String::from("widget.h")],
        IncludeCppConfig { allowlist: vec![qn("P"), qn("use_p")], pod_requests: Vec::new() },
    );
    let items = vec![
        RawItem {
            name: qn("P"),
            cpp_name: None,
            payload: Payload::Record(StructDetails {
                fields: vec![value_ref("int", true)],
                bases: Vec::new(),
            }),
            always_keep: false,
        },
        RawItem {
            name: qn("use_p"),
            cpp_name: None,
            payload: Payload::Function(plain_fn(vec![Param {
                ty: value_ref("P", false),
                default_expr: None,
            }])),
            always_keep: false,
        },
    ];
    let mut trace = bridge_engine::PhaseTrace::new();
    let opts = CodegenOptions {
        force_wrapper_gen: false,
        cxxgen_header_name: String::from("demo_gen.h"),
    };
    let out = conv
        .convert(items, &no_callbacks(), &UnsafePolicy::AllFunctionsSafe, &opts, "", &mut trace)
        .unwrap();
    assert_eq!(trace.entries.len(), 13);
    assert_eq!(trace.entries[0].label, "parsing");
    assert_eq!(trace.entries[12].label, "GC");
    // P is POD, the function crosses directly: no shim is generated,
    // so no shim file pair and no shim header reference.
    assert!(out.cpp.is_none());
    assert_eq!(out.cxxgen_header_name, "demo_gen.h");
    assert!(out.rs.iter().any(|d| matches!(d, HostDecl::HeaderInclude(h) if h == "widget.h")));
    assert!(!out.rs.iter().any(|d| matches!(d, HostDecl::ShimHeaderRef(_))));
    assert!(out.rs.iter().any(|d| matches!(d, HostDecl::ValueType(n) if n.text == "P")));
    assert!(out.rs.iter().any(|d| matches!(d, HostDecl::ForeignFn(n, true) if n.text == "use_p")));
    let mut trace2 = bridge_engine::PhaseTrace::new();
    let empty = conv.convert(
        Vec::new(),
        &no_callbacks(),
        &UnsafePolicy::AllFunctionsSafe,
        &opts,
        "",
        &mut trace2,
    );
    assert!(matches!(empty, Err(ConvertError::NoContent)));
    assert_eq!(trace2.entries.len(), 0);
}

#[test]
fn allowlist_reachability_prunes_unrelated_records() {
    // Roots name only X; X depends on Y; Z is unrelated: the output
    // holds X and Y and not Z.
    let conv = bridge_engine::BridgeConverter::new(
        Vec::new(),
        IncludeCppConfig { allowlist: vec![qn("X")], pod_requests: Vec::new() },
    );
    let items = vec![
        RawItem {
            name: qn("X"),
            cpp_name: None,
            payload: Payload::Record(StructDetails {
                fields: vec![value_ref("Y", false)],
                bases: Vec::new(),
            }),
            always_keep: false,
        },
        RawItem {
            name: qn("Y"),
            cpp_name: None,
            payload: Payload::Record(StructDetails {
                fields: vec![value_ref("int", true)],
                bases: Vec::new(),
            }),
            always_keep: false,
        },
        RawItem {
            name: qn("Z"),
            cpp_name: None,
            payload: Payload::Record(StructDetails {
                fields: vec![value_ref("int", true)],
                bases: Vec::new(),
            }),
            always_keep: false,
        },
    ];
    let mut trace = bridge_engine::PhaseTrace::new();
    let opts = CodegenOptions {
        force_wrapper_gen: false,
        cxxgen_header_name: String::from("gen.h"),
    };
    let out = conv
        .convert(items, &no_callbacks(), &UnsafePolicy::AllFunctionsSafe, &opts, "", &mut trace)
        .unwrap();
    assert!(out.rs.iter().any(|d| matches!(d, HostDecl::ValueType(n) if n.text == "X")));
    assert!(out.rs.iter().any(|d| matches!(d, HostDecl::ValueType(n) if n.text == "Y")));
    assert!(!out.rs.iter().any(|d| matches!(d, HostDecl::ValueType(n) if n.text == "Z")));
}

#[test]
fn shim_header_is_referenced_exactly_when_shim_exists() {
    // An opaque allow-listed type needs an allocator pair, so a shim
    // file pair is generated and the host output references its header.
    let conv = bridge_engine::BridgeConverter::new(
        Vec::new(),
        IncludeCppConfig { allowlist: vec![qn("O")], pod_requests: Vec::new() },
    );
    let cb = ParseCallbackResults {
        entries: vec![CallbackEntry {
            name: qn("O"),
            visibility: CppVisibility::Public,
            discards_template_param: false,
            forbids_trivial_copy: true,
        }],
    };
    let items = vec![RawItem {
        name: qn("O"),
        cpp_name: None,
        payload: Payload::Record(StructDetails {
            fields: vec![value_ref("int", true)],
            bases: Vec::new(),
        }),
        always_keep: false,
    }];
    let mut trace = bridge_engine::PhaseTrace::new();
    let opts = CodegenOptions {
        force_wrapper_gen: false,
        cxxgen_header_name: String::from("shims.h"),
    };
    let out = conv
        .convert(items, &cb, &UnsafePolicy::AllFunctionsSafe, &opts, "", &mut trace)
        .unwrap();
    let pair = out.cpp.expect("a shim pair must be generated for an opaque type");
    assert_eq!(pair.header_name, "shims.h");
    assert!(out.rs.iter().any(|d| matches!(d, HostDecl::ShimHeaderRef(h) if h == "shims.h")));
    assert!(out.rs.iter().any(|d| matches!(d, HostDecl::OpaqueHandle(n) if n.text == "O")));
}

#[test]
fn cascade_removes_dependents_of_unsupported_records() {
    let bad = {
        let mut a = struct_record("Bad", vec![value_ref("int", true)]);
        a.ignored = Some(bridge_engine::api::IgnoreReason::NonPublicNestedType);
        a
    };
    let dependent = struct_record("UsesBad", vec![value_ref("Bad", false)]);
    let unrelated = struct_record("Fine", vec![value_ref("int", true)]);
    let apis = ApiVec { v: vec![bad, dependent, unrelated] };
    let out = bridge_engine::remove_ignored::filter_apis_by_ignored_dependents(apis);
    assert_eq!(out.v.len(), 1);
    assert_eq!(out.v[0].name.text, "Fine");
}

#[test]
fn illegal_bridge_names_are_rejected() {
    let kw = struct_record("box", vec![]);
    let prefixed = struct_record("cxxbridge_internal", vec![]);
    let fine = struct_record("Widget", vec![]);
    let apis = ApiVec { v: vec![kw, prefixed, fine] };
    let out = bridge_engine::check_names::check_names(apis);
    assert!(out.v[0].ignored.is_some());
    assert!(out.v[1].ignored.is_some());
    assert!(out.v[2].ignored.is_none());
}

#[test]
fn constructor_dependencies_are_decorated() {
    let rec = struct_record("T", vec![]);
    let dtor = Api::plain(
        qn("T::~T"),
        None,
        Payload::Function(FnDetails {
            params: Vec::new(),
            ret: None,
            self_ty: Some(qn("T")),
            special: SpecialMember::Destructor,
            is_pure_virtual: false,
            is_operator: false,
            ambiguous_overload: false,
        }),
        false,
    );
    let apis = ApiVec { v: vec![rec, dtor] };
    let out = bridge_engine::ctor_deps::decorate_types_with_constructor_deps(apis);
    assert_eq!(out.v[0].ctor_deps.len(), 1);
    assert_eq!(out.v[0].ctor_deps[0].text, "T::~T");
}

#[test]
fn casts_are_synthesized_for_known_bases() {
    let base = struct_record("Base", vec![]);
    let derived = Api::plain(
        qn("Derived"),
        None,
        Payload::Record(StructDetails { fields: Vec::new(), bases: vec![qn("Base")] }),
        false,
    );
    let apis = ApiVec { v: vec![base, derived] };
    let out = bridge_engine::casts::add_casts(apis);
    assert_eq!(out.v.len(), 4);
    assert!(out.v.iter().any(
        |r| matches!(&r.payload, Payload::Cast(c) if c.upcast && c.from.text == "Derived" && c.to.text == "Base"),
    ));
    assert!(out.v.iter().any(
        |r| matches!(&r.payload, Payload::Cast(c) if !c.upcast && c.from.text == "Derived" && c.to.text == "Base"),
    ));
}

#[test]
fn describe_names_the_offending_record() {
    let e = ConvertErrorFromCpp::DuplicateName(qn("ns::Thing"));
    assert_eq!(e.describe(), "duplicate name: ns::Thing");
}

#[test]
fn referenced_primitives_get_forward_declaration_markers() {
    let rec = struct_record("P", vec![value_ref("int", true), value_ref("char", true)]);
    let other = struct_record("Q", vec![value_ref("int", true)]);
    let mut apis = ApiVec { v: vec![rec, other] };
    bridge_engine::ctypes::append_ctype_information(&mut apis);
    assert_eq!(apis.v.len(), 4);
    assert!(apis.v.iter().any(
        |r| matches!(&r.payload, Payload::CTypeMarker) && r.name.text == "int",
    ));
    assert!(apis.v.iter().any(
        |r| matches!(&r.payload, Payload::CTypeMarker) && r.name.text == "char",
    ));
}
