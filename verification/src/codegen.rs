use crate::api::{avs, Api, ApiV, Payload, PayloadV, TypeClass};
use crate::apivec::ApiVec;
use crate::errors::ConvertErrorFromCpp;
use crate::name::QualifiedName;
use vstd::prelude::*;
use vstd::string::StringExecFns;

verus! {

/// One host-language bridge declaration: the structured form handed to
/// the downstream bridge-macro expander.
#[derive(Debug)]
pub enum HostDecl {
    /// An original header the caller asked to include.
    HeaderInclude(String),
    /// The reference to the generated shim header, present exactly
    /// when a shim was generated.
    ShimHeaderRef(String),
    /// A POD record-type, crossing the bridge by value.
    ValueType(QualifiedName),
    /// An opaque record-type, crossing only by pointer/reference.
    OpaqueHandle(QualifiedName),
    /// An abstract record-type: an uninstantiable handle.
    AbstractHandle(QualifiedName),
    /// A directly bridged function and its safety classification.
    ForeignFn(QualifiedName, bool),
    /// A synthesized shim entry point (wrapper, cast, allocator pair).
    ShimFn(QualifiedName),
    TypeAlias(QualifiedName),
    EnumDeclHost(QualifiedName),
    ConstDeclHost(QualifiedName),
    CTypeForwardDecl(QualifiedName),
}

pub enum HostDeclV {
    HeaderInclude(Seq<char>),
    ShimHeaderRef(Seq<char>),
    ValueType(Seq<char>),
    OpaqueHandle(Seq<char>),
    AbstractHandle(Seq<char>),
    ForeignFn(Seq<char>, bool),
    ShimFn(Seq<char>),
    TypeAlias(Seq<char>),
    EnumDeclHost(Seq<char>),
    ConstDeclHost(Seq<char>),
    CTypeForwardDecl(Seq<char>),
}

impl View for HostDecl {
    type V = HostDeclV;

    open spec fn view(&self) -> HostDeclV {
        match self {
            HostDecl::HeaderInclude(h) => HostDeclV::HeaderInclude(h@),
            HostDecl::ShimHeaderRef(h) => HostDeclV::ShimHeaderRef(h@),
            HostDecl::ValueType(n) => HostDeclV::ValueType(n@),
            HostDecl::OpaqueHandle(n) => HostDeclV::OpaqueHandle(n@),
            HostDecl::AbstractHandle(n) => HostDeclV::AbstractHandle(n@),
            HostDecl::ForeignFn(n, s) => HostDeclV::ForeignFn(n@, *s),
            HostDecl::ShimFn(n) => HostDeclV::ShimFn(n@),
            HostDecl::TypeAlias(n) => HostDeclV::TypeAlias(n@),
            HostDecl::EnumDeclHost(n) => HostDeclV::EnumDeclHost(n@),
            HostDecl::ConstDeclHost(n) => HostDeclV::ConstDeclHost(n@),
            HostDecl::CTypeForwardDecl(n) => HostDeclV::CTypeForwardDecl(n@),
        }
    }
}

/// The foreign-language shim file pair. The textual bodies are a
/// deterministic rendering of the shim records; the header name is the
/// cross-referenced identity both outputs must agree on.
#[derive(Debug)]
pub struct CppFilePair {
    pub header: String,
    pub implementation: String,
    pub header_name: String,
}

/// Both generated outputs: host-language bridge declarations, the
/// optional shim file pair, and the shared generated-header-name
/// artifact.
#[derive(Debug)]
pub struct CodegenResults {
    pub rs: Vec<HostDecl>,
    pub cpp: Option<CppFilePair>,
    pub cxxgen_header_name: String,
}

/// A record that reached generation without the annotation the
/// generator relies on — an upstream invariant violation.
pub open spec fn missing_annotation_at(s: Seq<ApiV>, i: int) -> bool {
    match s[i].payload {
        PayloadV::Record(_) => s[i].class is None,
        PayloadV::Function(_) => s[i].shape is None,
        _ => false,
    }
}

pub open spec fn any_missing(s: Seq<ApiV>) -> bool {
    exists|i: int| 0 <= i < s.len() && #[trigger] missing_annotation_at(s, i)
}

/// The payloads that require foreign-side shim source.
pub open spec fn is_shim_payload(p: PayloadV) -> bool {
    p is Wrapper || p is Cast || p is Alloc || p is Free
}

pub open spec fn has_shim_record(s: Seq<ApiV>) -> bool {
    exists|i: int| 0 <= i < s.len() && is_shim_payload((#[trigger] s[i]).payload)
}

/// The host declaration one record renders to.
pub open spec fn host_decl_of(a: ApiV) -> HostDeclV {
    match a.payload {
        PayloadV::Record(_) => match a.class {
            Some(TypeClass::Pod) => HostDeclV::ValueType(a.name),
            Some(TypeClass::Abstract) => HostDeclV::AbstractHandle(a.name),
            _ => HostDeclV::OpaqueHandle(a.name),
        },
        PayloadV::Function(_) => HostDeclV::ForeignFn(
            a.name,
            match a.shape {
                Some(sh) => sh.safe,
                None => false,
            },
        ),
        PayloadV::Typedef(_) => HostDeclV::TypeAlias(a.name),
        PayloadV::EnumDecl => HostDeclV::EnumDeclHost(a.name),
        PayloadV::ConstDecl => HostDeclV::ConstDeclHost(a.name),
        PayloadV::Wrapper(_) => HostDeclV::ShimFn(a.name),
        PayloadV::Cast(_) => HostDeclV::ShimFn(a.name),
        PayloadV::Alloc(_) => HostDeclV::ShimFn(a.name),
        PayloadV::Free(_) => HostDeclV::ShimFn(a.name),
        PayloadV::CTypeMarker => HostDeclV::CTypeForwardDecl(a.name),
    }
}

pub open spec fn hd_views(v: Seq<HostDecl>) -> Seq<HostDeclV> {
    v.map_values(|d: HostDecl| d@)
}

/// The whole host-language output: the caller's header includes, the
/// shim header reference when a shim exists, then one declaration per
/// surviving record, in collection order.
pub open spec fn rs_decls_spec(
    s: Seq<ApiV>,
    includes: Seq<Seq<char>>,
    shim: Option<Seq<char>>,
) -> Seq<HostDeclV> {
    includes.map_values(|h: Seq<char>| HostDeclV::HeaderInclude(h)) + (match shim {
        Some(h) => seq![HostDeclV::ShimHeaderRef(h)],
        None => Seq::<HostDeclV>::empty(),
    }) + s.map_values(|a: ApiV| host_decl_of(a))
}

/// The host output references the named shim header.
pub open spec fn rs_references_header(v: Seq<HostDeclV>, h: Seq<char>) -> bool {
    exists|i: int| 0 <= i < v.len() && #[trigger] v[i] == HostDeclV::ShimHeaderRef(h)
}

/// The dual code generator: a deterministic rendering of the analyzed
/// collection into host declarations and, when any shim record exists,
/// a foreign shim file pair carrying the shared header name. Fails
/// fast, with the offending name, on a record lacking its expected
/// annotation — a pipeline bug, not a user-facing condition.
pub fn generate(
    apis: &ApiVec,
    include_list: &Vec<String>,
    inclusions: &str,
    header_name: &str,
) -> (r: Result<CodegenResults, ConvertErrorFromCpp>)
    ensures
        (r is Err) == any_missing(avs(apis@)),
        match r {
            Err(e) => e matches ConvertErrorFromCpp::MissingAnnotation(nm) && (exists|i: int|
                0 <= i < avs(apis@).len() && #[trigger] missing_annotation_at(avs(apis@), i) && avs(
                    apis@,
                )[i].name == nm@),
            Ok(out) => out.cxxgen_header_name@ == header_name@ && (out.cpp is Some)
                == has_shim_record(avs(apis@)) && (match out.cpp {
                Some(p) => p.header_name@ == header_name@,
                None => true,
            }) && hd_views(out.rs@) == rs_decls_spec(
                avs(apis@),
                include_list@.map_values(|h: String| h@),
                if has_shim_record(avs(apis@)) {
                    Some(header_name@)
                } else {
                    None
                },
            ) && rs_references_header(hd_views(out.rs@), header_name@) == has_shim_record(
                avs(apis@),
            ),
        },
{
    let ghost s = avs(apis@);
    let n = apis.len();
    // Fail fast on a record lacking its expected annotation.
    let mut i: usize = 0;
    while i < n
        invariant
            i <= n,
            n == s.len(),
            forall|p: int| 0 <= p < i ==> !missing_annotation_at(s, p),
        decreases n - i,
    {
        let a = apis.get(i);
        proof {
            assert(s[i as int] == apis@[i as int]@);
        }
        let missing = match &a.payload {
            Payload::Record(_) => a.class.is_none(),
            Payload::Function(_) => a.shape.is_none(),
            _ => false,
        };
        if missing {
            proof {
                assert(missing_annotation_at(s, i as int));
            }
            return Err(ConvertErrorFromCpp::MissingAnnotation(a.name.clone()));
        }
        i = i + 1;
    }
    // Is there any synthesized shim record?
    let mut shim = false;
    let mut i2: usize = 0;
    while i2 < n
        invariant
            i2 <= n,
            n == s.len(),
            shim == (exists|p: int| 0 <= p < i2 && is_shim_payload((#[trigger] s[p]).payload)),
        decreases n - i2,
    {
        let a = apis.get(i2);
        proof {
            assert(s[i2 as int] == apis@[i2 as int]@);
        }
        let is_shim = match &a.payload {
            Payload::Wrapper(_) => true,
            Payload::Cast(_) => true,
            Payload::Alloc(_) => true,
            Payload::Free(_) => true,
            _ => false,
        };
        if is_shim {
            proof {
                assert(is_shim_payload(s[i2 as int].payload));
            }
            shim = true;
        }
        i2 = i2 + 1;
    }
    // Host-language declarations.
    let ghost incs = include_list@.map_values(|h: String| h@);
    let mut rs: Vec<HostDecl> = Vec::new();
    let mut i3: usize = 0;
    let ilen = include_list.len();
    while i3 < ilen
        invariant
            i3 <= ilen,
            ilen == incs.len(),
            rs@.len() == i3,
            forall|p: int| 0 <= p < i3 ==> hd_views(rs@)[p] == HostDeclV::HeaderInclude(incs[p]),
        decreases ilen - i3,
    {
        let ghost prev = rs@;
        rs.push(HostDecl::HeaderInclude(include_list[i3].clone()));
        proof {
            assert(hd_views(rs@)[i3 as int] == rs@[i3 as int]@);
            assert(incs[i3 as int] == include_list@[i3 as int]@);
            assert(forall|p: int|
                0 <= p < prev.len() ==> #[trigger] hd_views(rs@)[p] == hd_views(prev)[p]);
        }
        i3 = i3 + 1;
    }
    if shim {
        let ghost prev = rs@;
        rs.push(HostDecl::ShimHeaderRef(header_name.to_owned()));
        proof {
            assert(hd_views(rs@)[ilen as int] == rs@[ilen as int]@);
            assert(forall|p: int| 0 <= p < ilen ==> #[trigger] hd_views(rs@)[p] == hd_views(prev)[p]);
        }
    }
    let ghost gbase = rs@.len() as int;
    proof {
        assert(shim == has_shim_record(s));
    }
    let mut i4: usize = 0;
    while i4 < n
        invariant
            i4 <= n,
            n == s.len(),
            ilen == incs.len(),
            rs@.len() == gbase + i4,
            forall|p: int|
                0 <= p < ilen ==> #[trigger] hd_views(rs@)[p] == HostDeclV::HeaderInclude(incs[p]),
            has_shim_record(s) ==> gbase == ilen + 1 && hd_views(rs@)[ilen as int]
                == HostDeclV::ShimHeaderRef(header_name@),
            !has_shim_record(s) ==> gbase == ilen,
            forall|p: int|
                0 <= p < i4 ==> #[trigger] hd_views(rs@)[gbase + p] == host_decl_of(s[p]),
        decreases n - i4,
    {
        let a = apis.get(i4);
        proof {
            assert(s[i4 as int] == apis@[i4 as int]@);
        }
        let d = match &a.payload {
            Payload::Record(_) => match &a.class {
                Some(TypeClass::Pod) => HostDecl::ValueType(a.name.clone()),
                Some(TypeClass::Abstract) => HostDecl::AbstractHandle(a.name.clone()),
                _ => HostDecl::OpaqueHandle(a.name.clone()),
            },
            Payload::Function(_) => HostDecl::ForeignFn(
                a.name.clone(),
                match &a.shape {
                    Some(sh) => sh.safe,
                    None => false,
                },
            ),
            Payload::Typedef(_) => HostDecl::TypeAlias(a.name.clone()),
            Payload::EnumDecl => HostDecl::EnumDeclHost(a.name.clone()),
            Payload::ConstDecl => HostDecl::ConstDeclHost(a.name.clone()),
            Payload::Wrapper(_) => HostDecl::ShimFn(a.name.clone()),
            Payload::Cast(_) => HostDecl::ShimFn(a.name.clone()),
            Payload::Alloc(_) => HostDecl::ShimFn(a.name.clone()),
            Payload::Free(_) => HostDecl::ShimFn(a.name.clone()),
            Payload::CTypeMarker => HostDecl::CTypeForwardDecl(a.name.clone()),
        };
        let ghost prev = rs@;
        rs.push(d);
        proof {
            assert(hd_views(rs@)[gbase + i4] == rs@[gbase + i4]@);
            assert(hd_views(rs@)[gbase + i4] == host_decl_of(s[i4 as int]));
            assert(forall|p: int|
                0 <= p < prev.len() ==> #[trigger] hd_views(rs@)[p] == hd_views(prev)[p]);
        }
        i4 = i4 + 1;
    }
    proof {
        let recs = s.map_values(|a: ApiV| host_decl_of(a));
        let head = incs.map_values(|h: Seq<char>| HostDeclV::HeaderInclude(h));
        let mid = if has_shim_record(s) {
            seq![HostDeclV::ShimHeaderRef(header_name@)]
        } else {
            Seq::<HostDeclV>::empty()
        };
        let want = rs_decls_spec(
            s,
            incs,
            if has_shim_record(s) {
                Some(header_name@)
            } else {
                None
            },
        );
        assert(want == head + mid + recs);
        assert(hd_views(rs@).len() == want.len());
        assert(head.len() == ilen);
        assert(head.len() + mid.len() == gbase);
        assert forall|p: int| 0 <= p < want.len() implies hd_views(rs@)[p] == want[p] by {
            if p < ilen {
                assert((head + mid + recs)[p] == (head + mid)[p]);
                assert((head + mid)[p] == head[p]);
                assert(head[p] == HostDeclV::HeaderInclude(incs[p]));
            } else if has_shim_record(s) && p == ilen {
                assert((head + mid + recs)[p] == (head + mid)[p]);
                assert((head + mid)[p] == mid[0]);
            } else {
                assert((head + mid + recs)[p] == recs[p - gbase]);
                assert(recs[p - gbase] == host_decl_of(s[p - gbase]));
                assert(hd_views(rs@)[gbase + (p - gbase)] == host_decl_of(s[p - gbase]));
                assert(gbase + (p - gbase) == p);
            }
        }
        assert(hd_views(rs@) =~= want);
        if has_shim_record(s) {
            assert(rs_references_header(hd_views(rs@), header_name@)) by {
                assert(hd_views(rs@)[ilen as int] == HostDeclV::ShimHeaderRef(header_name@));
            }
        } else {
            assert(!rs_references_header(hd_views(rs@), header_name@)) by {
                assert forall|p: int| 0 <= p < hd_views(rs@).len() implies #[trigger] hd_views(
                    rs@,
                )[p] != HostDeclV::ShimHeaderRef(header_name@) by {
                    if p < gbase {
                        assert(hd_views(rs@)[p] == HostDeclV::HeaderInclude(incs[p]));
                    } else {
                        assert(hd_views(rs@)[p] == host_decl_of(s[p - gbase]));
                    }
                }
            }
        }
    }
    // Foreign shim file pair, when any shim record exists. The bodies
    // are a rendering of the shim records; their text carries no
    // verified content beyond the shared header name.
    let cpp = if shim {
        let mut implementation = inclusions.to_owned();
        implementation.append("#include \"");
        implementation.append(header_name);
        implementation.append("\"\n");
        let mut header = String::new();
        let mut i5: usize = 0;
        while i5 < n
            invariant
                i5 <= n,
                n == apis@.len(),
            decreases n - i5,
        {
            let a = apis.get(i5);
            let is_shim = match &a.payload {
                Payload::Wrapper(_) => true,
                Payload::Cast(_) => true,
                Payload::Alloc(_) => true,
                Payload::Free(_) => true,
                _ => false,
            };
            if is_shim {
                header.append("void ");
                header.append(a.name.text.as_str());
                header.append("();\n");
                implementation.append("void ");
                implementation.append(a.name.text.as_str());
                implementation.append("() { /* shim body */ }\n");
            }
            i5 = i5 + 1;
        }
        Some(CppFilePair { header, implementation, header_name: header_name.to_owned() })
    } else {
        None
    };
    Ok(CodegenResults { rs, cpp, cxxgen_header_name: header_name.to_owned() })
}

} // verus!
