use crate::name::QualifiedName;
use vstd::prelude::*;

verus! {

/// How a type is mentioned at a given position of a declaration.
#[derive(Clone, Copy, Debug, PartialEq, Eq, Structural)]
pub enum TypeShape {
    Value,
    Reference,
    Pointer,
}

/// One mention of a type inside a declaration: a field type, a parameter
/// type, a return type or a typedef target.
#[derive(Debug)]
pub struct TypeRef {
    pub name: QualifiedName,
    pub primitive: bool,
    pub shape: TypeShape,
}

pub struct TypeRefV {
    pub name: Seq<char>,
    pub primitive: bool,
    pub shape: TypeShape,
}

impl View for TypeRef {
    type V = TypeRefV;

    open spec fn view(&self) -> TypeRefV {
        TypeRefV { name: self.name@, primitive: self.primitive, shape: self.shape }
    }
}

impl Clone for TypeRef {
    fn clone(&self) -> (r: Self)
        ensures
            r == *self,
    {
        TypeRef { name: self.name.clone(), primitive: self.primitive, shape: self.shape }
    }
}

/// One declared parameter of a function record.
#[derive(Debug)]
pub struct Param {
    pub ty: TypeRef,
    pub default_expr: Option<String>,
}

pub struct ParamV {
    pub ty: TypeRefV,
    pub default_expr: Option<Seq<char>>,
}

impl View for Param {
    type V = ParamV;

    open spec fn view(&self) -> ParamV {
        ParamV {
            ty: self.ty@,
            default_expr: match self.default_expr {
                Some(ref e) => Some(e@),
                None => None,
            },
        }
    }
}

/// Which special member of its owning type a member function is.
#[derive(Clone, Copy, Debug, PartialEq, Eq, Structural)]
pub enum SpecialMember {
    NotSpecial,
    Constructor,
    CopyConstructor,
    MoveConstructor,
    Destructor,
}

/// The declared signature and flags of a function record.
#[derive(Debug)]
pub struct FnDetails {
    pub params: Vec<Param>,
    pub ret: Option<TypeRef>,
    pub self_ty: Option<QualifiedName>,
    pub special: SpecialMember,
    pub is_pure_virtual: bool,
    pub is_operator: bool,
    pub ambiguous_overload: bool,
}

pub struct FnDetailsV {
    pub params: Seq<ParamV>,
    pub ret: Option<TypeRefV>,
    pub self_ty: Option<Seq<char>>,
    pub special: SpecialMember,
    pub is_pure_virtual: bool,
    pub is_operator: bool,
    pub ambiguous_overload: bool,
}

impl View for FnDetails {
    type V = FnDetailsV;

    open spec fn view(&self) -> FnDetailsV {
        FnDetailsV {
            params: self.params@.map_values(|p: Param| p@),
            ret: match self.ret {
                Some(ref t) => Some(t@),
                None => None,
            },
            self_ty: match self.self_ty {
                Some(ref n) => Some(n@),
                None => None,
            },
            special: self.special,
            is_pure_virtual: self.is_pure_virtual,
            is_operator: self.is_operator,
            ambiguous_overload: self.ambiguous_overload,
        }
    }
}

/// The declared fields and bases of a record-type record.
#[derive(Debug)]
pub struct StructDetails {
    pub fields: Vec<TypeRef>,
    pub bases: Vec<QualifiedName>,
}

pub struct StructDetailsV {
    pub fields: Seq<TypeRefV>,
    pub bases: Seq<Seq<char>>,
}

impl View for StructDetails {
    type V = StructDetailsV;

    open spec fn view(&self) -> StructDetailsV {
        StructDetailsV {
            fields: self.fields@.map_values(|f: TypeRef| f@),
            bases: self.bases@.map_values(|b: QualifiedName| b@),
        }
    }
}

/// Where one argument of a synthesized wrapper call comes from: forwarded
/// from a wrapper parameter, or a defaulted parameter resolved to its
/// default expression at the call site inside the wrapper.
#[derive(Debug)]
pub enum ArgSource {
    FromParam(usize),
    DefaultExpr(String),
}

pub enum ArgSourceV {
    FromParam(int),
    DefaultExpr(Seq<char>),
}

impl View for ArgSource {
    type V = ArgSourceV;

    open spec fn view(&self) -> ArgSourceV {
        match self {
            ArgSource::FromParam(i) => ArgSourceV::FromParam(*i as int),
            ArgSource::DefaultExpr(e) => ArgSourceV::DefaultExpr(e@),
        }
    }
}

/// The synthesized call plan of a wrapper record.
#[derive(Debug)]
pub struct WrapperPlan {
    pub callee: QualifiedName,
    pub args: Vec<ArgSource>,
}

pub struct WrapperPlanV {
    pub callee: Seq<char>,
    pub args: Seq<ArgSourceV>,
}

impl View for WrapperPlan {
    type V = WrapperPlanV;

    open spec fn view(&self) -> WrapperPlanV {
        WrapperPlanV { callee: self.callee@, args: self.args@.map_values(|a: ArgSource| a@) }
    }
}

/// A synthesized upcast or downcast helper between two related types.
#[derive(Debug)]
pub struct CastDetails {
    pub from: QualifiedName,
    pub to: QualifiedName,
    pub upcast: bool,
}

pub struct CastDetailsV {
    pub from: Seq<char>,
    pub to: Seq<char>,
    pub upcast: bool,
}

impl View for CastDetails {
    type V = CastDetailsV;

    open spec fn view(&self) -> CastDetailsV {
        CastDetailsV { from: self.from@, to: self.to@, upcast: self.upcast }
    }
}

/// The kind-specific payload of one record.
#[derive(Debug)]
pub enum Payload {
    Function(FnDetails),
    Record(StructDetails),
    Typedef(TypeRef),
    EnumDecl,
    ConstDecl,
    Wrapper(WrapperPlan),
    Cast(CastDetails),
    Alloc(QualifiedName),
    Free(QualifiedName),
    CTypeMarker,
}

pub enum PayloadV {
    Function(FnDetailsV),
    Record(StructDetailsV),
    Typedef(TypeRefV),
    EnumDecl,
    ConstDecl,
    Wrapper(WrapperPlanV),
    Cast(CastDetailsV),
    Alloc(Seq<char>),
    Free(Seq<char>),
    CTypeMarker,
}

impl View for Payload {
    type V = PayloadV;

    open spec fn view(&self) -> PayloadV {
        match self {
            Payload::Function(f) => PayloadV::Function(f@),
            Payload::Record(d) => PayloadV::Record(d@),
            Payload::Typedef(t) => PayloadV::Typedef(t@),
            Payload::EnumDecl => PayloadV::EnumDecl,
            Payload::ConstDecl => PayloadV::ConstDecl,
            Payload::Wrapper(w) => PayloadV::Wrapper(w@),
            Payload::Cast(c) => PayloadV::Cast(c@),
            Payload::Alloc(n) => PayloadV::Alloc(n@),
            Payload::Free(n) => PayloadV::Free(n@),
            Payload::CTypeMarker => PayloadV::CTypeMarker,
        }
    }
}

/// Value-semantics classification of a record-type.
#[derive(Clone, Copy, Debug, PartialEq, Eq, Structural)]
pub enum TypeClass {
    Pod,
    Opaque,
    Abstract,
}

/// Why a record was marked unsupported or discarded.
#[derive(Clone, Copy, Debug, PartialEq, Eq, Structural)]
pub enum IgnoreReason {
    UnusedTemplateParam,
    NonPublicNestedType,
    HopelessTypedefTarget,
    PodRequestedForNonPod,
    IllegalBridgeName,
    AbstractMemberDiscarded,
}

/// Silent reasons drop a record without reporting it to the caller;
/// the others are per-item unsupported-feature reports that seed the
/// removal cascade.
pub open spec fn reason_is_silent(r: IgnoreReason) -> bool {
    r is AbstractMemberDiscarded
}

/// How one parameter crosses the bridge after function shaping.
#[derive(Clone, Copy, Debug, PartialEq, Eq, Structural)]
pub enum PassMode {
    ByValue,
    ByPointer,
}

/// The bridged calling convention decided for a function record.
#[derive(Debug)]
pub struct FnShape {
    pub param_passing: Vec<PassMode>,
    pub wrapper: Option<QualifiedName>,
    pub safe: bool,
}

pub struct FnShapeV {
    pub param_passing: Seq<PassMode>,
    pub wrapper: Option<Seq<char>>,
    pub safe: bool,
}

impl View for FnShape {
    type V = FnShapeV;

    open spec fn view(&self) -> FnShapeV {
        FnShapeV {
            param_passing: self.param_passing@,
            wrapper: match self.wrapper {
                Some(ref w) => Some(w@),
                None => None,
            },
            safe: self.safe,
        }
    }
}

/// One declared entity of the foreign API surface, in the uniform
/// phase-annotated representation the whole pipeline shares. The
/// annotation slots start out `None` and each is filled by exactly one
/// analysis phase; the generator checks for their presence instead of
/// tracking phases in the type.
#[derive(Debug)]
pub struct Api {
    pub name: QualifiedName,
    pub cpp_name: Option<crate::name::CppOriginalName>,
    pub payload: Payload,
    pub class: Option<TypeClass>,
    pub shape: Option<FnShape>,
    pub ctor_deps: Vec<QualifiedName>,
    pub ignored: Option<IgnoreReason>,
    pub always_keep: bool,
}

pub struct ApiV {
    pub name: Seq<char>,
    pub cpp_name: Option<Seq<char>>,
    pub payload: PayloadV,
    pub class: Option<TypeClass>,
    pub shape: Option<FnShapeV>,
    pub ctor_deps: Seq<Seq<char>>,
    pub ignored: Option<IgnoreReason>,
    pub always_keep: bool,
}

impl View for Api {
    type V = ApiV;

    open spec fn view(&self) -> ApiV {
        ApiV {
            name: self.name@,
            cpp_name: match self.cpp_name {
                Some(ref c) => Some(c@),
                None => None,
            },
            payload: self.payload@,
            class: self.class,
            shape: match self.shape {
                Some(ref s) => Some(s@),
                None => None,
            },
            ctor_deps: self.ctor_deps@.map_values(|n: QualifiedName| n@),
            ignored: self.ignored,
            always_keep: self.always_keep,
        }
    }
}

/// The views of a whole snapshot, in collection order.
pub open spec fn avs(s: Seq<Api>) -> Seq<ApiV> {
    s.map_values(|a: Api| a@)
}

/// Exactly one record exists per qualified name in a snapshot.
pub open spec fn uniq_names(s: Seq<ApiV>) -> bool {
    forall|i: int, j: int| 0 <= i < j < s.len() ==> s[i].name != s[j].name
}

pub open spec fn has_name(s: Seq<ApiV>, n: Seq<char>) -> bool {
    exists|i: int| 0 <= i < s.len() && s[i].name == n
}

/// A structural (type or signature) reference from a record to the name
/// `n`: a field type, a base, a parameter or return type, the owning
/// type of a member, a typedef target, a wrapped callee, a cast end or
/// the subject of a synthesized allocator.
pub open spec fn typeref_dep(t: TypeRefV, n: Seq<char>) -> bool {
    !t.primitive && t.name == n
}

pub open spec fn fn_sig_dep(f: FnDetailsV, n: Seq<char>) -> bool {
    (exists|i: int| 0 <= i < f.params.len() && typeref_dep(f.params[i].ty, n)) || (match f.ret {
        Some(t) => typeref_dep(t, n),
        None => false,
    }) || f.self_ty == Some(n)
}

pub open spec fn struct_dep(d: StructDetailsV, n: Seq<char>) -> bool {
    (exists|i: int| 0 <= i < d.fields.len() && typeref_dep(d.fields[i], n)) || d.bases.contains(n)
}

pub open spec fn structural_dep(a: ApiV, n: Seq<char>) -> bool {
    match a.payload {
        PayloadV::Function(f) => fn_sig_dep(f, n),
        PayloadV::Record(d) => struct_dep(d, n),
        PayloadV::Typedef(t) => typeref_dep(t, n),
        PayloadV::Wrapper(w) => w.callee == n,
        PayloadV::Cast(c) => c.from == n || c.to == n,
        PayloadV::Alloc(t) => t == n,
        PayloadV::Free(t) => t == n,
        PayloadV::EnumDecl => false,
        PayloadV::ConstDecl => false,
        PayloadV::CTypeMarker => false,
    }
}

/// Names of the helper records synthesized for a type or a function,
/// derived deterministically from the subject's qualified name.
pub open spec fn alloc_name_v(n: Seq<char>) -> Seq<char> {
    n + "_shim_alloc"@
}

pub open spec fn free_name_v(n: Seq<char>) -> Seq<char> {
    n + "_shim_free"@
}

pub open spec fn wrapper_name_v(n: Seq<char>) -> Seq<char> {
    n + "_shim_wrapper"@
}

pub open spec fn upcast_name_v(from: Seq<char>, to: Seq<char>) -> Seq<char> {
    from + "_shim_upcast_"@ + to
}

pub open spec fn downcast_name_v(from: Seq<char>, to: Seq<char>) -> Seq<char> {
    from + "_shim_downcast_"@ + to
}

/// The edge set the reachability pass follows from a record: every
/// structural reference, plus the synthetic retention edges — decorated
/// constructor dependencies, a type's synthesized allocator pair, and a
/// type's synthesized casts to its bases.
pub open spec fn gc_dep(a: ApiV, n: Seq<char>) -> bool {
    structural_dep(a, n) || a.ctor_deps.contains(n) || (match a.payload {
        PayloadV::Record(d) => (a.class == Some(TypeClass::Opaque) && (n == alloc_name_v(a.name)
            || n == free_name_v(a.name))) || (exists|i: int|
            0 <= i < d.bases.len() && (n == upcast_name_v(a.name, d.bases[i]) || n
                == downcast_name_v(a.name, d.bases[i]))),
        PayloadV::Function(f) => match a.shape {
            Some(sh) => sh.wrapper == Some(n),
            None => false,
        },
        _ => false,
    })
}


/// The subsequence of the first `i` records whose keep-mark is set;
/// how every removal phase states its output.
pub open spec fn kept_prefix(s: Seq<ApiV>, keep: Seq<bool>, i: int) -> Seq<ApiV>
    decreases i,
{
    if i <= 0 {
        Seq::empty()
    } else {
        let rest = kept_prefix(s, keep, i - 1);
        if keep[i - 1] {
            rest.push(s[i - 1])
        } else {
            rest
        }
    }
}

/// Everything the kept subsequence holds comes from a kept position.
pub proof fn lemma_kept_prefix_src(s: Seq<ApiV>, keep: Seq<bool>, i: int, p: int)
    requires
        0 <= i <= s.len(),
        0 <= p < kept_prefix(s, keep, i).len(),
    ensures
        exists|j: int| 0 <= j < i && (#[trigger] keep[j]) && s[j] == kept_prefix(s, keep, i)[p],
    decreases i,
{
    if i > 0 {
        lemma_kept_prefix_len(s, keep, i);
        if keep[i - 1] && p == kept_prefix(s, keep, i).len() - 1 {
            assert(0 <= i - 1 < i && keep[i - 1] && s[i - 1] == kept_prefix(s, keep, i)[p]);
        } else {
            assert(kept_prefix(s, keep, i)[p] == kept_prefix(s, keep, i - 1)[p]);
            lemma_kept_prefix_src(s, keep, i - 1, p);
            let j = choose|j: int|
                0 <= j < i - 1 && (#[trigger] keep[j]) && s[j] == kept_prefix(s, keep, i - 1)[p];
            assert(0 <= j < i && keep[j] && s[j] == kept_prefix(s, keep, i)[p]);
        }
    }
}

/// The kept subsequence never grows beyond its source prefix.
pub proof fn lemma_kept_prefix_len(s: Seq<ApiV>, keep: Seq<bool>, i: int)
    requires
        0 <= i <= s.len(),
    ensures
        kept_prefix(s, keep, i).len() <= i,
    decreases i,
{
    if i > 0 {
        lemma_kept_prefix_len(s, keep, i - 1);
    }
}

/// Every kept position contributes its record to the kept subsequence.
pub proof fn lemma_kept_prefix_keeps(s: Seq<ApiV>, keep: Seq<bool>, i: int, j: int)
    requires
        0 <= i <= s.len(),
        0 <= j < i,
        keep[j],
    ensures
        kept_prefix(s, keep, i).contains(s[j]),
    decreases i,
{
    if j == i - 1 {
        let cur = kept_prefix(s, keep, i);
        assert(cur[cur.len() - 1] == s[i - 1]);
    } else {
        lemma_kept_prefix_keeps(s, keep, i - 1, j);
        let prev = kept_prefix(s, keep, i - 1);
        let q = choose|q: int| 0 <= q < prev.len() && (#[trigger] prev[q]) == s[j];
        assert(kept_prefix(s, keep, i)[q] == s[j]);
    }
}


/// Does the record's dependency-name vector hold `n`?
pub fn names_contain(v: &Vec<QualifiedName>, n: &QualifiedName) -> (r: bool)
    ensures
        r == v@.map_values(|m: QualifiedName| m@).contains(n@),
{
    let ghost vv = v@.map_values(|m: QualifiedName| m@);
    let mut i: usize = 0;
    let len = v.len();
    while i < len
        invariant
            i <= len,
            len == vv.len(),
            forall|p: int| 0 <= p < i ==> vv[p] != n@,
        decreases len - i,
    {
        if v[i].eq_name(n) {
            proof {
                assert(vv[i as int] == n@);
            }
            return true;
        }
        proof {
            assert(vv[i as int] == v@[i as int]@);
        }
        i = i + 1;
    }
    false
}

/// Decide a structural (type or signature) reference to `n`.
pub fn structural_dep_exec(a: &Api, n: &QualifiedName) -> (r: bool)
    ensures
        r == structural_dep(a@, n@),
{
    match &a.payload {
        Payload::Function(f) => {
            let ghost fv = f@;
            let plen = f.params.len();
            let mut p: usize = 0;
            while p < plen
                invariant
                    p <= plen,
                    fv == f@,
                    plen == fv.params.len(),
                    forall|q: int| 0 <= q < p ==> !typeref_dep((#[trigger] fv.params[q]).ty, n@),
                decreases plen - p,
            {
                let prm = &f.params[p];
                proof {
                    assert(fv.params[p as int] == f.params@[p as int]@);
                }
                if !prm.ty.primitive && prm.ty.name.eq_name(n) {
                    proof {
                        assert(typeref_dep(fv.params[p as int].ty, n@));
                    }
                    return true;
                }
                p = p + 1;
            }
            let ret_hit = match &f.ret {
                Some(t) => !t.primitive && t.name.eq_name(n),
                None => false,
            };
            if ret_hit {
                return true;
            }
            match &f.self_ty {
                Some(t) => t.eq_name(n),
                None => false,
            }
        },
        Payload::Record(d) => {
            let ghost dv = d@;
            let flen = d.fields.len();
            let mut p: usize = 0;
            while p < flen
                invariant
                    p <= flen,
                    dv == d@,
                    flen == dv.fields.len(),
                    forall|q: int| 0 <= q < p ==> !typeref_dep(#[trigger] dv.fields[q], n@),
                decreases flen - p,
            {
                let fld = &d.fields[p];
                proof {
                    assert(dv.fields[p as int] == d.fields@[p as int]@);
                }
                if !fld.primitive && fld.name.eq_name(n) {
                    proof {
                        assert(typeref_dep(dv.fields[p as int], n@));
                    }
                    return true;
                }
                p = p + 1;
            }
            let blen = d.bases.len();
            let mut b: usize = 0;
            while b < blen
                invariant
                    b <= blen,
                    dv == d@,
                    blen == dv.bases.len(),
                    forall|q: int| 0 <= q < b ==> #[trigger] dv.bases[q] != n@,
                decreases blen - b,
            {
                proof {
                    assert(dv.bases[b as int] == d.bases@[b as int]@);
                }
                if d.bases[b].eq_name(n) {
                    proof {
                        assert(dv.bases.contains(n@));
                    }
                    return true;
                }
                b = b + 1;
            }
            false
        },
        Payload::Typedef(t) => !t.primitive && t.name.eq_name(n),
        Payload::Wrapper(w) => w.callee.eq_name(n),
        Payload::Cast(c) => c.from.eq_name(n) || c.to.eq_name(n),
        Payload::Alloc(t) => t.eq_name(n),
        Payload::Free(t) => t.eq_name(n),
        Payload::EnumDecl => false,
        Payload::ConstDecl => false,
        Payload::CTypeMarker => false,
    }
}


/// Duplicate a vector of qualified names.
pub fn clone_names(v: &Vec<QualifiedName>) -> (r: Vec<QualifiedName>)
    ensures
        r@ == v@,
{
    let mut r: Vec<QualifiedName> = Vec::new();
    let mut i: usize = 0;
    let n = v.len();
    while i < n
        invariant
            i <= n,
            n == v@.len(),
            r@.len() == i,
            forall|p: int| 0 <= p < i ==> r@[p] == v@[p],
        decreases n - i,
    {
        r.push(v[i].clone());
        i = i + 1;
    }
    proof {
        assert(r@ =~= v@);
    }
    r
}


/// Filtering preserves the one-record-per-name invariant.
pub proof fn lemma_kept_prefix_uniq(s: Seq<ApiV>, keep: Seq<bool>, i: int)
    requires
        0 <= i <= s.len(),
        uniq_names(s),
    ensures
        uniq_names(kept_prefix(s, keep, i)),
    decreases i,
{
    if i > 0 {
        lemma_kept_prefix_uniq(s, keep, i - 1);
        lemma_kept_prefix_len(s, keep, i - 1);
        let prev = kept_prefix(s, keep, i - 1);
        let cur = kept_prefix(s, keep, i);
        if keep[i - 1] {
            assert forall|p: int, q: int|
                0 <= p < q < cur.len() implies cur[p].name != cur[q].name by {
                if q < cur.len() - 1 {
                    assert(cur[p] == prev[p] && cur[q] == prev[q]);
                } else {
                    assert(cur[p] == prev[p]);
                    lemma_kept_prefix_src(s, keep, i - 1, p);
                    let j = choose|j: int|
                        0 <= j < i - 1 && (#[trigger] keep[j]) && s[j] == kept_prefix(
                            s,
                            keep,
                            i - 1,
                        )[p];
                    assert(cur[q] == s[i - 1]);
                    assert(s[j].name != s[i - 1].name);
                }
            }
        }
    }
}

impl Api {
    /// A fresh record as ingestion creates it: no annotation slot filled.
    pub fn plain(
        name: QualifiedName,
        cpp_name: Option<crate::name::CppOriginalName>,
        payload: Payload,
        always_keep: bool,
    ) -> (r: Api)
        ensures
            r@.name == name@,
            r@.payload == payload@,
            r@.class is None,
            r@.shape is None,
            r@.ctor_deps.len() == 0,
            r@.ignored is None,
            r@.always_keep == always_keep,
            r@.cpp_name == (match cpp_name {
                Some(c) => Some(c@),
                None => None::<Seq<char>>,
            }),
    {
        Api {
            name,
            cpp_name,
            payload,
            class: None,
            shape: None,
            ctor_deps: Vec::new(),
            ignored: None,
            always_keep,
        }
    }
}

} // verus!
