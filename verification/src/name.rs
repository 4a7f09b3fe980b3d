use vstd::prelude::*;

verus! {

/// A separator "::" starts at position `p` of `s`.
pub open spec fn sep_at(s: Seq<char>, p: int) -> bool {
    0 <= p && p + 2 <= s.len() && s[p] == ':' && s[p + 1] == ':'
}

/// The name contains at least one "::" separator, i.e. it names a nested item.
pub open spec fn has_sep(s: Seq<char>) -> bool {
    exists|p: int| sep_at(s, p)
}

/// `id` is the final segment of the qualified spelling `n`: everything
/// after the last "::" separator, or the whole spelling when `n` has a
/// single segment.
pub open spec fn is_final_segment(n: Seq<char>, id: Seq<char>) -> bool {
    if has_sep(n) {
        exists|p: int|
            sep_at(n, p) && (forall|q: int| p < q ==> !sep_at(n, q)) && id == n.subrange(
                p + 2,
                n.len() as int,
            )
    } else {
        id == n
    }
}

/// Scan for the last position where a "::" separator starts.
fn find_last_sep(s: &str) -> (r: Option<usize>)
    ensures
        match r {
            Some(p) => sep_at(s@, p as int) && (forall|q: int| p < q ==> !sep_at(s@, q)),
            None => !has_sep(s@),
        },
{
    let n = s.unicode_len();
    let mut best: Option<usize> = None;
    let mut i: usize = 0;
    while i < n
        invariant
            i <= n,
            n == s@.len(),
            match best {
                Some(p) => sep_at(s@, p as int) && p < i && (forall|q: int|
                    p < q < i ==> !sep_at(s@, q)),
                None => forall|q: int| 0 <= q < i ==> !sep_at(s@, q),
            },
        decreases n - i,
    {
        if i + 1 < n {
            let c0 = s.get_char(i);
            let c1 = s.get_char(i + 1);
            if c0 == ':' && c1 == ':' {
                best = Some(i);
            }
        }
        i = i + 1;
    }
    best
}

/// A namespaced identifier uniquely identifying a foreign declaration.
/// Segments are joined with "::"; equality is structural over the
/// segment text, which coincides with equality of the joined spelling.
#[derive(Debug, Eq, Hash)]
pub struct QualifiedName {
    pub text: String,
}

impl View for QualifiedName {
    type V = Seq<char>;

    open spec fn view(&self) -> Seq<char> {
        self.text@
    }
}

impl Clone for QualifiedName {
    fn clone(&self) -> (r: Self)
        ensures
            r == *self,
    {
        QualifiedName { text: self.text.clone() }
    }
}

impl PartialEq for QualifiedName {
    fn eq(&self, other: &Self) -> (r: bool) {
        self.text == other.text
    }
}

impl vstd::std_specs::cmp::PartialEqSpecImpl for QualifiedName {
    open spec fn obeys_eq_spec() -> bool {
        true
    }

    open spec fn eq_spec(&self, other: &Self) -> bool {
        self.text@ == other.text@
    }
}

impl QualifiedName {
    pub fn new(text: String) -> (r: Self)
        ensures
            r@ == text@,
    {
        QualifiedName { text }
    }

    pub fn from_path(text: &str) -> (r: Self)
        ensures
            r@ == text@,
    {
        QualifiedName { text: text.to_owned() }
    }

    /// Structural name equality, the join key of every phase.
    pub fn eq_name(&self, other: &QualifiedName) -> (r: bool)
        ensures
            r == (self@ == other@),
    {
        self.text == other.text
    }

    /// The last segment of the name: everything after the final "::",
    /// or the whole spelling when the name has a single segment.
    pub fn get_final_item(&self) -> (r: &str)
        ensures
            is_final_segment(self@, r@),
    {
        let s = self.text.as_str();
        let n = s.unicode_len();
        match find_last_sep(s) {
            None => {
                let whole = s.substring_char(0, n);
                proof {
                    assert(whole@ =~= self@);
                }
                whole
            },
            Some(p) => s.substring_char(p + 2, n),
        }
    }

    pub fn get_final_ident(&self) -> (r: Ident)
        ensures
            is_final_segment(self@, r@),
    {
        Ident { text: self.get_final_item().to_owned() }
    }
}

/// A single identifier without namespace qualification.
#[derive(Debug, Eq, Hash)]
pub struct Ident {
    pub text: String,
}

impl View for Ident {
    type V = Seq<char>;

    open spec fn view(&self) -> Seq<char> {
        self.text@
    }
}

impl Clone for Ident {
    fn clone(&self) -> (r: Self)
        ensures
            r == *self,
    {
        Ident { text: self.text.clone() }
    }
}

impl PartialEq for Ident {
    fn eq(&self, other: &Self) -> (r: bool) {
        self.text == other.text
    }
}

impl vstd::std_specs::cmp::PartialEqSpecImpl for Ident {
    open spec fn obeys_eq_spec() -> bool {
        true
    }

    open spec fn eq_spec(&self, other: &Self) -> bool {
        self.text@ == other.text@
    }
}

impl Ident {
    pub fn new(text: String) -> (r: Self)
        ensures
            r@ == text@,
    {
        Ident { text }
    }

    pub fn to_string(&self) -> (r: String)
        ensures
            r@ == self@,
    {
        self.text.clone()
    }
}

/// The C++-side spelling of a declaration as the external parser reported
/// it, when it differs from the host-side name.
#[derive(Debug, Eq, Hash)]
pub struct CppOriginalName {
    pub text: String,
}

impl View for CppOriginalName {
    type V = Seq<char>;

    open spec fn view(&self) -> Seq<char> {
        self.text@
    }
}

impl Clone for CppOriginalName {
    fn clone(&self) -> (r: Self)
        ensures
            r == *self,
    {
        CppOriginalName { text: self.text.clone() }
    }
}

impl PartialEq for CppOriginalName {
    fn eq(&self, other: &Self) -> (r: bool) {
        self.text == other.text
    }
}

impl vstd::std_specs::cmp::PartialEqSpecImpl for CppOriginalName {
    open spec fn obeys_eq_spec() -> bool {
        true
    }

    open spec fn eq_spec(&self, other: &Self) -> bool {
        self.text@ == other.text@
    }
}

impl CppOriginalName {
    pub fn new(text: String) -> (r: Self)
        ensures
            r@ == text@,
    {
        CppOriginalName { text }
    }

    pub fn to_effective_name(&self) -> (r: CppEffectiveName)
        ensures
            r@ == self@,
    {
        CppEffectiveName { text: self.text.clone() }
    }
}

/// The "effective name" used when generating C++ code for a record.
/// It may contain several "::"-joined segments when it refers to an
/// inner type such as `Outer::Inner`.
#[derive(Debug, Eq, Hash)]
pub struct CppEffectiveName {
    pub text: String,
}

impl View for CppEffectiveName {
    type V = Seq<char>;

    open spec fn view(&self) -> Seq<char> {
        self.text@
    }
}

impl Clone for CppEffectiveName {
    fn clone(&self) -> (r: Self)
        ensures
            r == *self,
    {
        CppEffectiveName { text: self.text.clone() }
    }
}

impl PartialEq for CppEffectiveName {
    fn eq(&self, other: &Self) -> (r: bool) {
        self.text == other.text
    }
}

impl vstd::std_specs::cmp::PartialEqSpecImpl for CppEffectiveName {
    open spec fn obeys_eq_spec() -> bool {
        true
    }

    open spec fn eq_spec(&self, other: &Self) -> bool {
        self.text@ == other.text@
    }
}

impl CppEffectiveName {
    /// Prefer the C++ spelling the parser reported; fall back to the
    /// host-side name when no distinct C++ spelling exists.
    pub fn from_cpp_name_and_rust_name(cpp_name: Option<&CppOriginalName>, rust_name: &str) -> (r:
        Self)
        ensures
            match cpp_name {
                Some(c) => r@ == c@,
                None => r@ == rust_name@,
            },
    {
        match cpp_name {
            Some(cpp) => cpp.to_effective_name(),
            None => CppEffectiveName { text: rust_name.to_owned() },
        }
    }

    /// The effective name of a record, derived from the parser's original
    /// name when present and otherwise from the final segment of the
    /// record's qualified name.
    pub fn from_api_details(original_name: &Option<CppOriginalName>, api_name: &QualifiedName) -> (
        r: Self)
        ensures
            match original_name {
                Some(c) => r@ == c@,
                None => is_final_segment(api_name@, r@),
            },
    {
        Self::from_cpp_name_and_rust_name(original_name.as_ref(), api_name.get_final_item())
    }

    pub fn to_string_for_cpp_generation(&self) -> (r: &str)
        ensures
            r@ == self@,
    {
        self.text.as_str()
    }

    pub fn from_subclass_function_name(rust_call_name: String) -> (r: CppEffectiveName)
        ensures
            r@ == rust_call_name@,
    {
        CppEffectiveName { text: rust_call_name }
    }

    pub fn from_cxxbridge_name(cxxbridge_name: &Ident) -> (r: CppEffectiveName)
        ensures
            r@ == cxxbridge_name@,
    {
        CppEffectiveName { text: cxxbridge_name.to_string() }
    }

    pub fn from_rust_name(rust_name: String) -> (r: CppEffectiveName)
        ensures
            r@ == rust_name@,
    {
        CppEffectiveName { text: rust_name }
    }

    pub fn from_fully_qualified_name_for_subclass(to_cpp_name: &str) -> (r: CppEffectiveName)
        ensures
            r@ == to_cpp_name@,
    {
        CppEffectiveName { text: to_cpp_name.to_owned() }
    }

    /// The trailing segment of a nested effective name, if the name is
    /// nested at all.
    pub fn final_segment_if_any(&self) -> (r: Option<&str>)
        ensures
            (r is Some) == has_sep(self@),
            match r {
                Some(seg) => exists|p: int|
                    sep_at(self@, p) && (forall|q: int| p < q ==> !sep_at(self@, q)) && seg@
                        == self@.subrange(p + 2, self@.len() as int),
                None => !has_sep(self@),
            },
    {
        let s = self.text.as_str();
        let n = s.unicode_len();
        match find_last_sep(s) {
            None => None,
            Some(p) => {
                let seg = s.substring_char(p + 2, n);
                proof {
                    assert(sep_at(self@, p as int) && (forall|q: int| p < q ==> !sep_at(self@, q))
                        && seg@ == self@.subrange(p + 2, self@.len() as int));
                }
                Some(seg)
            },
        }
    }

    pub fn is_nested(&self) -> (r: bool)
        ensures
            r == has_sep(self@),
    {
        let s = self.text.as_str();
        match find_last_sep(s) {
            None => false,
            Some(_) => true,
        }
    }
}

} // verus!
