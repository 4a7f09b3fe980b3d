use crate::name::QualifiedName;
use vstd::prelude::*;

verus! {

/// Effective C++ visibility of a declaration, as reported by the
/// external parser's callbacks.
#[derive(Clone, Copy, Debug, PartialEq, Eq, Structural)]
pub enum CppVisibility {
    Public,
    Protected,
    Private,
}

/// Whether synthesized direct-bridge function records are safe to call
/// by default, or require explicit opt-in from the caller.
#[derive(Clone, Copy, Debug, PartialEq, Eq, Structural)]
pub enum UnsafePolicy {
    AllFunctionsSafe,
    AllFunctionsUnsafe,
}

/// The caller's inclusion configuration: the allow-list root set and
/// the types the caller asked to treat as plain-old-data.
#[derive(Debug)]
pub struct IncludeCppConfig {
    pub allowlist: Vec<QualifiedName>,
    pub pod_requests: Vec<QualifiedName>,
}

impl IncludeCppConfig {
    pub open spec fn allowlist_v(&self) -> Seq<Seq<char>> {
        self.allowlist@.map_values(|n: QualifiedName| n@)
    }

    pub open spec fn pod_requests_v(&self) -> Seq<Seq<char>> {
        self.pod_requests@.map_values(|n: QualifiedName| n@)
    }

    pub fn is_on_allowlist(&self, n: &QualifiedName) -> (r: bool)
        ensures
            r == self.allowlist_v().contains(n@),
    {
        let mut i: usize = 0;
        let len = self.allowlist.len();
        while i < len
            invariant
                i <= len,
                len == self.allowlist@.len(),
                forall|j: int| 0 <= j < i ==> self.allowlist_v()[j] != n@,
            decreases len - i,
        {
            if self.allowlist[i].eq_name(n) {
                proof {
                    assert(self.allowlist_v()[i as int] == n@);
                }
                return true;
            }
            proof {
                assert(self.allowlist_v()[i as int] != n@);
            }
            i = i + 1;
        }
        false
    }

    pub fn is_pod_requested(&self, n: &QualifiedName) -> (r: bool)
        ensures
            r == self.pod_requests_v().contains(n@),
    {
        let mut i: usize = 0;
        let len = self.pod_requests.len();
        while i < len
            invariant
                i <= len,
                len == self.pod_requests@.len(),
                forall|j: int| 0 <= j < i ==> self.pod_requests_v()[j] != n@,
            decreases len - i,
        {
            if self.pod_requests[i].eq_name(n) {
                proof {
                    assert(self.pod_requests_v()[i as int] == n@);
                }
                return true;
            }
            proof {
                assert(self.pod_requests_v()[i as int] != n@);
            }
            i = i + 1;
        }
        false
    }
}

/// Options that steer code generation: a global override forcing
/// wrapper synthesis for every function, and the name chosen for the
/// generated shim header, threaded end-to-end into both outputs.
#[derive(Debug)]
pub struct CodegenOptions {
    pub force_wrapper_gen: bool,
    pub cxxgen_header_name: String,
}

/// What the external parser's callbacks reported for one declaration.
#[derive(Debug)]
pub struct CallbackEntry {
    pub name: QualifiedName,
    pub visibility: CppVisibility,
    pub discards_template_param: bool,
    pub forbids_trivial_copy: bool,
}

pub struct CallbackEntryV {
    pub name: Seq<char>,
    pub visibility: CppVisibility,
    pub discards_template_param: bool,
    pub forbids_trivial_copy: bool,
}

impl View for CallbackEntry {
    type V = CallbackEntryV;

    open spec fn view(&self) -> CallbackEntryV {
        CallbackEntryV {
            name: self.name@,
            visibility: self.visibility,
            discards_template_param: self.discards_template_param,
            forbids_trivial_copy: self.forbids_trivial_copy,
        }
    }
}

/// Everything the external parser's callbacks reported, keyed by
/// qualified name. A name with no entry gets the defaults: public,
/// no discarded template parameter, trivially copyable.
#[derive(Debug)]
pub struct ParseCallbackResults {
    pub entries: Vec<CallbackEntry>,
}

impl ParseCallbackResults {
    pub open spec fn entries_v(&self) -> Seq<CallbackEntryV> {
        self.entries@.map_values(|e: CallbackEntry| e@)
    }

    /// The declaration was reported to discard a template parameter.
    pub open spec fn discards_v(&self, n: Seq<char>) -> bool {
        exists|i: int|
            0 <= i < self.entries_v().len() && self.entries_v()[i].name == n
                && self.entries_v()[i].discards_template_param
    }

    /// Every report about the declaration says it is public.
    pub open spec fn is_public_v(&self, n: Seq<char>) -> bool {
        forall|i: int|
            0 <= i < self.entries_v().len() && self.entries_v()[i].name == n
                ==> self.entries_v()[i].visibility is Public
    }

    /// The declaration was reported to have a user-declared special
    /// member that forbids trivial copying.
    pub open spec fn forbids_trivial_copy_v(&self, n: Seq<char>) -> bool {
        exists|i: int|
            0 <= i < self.entries_v().len() && self.entries_v()[i].name == n
                && self.entries_v()[i].forbids_trivial_copy
    }

    pub fn discards_template_param(&self, n: &QualifiedName) -> (r: bool)
        ensures
            r == self.discards_v(n@),
    {
        let mut i: usize = 0;
        let len = self.entries.len();
        while i < len
            invariant
                i <= len,
                len == self.entries@.len(),
                forall|j: int|
                    0 <= j < i ==> !(self.entries_v()[j].name == n@
                        && self.entries_v()[j].discards_template_param),
            decreases len - i,
        {
            if self.entries[i].name.eq_name(n) && self.entries[i].discards_template_param {
                proof {
                    assert(self.entries_v()[i as int].name == n@
                        && self.entries_v()[i as int].discards_template_param);
                }
                return true;
            }
            proof {
                assert(!(self.entries_v()[i as int].name == n@
                    && self.entries_v()[i as int].discards_template_param));
            }
            i = i + 1;
        }
        false
    }

    /// Whether every callback report for this name is public; a name
    /// nobody reported on counts as public.
    pub fn reported_public(&self, n: &QualifiedName) -> (r: bool)
        ensures
            r == self.is_public_v(n@),
    {
        let mut i: usize = 0;
        let len = self.entries.len();
        while i < len
            invariant
                i <= len,
                len == self.entries@.len(),
                forall|j: int|
                    0 <= j < i ==> (self.entries_v()[j].name == n@
                        ==> self.entries_v()[j].visibility is Public),
            decreases len - i,
        {
            let ent = &self.entries[i];
            let non_public = match ent.visibility {
                CppVisibility::Public => false,
                CppVisibility::Protected => true,
                CppVisibility::Private => true,
            };
            if ent.name.eq_name(n) && non_public {
                proof {
                    assert(self.entries_v()[i as int].name == n@ && !(self.entries_v()[
                        i as int].visibility is Public));
                }
                return false;
            }
            proof {
                assert(self.entries_v()[i as int].name == n@ ==> self.entries_v()[
                    i as int].visibility is Public);
            }
            i = i + 1;
        }
        true
    }

    pub fn forbids_trivial_copy(&self, n: &QualifiedName) -> (r: bool)
        ensures
            r == self.forbids_trivial_copy_v(n@),
    {
        let mut i: usize = 0;
        let len = self.entries.len();
        while i < len
            invariant
                i <= len,
                len == self.entries@.len(),
                forall|j: int|
                    0 <= j < i ==> !(self.entries_v()[j].name == n@
                        && self.entries_v()[j].forbids_trivial_copy),
            decreases len - i,
        {
            if self.entries[i].name.eq_name(n) && self.entries[i].forbids_trivial_copy {
                proof {
                    assert(self.entries_v()[i as int].name == n@
                        && self.entries_v()[i as int].forbids_trivial_copy);
                }
                return true;
            }
            proof {
                assert(!(self.entries_v()[i as int].name == n@
                    && self.entries_v()[i as int].forbids_trivial_copy));
            }
            i = i + 1;
        }
        false
    }
}

} // verus!
