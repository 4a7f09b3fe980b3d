use crate::name::{Ident, QualifiedName};
use vstd::prelude::*;
use vstd::string::StringExecFns;

verus! {

/// A fatal condition attributed to the C++-side of the pipeline: either
/// a validation failure on the input records or a code-generation-stage
/// invariant violation. Each variant that concerns one record carries
/// the offending qualified name.
#[derive(Debug)]
pub enum ConvertErrorFromCpp {
    /// Two input declarations carried the same qualified name.
    DuplicateName(QualifiedName),
    /// A record reached code generation without the annotation the
    /// generator relies on; this signals a pipeline bug.
    MissingAnnotation(QualifiedName),
    /// The declaration discards a template parameter.
    UnusedTemplateParam,
    /// The declaration's effective visibility is not public.
    NonPublicNestedType,
}

impl ConvertErrorFromCpp {
    /// A human-readable rendering of the error, naming the offending
    /// qualified name where the error concerns one record.
    pub fn describe(&self) -> (r: String)
        ensures
            match self {
                ConvertErrorFromCpp::DuplicateName(n) => r@ == "duplicate name: "@ + n@,
                ConvertErrorFromCpp::MissingAnnotation(n) => r@
                    == "record reached code generation without its annotation: "@ + n@,
                ConvertErrorFromCpp::UnusedTemplateParam => r@
                    == "declaration discards a template parameter"@,
                ConvertErrorFromCpp::NonPublicNestedType => r@
                    == "declaration is not publicly visible"@,
            },
    {
        let mut s = String::new();
        match self {
            ConvertErrorFromCpp::DuplicateName(n) => {
                s.append("duplicate name: ");
                s.append(n.text.as_str());
                proof {
                    assert(s@ =~= "duplicate name: "@ + n@);
                }
            },
            ConvertErrorFromCpp::MissingAnnotation(n) => {
                s.append("record reached code generation without its annotation: ");
                s.append(n.text.as_str());
                proof {
                    assert(s@ =~= "record reached code generation without its annotation: "@
                        + n@);
                }
            },
            ConvertErrorFromCpp::UnusedTemplateParam => {
                s.append("declaration discards a template parameter");
                proof {
                    assert(s@ =~= "declaration discards a template parameter"@);
                }
            },
            ConvertErrorFromCpp::NonPublicNestedType => {
                s.append("declaration is not publicly visible");
                proof {
                    assert(s@ =~= "declaration is not publicly visible"@);
                }
            },
        }
        s
    }
}

/// The item a per-declaration error is about.
#[derive(Debug)]
pub struct ErrorContext {
    pub item: Ident,
}

impl ErrorContext {
    pub fn new_for_item(item: Ident) -> (r: Self)
        ensures
            r.item@ == item@,
    {
        ErrorContext { item }
    }
}

/// A per-declaration error together with the item it concerns.
#[derive(Debug)]
pub struct ConvertErrorWithContext(pub ConvertErrorFromCpp, pub Option<ErrorContext>);

/// The error surface of a whole pipeline run.
#[derive(Debug)]
pub enum ConvertError {
    /// The input stream contained no declarations at all; an empty
    /// module is a configuration error, not a degenerate run.
    NoContent,
    /// A fatal C++-side error.
    Cpp(ConvertErrorFromCpp),
}

} // verus!
