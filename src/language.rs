use vstd::prelude::*;

verus! {

/// How serious a reported problem is.
#[derive(Clone, Copy, Debug, PartialEq, Eq, Structural)]
pub enum Severity {
    Error,
    Warning,
    Info,
    Hint,
}

/// A place in a language's own coordinates: one-based line and column.
#[derive(Clone, Copy, Debug, PartialEq, Eq, Structural)]
pub struct Location {
    pub line: usize,
    pub column: usize,
}

/// A problem found by a language's parser or checker.
pub struct RawError {
    pub start: Location,
    pub end: Location,
    pub callout: String,
    pub level: Severity,
    pub hint: Option<String>,
}

/// A function's name and the names of its arguments, in declaration order.
pub struct FunctionSignature {
    pub name: String,
    pub args: Vec<String>,
}

/// A function's signature with its markdown description.
pub struct FunctionDoc {
    pub signature: FunctionSignature,
    pub description: String,
}

/// What a source language offers to the pipelines: its parser's findings,
/// the members of a namespace, and the documentation of a fully qualified
/// function name.
pub trait Language {
    // The models below let the pipelines state what they return for the
    // language's answers. A verified implementation gives each one the body
    // that its methods meet; the default leaves the model unknown, and an
    // implementation outside Verus keeps it.

    /// What the parser finds in a text. The pipelines treat a language as
    /// a pure function of its input.
    closed spec fn errors_for(&self, text: Seq<char>) -> Option<Vec<RawError>> {
        vstd::pervasive::arbitrary()
    }

    /// The members that a namespace declares.
    closed spec fn members_of(&self, namespace: Seq<char>) -> Seq<String> {
        vstd::pervasive::arbitrary()
    }

    /// The documentation known for a fully qualified name.
    closed spec fn doc_for(&self, name: Seq<char>) -> Option<FunctionDoc> {
        vstd::pervasive::arbitrary()
    }

    /// The problems found in `text`, in document order; `None` when parsing
    /// was not attempted.
    fn parse_errors(&self, text: &str) -> (r: Option<Vec<RawError>>)
        ensures
            r == self.errors_for(text@),
    ;

    /// The member names declared in `namespace`; empty when it is unknown.
    fn functions(&self, namespace: &str) -> (r: Vec<String>)
        ensures
            r@ == self.members_of(namespace@),
    ;

    /// The documentation of a fully qualified name, if known.
    fn function_doc(&self, name: &str) -> (r: Option<FunctionDoc>)
        ensures
            r == self.doc_for(name@),
    ;
}

} // verus!
