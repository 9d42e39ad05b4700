use vstd::prelude::*;
use crate::text::{append, decimal_text, u32_text, TextRange};

verus! {

/// The kinds of syntax error that the parser reports alongside its
/// error-recovered tree.
#[derive(Clone, Debug, PartialEq, Eq)]
pub enum SyntaxErrorKind {
    MultipleRoots,
    UnexpectedToken,
    MultipleNoAssoc,
    /// A required token is absent; the payload is the token as written.
    MissingToken(String),
    MissingExpr,
    MissingAttr,
    PathTrailingSlash,
    PathDuplicatedSlashes,
}

/// A syntax error as the parser hands it over.
#[derive(Clone, Debug, PartialEq, Eq)]
pub struct SyntaxError {
    pub range: TextRange,
    pub kind: SyntaxErrorKind,
}

#[derive(Clone, Debug, PartialEq, Eq)]
pub struct Diagnostic {
    pub range: TextRange,
    pub kind: DiagnosticKind,
}

#[derive(Clone, Debug, PartialEq, Eq)]
pub enum DiagnosticKind {
    // Syntax.
    SyntaxError(SyntaxErrorKind),
    // Lowering.
    InvalidDynamic,
    DuplicatedKey,
    EmptyInherit,
    EmptyLetIn,
    LetAttrset,
    UriLiteral,
    MergePlainRecAttrset,
    MergeRecAttrset,
    // Liveness.
    UnusedBinding,
    UnusedWith,
    UnusedRec,
}

#[derive(Clone, Copy, Debug, PartialEq, Eq, Structural)]
pub enum Severity {
    Error,
    Warning,
    IncompleteSyntax,
}

/// Syntax errors that are real mistakes rather than text in the middle of
/// being typed.
pub open spec fn is_hard_syntax_error(k: SyntaxErrorKind) -> bool {
    match k {
        SyntaxErrorKind::MultipleRoots
        | SyntaxErrorKind::PathTrailingSlash
        | SyntaxErrorKind::PathDuplicatedSlashes
        | SyntaxErrorKind::MultipleNoAssoc => true,
        _ => false,
    }
}

pub open spec fn severity_of(k: DiagnosticKind) -> Severity {
    match k {
        DiagnosticKind::InvalidDynamic | DiagnosticKind::DuplicatedKey => Severity::Error,
        DiagnosticKind::SyntaxError(s) => if is_hard_syntax_error(s) {
            Severity::Error
        } else {
            Severity::IncompleteSyntax
        },
        _ => Severity::Warning,
    }
}

pub open spec fn is_unnecessary_kind(k: DiagnosticKind) -> bool {
    match k {
        DiagnosticKind::EmptyInherit
        | DiagnosticKind::UnusedBinding
        | DiagnosticKind::UnusedWith
        | DiagnosticKind::UnusedRec => true,
        _ => false,
    }
}

pub open spec fn is_deprecated_kind(k: DiagnosticKind) -> bool {
    match k {
        DiagnosticKind::LetAttrset | DiagnosticKind::UriLiteral => true,
        _ => false,
    }
}

pub open spec fn syntax_message(k: SyntaxErrorKind) -> Seq<char> {
    match k {
        SyntaxErrorKind::MultipleRoots => "Multiple root expressions"@,
        SyntaxErrorKind::UnexpectedToken => "Unexpected token"@,
        SyntaxErrorKind::MultipleNoAssoc => "Invalid usage of no-associative operators"@,
        SyntaxErrorKind::MissingToken(t) => "Missing "@ + t@,
        SyntaxErrorKind::MissingExpr => "Missing expression"@,
        SyntaxErrorKind::MissingAttr => "Missing attribute"@,
        SyntaxErrorKind::PathTrailingSlash => "Path with trailing slash"@,
        SyntaxErrorKind::PathDuplicatedSlashes => "Path with duplicated slashes"@,
    }
}

pub open spec fn message_of(k: DiagnosticKind) -> Seq<char> {
    match k {
        DiagnosticKind::SyntaxError(s) => syntax_message(s),
        DiagnosticKind::InvalidDynamic => "Invalid location of dynamic attribute"@,
        DiagnosticKind::DuplicatedKey => "Duplicated name definition"@,
        DiagnosticKind::EmptyInherit => "Nothing inherited"@,
        DiagnosticKind::EmptyLetIn => "Empty let-in"@,
        DiagnosticKind::LetAttrset => "`let { ... }` is deprecated. Use `let ... in ...` instead"@,
        DiagnosticKind::UriLiteral => "URL literal is confusing and deprecated. Use strings instead"@,
        DiagnosticKind::MergePlainRecAttrset =>
            "Merging non-rec-attrset with rec-attrset, the latter `rec` is implicitly ignored"@,
        DiagnosticKind::MergeRecAttrset =>
            "Merging rec-attrset with other attrsets or attrpath. Merged values can unexpectedly reference each other remotely as in a single `rec { ... }`."@,
        DiagnosticKind::UnusedBinding => "Unused binding"@,
        DiagnosticKind::UnusedWith => "Unused `with`"@,
        DiagnosticKind::UnusedRec => "Unused `rec`"@,
    }
}

impl SyntaxErrorKind {
    /// The human-readable description of this syntax error.
    pub fn message(&self) -> (r: String)
        ensures
            r@ == syntax_message(*self),
    {
        match self {
            SyntaxErrorKind::MultipleRoots => "Multiple root expressions".to_owned(),
            SyntaxErrorKind::UnexpectedToken => "Unexpected token".to_owned(),
            SyntaxErrorKind::MultipleNoAssoc => "Invalid usage of no-associative operators".to_owned(),
            SyntaxErrorKind::MissingToken(t) => {
                let mut s = "Missing ".to_owned();
                append(&mut s, t.as_str());
                s
            },
            SyntaxErrorKind::MissingExpr => "Missing expression".to_owned(),
            SyntaxErrorKind::MissingAttr => "Missing attribute".to_owned(),
            SyntaxErrorKind::PathTrailingSlash => "Path with trailing slash".to_owned(),
            SyntaxErrorKind::PathDuplicatedSlashes => "Path with duplicated slashes".to_owned(),
        }
    }
}

impl Diagnostic {
    pub fn severity(&self) -> (r: Severity)
        ensures
            r == severity_of(self.kind),
    {
        match &self.kind {
            DiagnosticKind::InvalidDynamic | DiagnosticKind::DuplicatedKey => Severity::Error,
            DiagnosticKind::EmptyInherit
            | DiagnosticKind::EmptyLetIn
            | DiagnosticKind::LetAttrset
            | DiagnosticKind::UriLiteral
            | DiagnosticKind::MergePlainRecAttrset
            | DiagnosticKind::MergeRecAttrset
            | DiagnosticKind::UnusedBinding
            | DiagnosticKind::UnusedWith
            | DiagnosticKind::UnusedRec => Severity::Warning,
            DiagnosticKind::SyntaxError(kind) => match kind {
                SyntaxErrorKind::MultipleRoots
                | SyntaxErrorKind::PathTrailingSlash
                | SyntaxErrorKind::PathDuplicatedSlashes
                | SyntaxErrorKind::MultipleNoAssoc => Severity::Error,
                SyntaxErrorKind::UnexpectedToken
                | SyntaxErrorKind::MissingToken(_)
                | SyntaxErrorKind::MissingExpr
                | SyntaxErrorKind::MissingAttr => Severity::IncompleteSyntax,
            },
        }
    }

    pub fn message(&self) -> (r: String)
        ensures
            r@ == message_of(self.kind),
    {
        match &self.kind {
            DiagnosticKind::SyntaxError(kind) => kind.message(),
            DiagnosticKind::InvalidDynamic => "Invalid location of dynamic attribute".to_owned(),
            DiagnosticKind::DuplicatedKey => "Duplicated name definition".to_owned(),
            DiagnosticKind::EmptyInherit => "Nothing inherited".to_owned(),
            DiagnosticKind::EmptyLetIn => "Empty let-in".to_owned(),
            DiagnosticKind::LetAttrset =>
                "`let { ... }` is deprecated. Use `let ... in ...` instead".to_owned(),
            DiagnosticKind::UriLiteral =>
                "URL literal is confusing and deprecated. Use strings instead".to_owned(),
            DiagnosticKind::MergePlainRecAttrset =>
                "Merging non-rec-attrset with rec-attrset, the latter `rec` is implicitly ignored".to_owned(),
            DiagnosticKind::MergeRecAttrset =>
                "Merging rec-attrset with other attrsets or attrpath. Merged values can unexpectedly reference each other remotely as in a single `rec { ... }`.".to_owned(),
            DiagnosticKind::UnusedBinding => "Unused binding".to_owned(),
            DiagnosticKind::UnusedWith => "Unused `with`".to_owned(),
            DiagnosticKind::UnusedRec => "Unused `rec`".to_owned(),
        }
    }

    /// Whether editors may fade the diagnosed code out.
    pub fn is_unnecessary(&self) -> (r: bool)
        ensures
            r == is_unnecessary_kind(self.kind),
    {
        match &self.kind {
            DiagnosticKind::EmptyInherit
            | DiagnosticKind::UnusedBinding
            | DiagnosticKind::UnusedWith
            | DiagnosticKind::UnusedRec => true,
            _ => false,
        }
    }

    /// Whether editors may strike the diagnosed code through.
    pub fn is_deprecated(&self) -> (r: bool)
        ensures
            r == is_deprecated_kind(self.kind),
    {
        match &self.kind {
            DiagnosticKind::LetAttrset | DiagnosticKind::UriLiteral => true,
            _ => false,
        }
    }

    /// The diagnostic as one line of text: its message, then ` at `, then the
    /// range as `start..end`.
    pub fn to_string(&self) -> (r: String)
        ensures
            r@ == message_of(self.kind) + " at "@ + decimal_text(self.range.start as nat) + ".."@
                + decimal_text(self.range.end as nat),
    {
        let mut s = self.message();
        append(&mut s, " at ");
        let start = u32_text(self.range.start);
        append(&mut s, start.as_str());
        append(&mut s, "..");
        let end = u32_text(self.range.end);
        append(&mut s, end.as_str());
        s
    }
}

impl From<SyntaxError> for Diagnostic {
    fn from(err: SyntaxError) -> (r: Diagnostic)
        ensures
            r.range == err.range,
            r.kind == DiagnosticKind::SyntaxError(err.kind),
    {
        Diagnostic { range: err.range, kind: DiagnosticKind::SyntaxError(err.kind) }
    }
}

impl vstd::std_specs::convert::FromSpecImpl<SyntaxError> for Diagnostic {
    open spec fn obeys_from_spec() -> bool {
        true
    }

    open spec fn from_spec(err: SyntaxError) -> Diagnostic {
        Diagnostic { range: err.range, kind: DiagnosticKind::SyntaxError(err.kind) }
    }
}

} // verus!
