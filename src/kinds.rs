use vstd::prelude::*;

verus! {

/// What kind of construct introduced a name.
#[derive(Clone, Copy, Debug, PartialEq, Eq, Structural)]
pub enum NameKind {
    LetIn,
    RecAttrset,
    Param,
    PatField,
    PlainAttrset,
}

/// What kind of value a builtin symbol is.
#[derive(Clone, Copy, Debug, PartialEq, Eq, Structural)]
pub enum BuiltinKind {
    Const,
    Function,
    Attrset,
}

/// The type of a completion item.
#[derive(Clone, Copy, Debug, PartialEq, Eq, PartialOrd, Ord, Structural)]
pub enum CompletionItemKind {
    Keyword,
    Param,
    LetBinding,
    Field,
    BuiltinConst,
    BuiltinFunction,
    BuiltinAttrset,
}

pub open spec fn builtin_item_kind(k: BuiltinKind) -> CompletionItemKind {
    match k {
        BuiltinKind::Const => CompletionItemKind::BuiltinConst,
        BuiltinKind::Function => CompletionItemKind::BuiltinFunction,
        BuiltinKind::Attrset => CompletionItemKind::BuiltinAttrset,
    }
}

/// The completion kind of a definition; names of plain (non-`rec`) attrsets
/// are no definitions and have none.
pub open spec fn name_item_kind(k: NameKind) -> Option<CompletionItemKind> {
    match k {
        NameKind::LetIn => Some(CompletionItemKind::LetBinding),
        NameKind::RecAttrset => Some(CompletionItemKind::Field),
        NameKind::Param | NameKind::PatField => Some(CompletionItemKind::Param),
        NameKind::PlainAttrset => None,
    }
}

impl From<BuiltinKind> for CompletionItemKind {
    fn from(k: BuiltinKind) -> (r: CompletionItemKind)
        ensures
            r == builtin_item_kind(k),
    {
        match k {
            BuiltinKind::Const => CompletionItemKind::BuiltinConst,
            BuiltinKind::Function => CompletionItemKind::BuiltinFunction,
            BuiltinKind::Attrset => CompletionItemKind::BuiltinAttrset,
        }
    }
}

impl vstd::std_specs::convert::FromSpecImpl<BuiltinKind> for CompletionItemKind {
    open spec fn obeys_from_spec() -> bool {
        true
    }

    open spec fn from_spec(k: BuiltinKind) -> CompletionItemKind {
        builtin_item_kind(k)
    }
}

impl TryFrom<NameKind> for CompletionItemKind {
    type Error = ();

    fn try_from(k: NameKind) -> (r: Result<CompletionItemKind, ()>)
        ensures
            r matches Ok(c) ==> name_item_kind(k) == Some(c),
            r is Err <==> name_item_kind(k) is None,
    {
        match k {
            NameKind::LetIn => Ok(CompletionItemKind::LetBinding),
            NameKind::RecAttrset => Ok(CompletionItemKind::Field),
            NameKind::Param | NameKind::PatField => Ok(CompletionItemKind::Param),
            NameKind::PlainAttrset => Err(()),
        }
    }
}

impl vstd::std_specs::convert::TryFromSpecImpl<NameKind> for CompletionItemKind {
    open spec fn obeys_try_from_spec() -> bool {
        true
    }

    open spec fn try_from_spec(k: NameKind) -> Result<CompletionItemKind, ()> {
        match name_item_kind(k) {
            Some(c) => Ok(c),
            None => Err(()),
        }
    }
}

} // verus!
