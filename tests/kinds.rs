use nil_ide::kinds::{BuiltinKind, CompletionItemKind, NameKind};

#[test]
fn builtin_kinds_map() {
    assert_eq!(CompletionItemKind::from(BuiltinKind::Const), CompletionItemKind::BuiltinConst);
    assert_eq!(CompletionItemKind::from(BuiltinKind::Function), CompletionItemKind::BuiltinFunction);
    assert_eq!(CompletionItemKind::from(BuiltinKind::Attrset), CompletionItemKind::BuiltinAttrset);
}

#[test]
fn name_kinds_map() {
    assert_eq!(CompletionItemKind::try_from(NameKind::LetIn), Ok(CompletionItemKind::LetBinding));
    assert_eq!(CompletionItemKind::try_from(NameKind::RecAttrset), Ok(CompletionItemKind::Field));
    assert_eq!(CompletionItemKind::try_from(NameKind::Param), Ok(CompletionItemKind::Param));
    assert_eq!(CompletionItemKind::try_from(NameKind::PatField), Ok(CompletionItemKind::Param));
    assert_eq!(CompletionItemKind::try_from(NameKind::PlainAttrset), Err(()));
}
