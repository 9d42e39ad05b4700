use nil_ide::analysis::FileAnalysis;
use nil_ide::completion::{
    completions, AttrpathSite, Builtin, CompletionItem, CursorSite, CursorToken, ExprSite,
    TokenKind,
};
use nil_ide::kinds::{BuiltinKind, NameKind};
use nil_ide::scope::{ModuleScopes, Name};
use nil_ide::text::TextRange;
use nil_ide::ty::{Attr, TyArena, TyKind};

/// A file model: its text with the `$0` cursor marker, and its analysis.
struct Fixture {
    text: String,
    offset: u32,
    db: FileAnalysis,
}

fn fixture(src: &str) -> Fixture {
    let offset = src.find("$0").expect("cursor marker");
    let text = src.replacen("$0", "", 1);
    let scopes = ModuleScopes::new();
    Fixture {
        text,
        offset: offset as u32,
        db: FileAnalysis { names: Vec::new(), scopes, tys: TyArena::new() },
    }
}

fn name(f: &mut Fixture, scope: usize, text: &str, kind: NameKind) -> usize {
    let id = f.db.names.len();
    f.db.names.push(Name { text: text.to_string(), kind });
    assert!(f.db.scopes.define(scope, text.to_string(), id));
    id
}

fn builtins() -> Vec<Builtin> {
    let b = |name: &str, kind, is_global| Builtin {
        name: name.to_string(),
        kind,
        is_global,
        summary: format!("`{name}`"),
        doc: None,
    };
    vec![
        b("__all", BuiltinKind::Function, false),
        b("attrNames", BuiltinKind::Function, false),
        b("builtins", BuiltinKind::Attrset, true),
        b("toString", BuiltinKind::Function, true),
        b("true", BuiltinKind::Const, true),
    ]
}

/// The token at the cursor: a `.` just before it, or the identifier that
/// ends there.
fn token(f: &Fixture) -> CursorToken {
    let bytes = f.text.as_bytes();
    let end = f.offset as usize;
    if end > 0 && bytes[end - 1] == b'.' {
        return CursorToken { kind: TokenKind::Dot, range: TextRange::new(f.offset - 1, f.offset) };
    }
    let mut start = end;
    while start > 0 && (bytes[start - 1].is_ascii_alphanumeric() || bytes[start - 1] == b'_') {
        start -= 1;
    }
    if start == end {
        return CursorToken { kind: TokenKind::Other, range: TextRange::new(f.offset, f.offset) };
    }
    CursorToken { kind: TokenKind::Ident, range: TextRange::new(start as u32, f.offset) }
}

fn typed(f: &Fixture) -> String {
    let t = token(f);
    f.text[t.range.start as usize..t.range.end as usize].to_string()
}

/// A reference whose innermost scope is `scope`.
fn expr_site(f: &mut Fixture, scope: usize, in_if: bool, in_let: bool) -> CursorSite {
    let expr = f.db.scopes.add_expr(scope);
    CursorSite::Expr(ExprSite {
        expr,
        prefix: typed(f),
        in_if_then_else: in_if,
        in_let_in: in_let,
    })
}

fn path_site(f: &Fixture, is_let: bool, base: Option<usize>, before: &[&str]) -> CursorSite {
    let current = typed(f);
    let mut attrs: Vec<Attr> = before.iter().map(|s| Attr::Static(Some(s.to_string()))).collect();
    attrs.push(Attr::Static(Some(current.clone())));
    CursorSite::Attrpath(AttrpathSite { is_let, base, attrs, current })
}

fn complete(f: &Fixture, site: &CursorSite) -> Option<Vec<CompletionItem>> {
    completions(&f.db, &builtins(), f.offset, &token(f), site)
}

fn check(f: &Fixture, site: CursorSite, label: &str, expect: &str) {
    let items = complete(f, &site).expect("No completion");
    let item = items.iter().find(|item| item.label == label).expect("No expected completion");
    let mut completed = f.text.clone();
    completed.replace_range(
        item.source_range.start as usize..item.source_range.end as usize,
        &item.replace,
    );
    assert_eq!(format!("({:?}) {}", item.kind, completed), expect);
}

fn check_no(f: &Fixture, site: CursorSite, label: &str) {
    if let Some(items) = complete(f, &site) {
        assert_eq!(items.iter().find(|item| item.label == label), None);
    }
}

fn top(src: &str) -> (Fixture, CursorSite) {
    let mut f = fixture(src);
    let site = expr_site(&mut f, 0, false, false);
    (f, site)
}

/// An attrset type with the given fields.
fn set(tys: &mut TyArena, open: bool, fields: &[(&str, usize)]) -> usize {
    let t = tys.add_ty(TyKind::Attrset { open });
    for (n, ty) in fields {
        assert!(tys.add_field(t, n.to_string(), *ty));
    }
    t
}

#[test]
fn keyword() {
    let (f, s) = top("l$0");
    check(&f, s, "let", "(Keyword) let");
    let (f, s) = top("i$0");
    check(&f, s, "if", "(Keyword) if");

    // Cannot complete.
    let (f, s) = top("tl$0");
    check_no(&f, s, "let");
    // Not in context.
    let (f, s) = top("i$0");
    check_no(&f, s, "in");
    let (f, s) = top("th$0");
    check_no(&f, s, "then");

    let mut f = fixture("let i$0");
    let ls = f.db.scopes.add_scope(0, false);
    name(&mut f, ls, "i", NameKind::LetIn);
    let s = path_site(&f, true, None, &[]);
    check(&f, s, "in", "(Keyword) let in");

    let mut f = fixture("if a th$0");
    let s = expr_site(&mut f, 0, true, false);
    check(&f, s, "then", "(Keyword) if a then");
}

#[test]
fn local_binding() {
    // foo: ({ bar ? b }: 0) b
    let mut f = fixture("foo: ({ bar ? b$0 }: 0) b");
    let outer = f.db.scopes.add_scope(0, false);
    name(&mut f, outer, "foo", NameKind::Param);
    let inner = f.db.scopes.add_scope(outer, false);
    name(&mut f, inner, "bar", NameKind::PatField);
    let s = expr_site(&mut f, inner, false, false);
    check(&f, s, "bar", "(Param) foo: ({ bar ? bar }: 0) b");

    // The last `b` stands outside the inner lambda.
    let mut f = fixture("(foo: ({ bar ? b }: 0) b$0");
    let outer = f.db.scopes.add_scope(0, false);
    name(&mut f, outer, "foo", NameKind::Param);
    let inner = f.db.scopes.add_scope(outer, false);
    name(&mut f, inner, "bar", NameKind::PatField);
    let s = expr_site(&mut f, outer, false, false);
    check_no(&f, s, "bar");

    let mut f = fixture("let foo = b$0; bar = 2;");
    let ls = f.db.scopes.add_scope(0, false);
    name(&mut f, ls, "foo", NameKind::LetIn);
    name(&mut f, ls, "bar", NameKind::LetIn);
    let s = expr_site(&mut f, ls, false, true);
    check(&f, s, "bar", "(LetBinding) let foo = bar; bar = 2;");

    let mut f = fixture("rec { foo = b$0; bar = 2; }");
    let rs = f.db.scopes.add_scope(0, false);
    name(&mut f, rs, "foo", NameKind::RecAttrset);
    name(&mut f, rs, "bar", NameKind::RecAttrset);
    let s = expr_site(&mut f, rs, false, false);
    check(&f, s, "bar", "(Field) rec { foo = bar; bar = 2; }");
}

#[test]
fn builtin() {
    let (f, s) = top("toS$0");
    check(&f, s, "toString", "(BuiltinFunction) toString");
    let (f, s) = top("t$0");
    check(&f, s, "true", "(BuiltinConst) true");
    let (f, s) = top("b$0");
    check(&f, s, "builtins", "(BuiltinAttrset) builtins");

    // No prim-ops.
    let (f, s) = top("__al$0");
    check_no(&f, s, "__all");
    // No non-global builtins.
    let (f, s) = top("attrN$0");
    check_no(&f, s, "attrNames");
}

#[test]
fn inherit() {
    let mut f = fixture("{ i$0 }");
    let t = set(&mut f.db.tys, false, &[]);
    let s = path_site(&f, false, Some(t), &[]);
    check(&f, s, "inherit", "(Keyword) { inherit }");

    let mut f = fixture("let i$0");
    let ls = f.db.scopes.add_scope(0, false);
    name(&mut f, ls, "i", NameKind::LetIn);
    let s = path_site(&f, true, None, &[]);
    check(&f, s, "inherit", "(Keyword) let inherit");

    let mut f = fixture("let a = i$0");
    let ls = f.db.scopes.add_scope(0, false);
    name(&mut f, ls, "a", NameKind::LetIn);
    let s = expr_site(&mut f, ls, false, true);
    check_no(&f, s, "inherit");

    let mut f = fixture("let a.i$0");
    let ls = f.db.scopes.add_scope(0, false);
    name(&mut f, ls, "a", NameKind::LetIn);
    let s = path_site(&f, true, None, &["a"]);
    check_no(&f, s, "inherit");

    // The interpolated `i` is a reference.
    let mut f = fixture("let a.${i$0");
    let ls = f.db.scopes.add_scope(0, false);
    name(&mut f, ls, "a", NameKind::LetIn);
    let s = expr_site(&mut f, ls, false, true);
    check_no(&f, s, "inherit");
}

#[test]
fn select_known_field() {
    // { foo.bar = 1; }
    let mut f = fixture("{ foo.bar = 1; }.f$0");
    let int = f.db.tys.add_ty(TyKind::Int);
    let inner = set(&mut f.db.tys, false, &[("bar", int)]);
    let outer = set(&mut f.db.tys, false, &[("foo", inner)]);
    let s = path_site(&f, false, Some(outer), &[]);
    check(&f, s, "foo", "(Field) { foo.bar = 1; }.foo");

    let mut f = fixture("{ foo.bar = 1; }.foo.b$0");
    let int = f.db.tys.add_ty(TyKind::Int);
    let inner = set(&mut f.db.tys, false, &[("bar", int)]);
    let outer = set(&mut f.db.tys, false, &[("foo", inner)]);
    let s = path_site(&f, false, Some(outer), &["foo"]);
    check(&f, s, "bar", "(Field) { foo.bar = 1; }.foo.bar");

    // The type of the reference `a`.
    let mut f = fixture("let a.foo = 1; in a.f$0");
    let int = f.db.tys.add_ty(TyKind::Int);
    let a = set(&mut f.db.tys, false, &[("foo", int)]);
    let s = path_site(&f, false, Some(a), &[]);
    check(&f, s, "foo", "(Field) let a.foo = 1; in a.foo");

    // The whole argument `b` has the pattern's field.
    let mut f = fixture("{ foo }@b: b.f$0");
    let b = f.db.tys.param_ty(Some(&vec!["foo".to_string()]), false);
    let s = path_site(&f, false, Some(b), &[]);
    check(&f, s, "foo", "(Field) { foo }@b: b.foo");
}

/// The type of `a` in `let a.? = 1; in a.foo.bar`.
fn let_a(f: &mut Fixture) -> usize {
    let unknown = f.db.tys.add_ty(TyKind::Unknown);
    let foo = set(&mut f.db.tys, false, &[("bar", unknown)]);
    set(&mut f.db.tys, false, &[("foo", foo)])
}

#[test]
fn define_known_field_let() {
    let mut f = fixture("let a.f$0 = 1; in a.foo.bar");
    let a = let_a(&mut f);
    let s = path_site(&f, true, Some(a), &["a"]);
    check(&f, s, "foo", "(Field) let a.foo = 1; in a.foo.bar");

    let mut f = fixture("let a.foo.b$0 = 1; in a.foo.bar");
    let a = let_a(&mut f);
    let s = path_site(&f, true, Some(a), &["a", "foo"]);
    check(&f, s, "bar", "(Field) let a.foo.bar = 1; in a.foo.bar");
}

/// The parameter type of `f = { foo }: foo.bar`.
fn param_f(f: &mut Fixture) -> usize {
    let unknown = f.db.tys.add_ty(TyKind::Unknown);
    let foo = set(&mut f.db.tys, true, &[("bar", unknown)]);
    set(&mut f.db.tys, false, &[("foo", foo)])
}

#[test]
fn define_known_field_attrset() {
    let mut f = fixture("let f = { foo }: foo.bar; in f { f$0 }");
    let p = param_f(&mut f);
    let s = path_site(&f, false, Some(p), &[]);
    check(&f, s, "foo", "(Field) let f = { foo }: foo.bar; in f { foo }");

    let mut f = fixture("let f = { foo }: foo.bar; in f { foo.b$0 }");
    let p = param_f(&mut f);
    let s = path_site(&f, false, Some(p), &["foo"]);
    check(&f, s, "bar", "(Field) let f = { foo }: foo.bar; in f { foo.bar }");
}

#[test]
fn no_incomplete_field() {
    // The parameter `a` is only known to have the field being typed.
    let mut f = fixture("a: a.f$0");
    let unknown = f.db.tys.add_ty(TyKind::Unknown);
    let a = set(&mut f.db.tys, true, &[("f", unknown)]);
    let s = path_site(&f, false, Some(a), &[]);
    check_no(&f, s, "f");
}

#[test]
fn results_sorted_and_unique() {
    let mut f = fixture("let if = 1; in $0");
    let ls = f.db.scopes.add_scope(0, false);
    name(&mut f, ls, "if", NameKind::LetIn);
    name(&mut f, ls, "assert", NameKind::LetIn);
    let site = CursorSite::Expr(ExprSite {
        expr: f.db.scopes.add_expr(ls),
        prefix: String::new(),
        in_if_then_else: false,
        in_let_in: true,
    });
    let tok = CursorToken { kind: TokenKind::Ident, range: TextRange::new(15, 15) };
    let items = completions(&f.db, &builtins(), 15, &tok, &site).unwrap();
    let labels: Vec<&str> = items.iter().map(|i| i.label.as_str()).collect();
    assert_eq!(
        labels,
        vec!["assert", "builtins", "if", "in", "let", "or", "rec", "toString", "true", "with"]
    );
    // The keyword came first and wins over the binding of the same label.
    let kind = items.iter().find(|i| i.label == "if").unwrap().kind;
    assert_eq!(format!("{kind:?}"), "Keyword");
    let again = completions(&f.db, &builtins(), 15, &tok, &site).unwrap();
    assert_eq!(items, again);
}

#[test]
fn no_completion_off_identifiers() {
    let (f, s) = top("l$0");
    let tok = CursorToken { kind: TokenKind::Other, range: TextRange::new(0, 1) };
    assert!(completions(&f.db, &builtins(), 1, &tok, &s).is_none());
    assert!(completions(&f.db, &builtins(), 1, &token(&f), &CursorSite::Elsewhere).is_none());
    let bad = CursorSite::Expr(ExprSite {
        expr: 7,
        prefix: "l".to_string(),
        in_if_then_else: false,
        in_let_in: false,
    });
    assert!(completions(&f.db, &builtins(), 1, &token(&f), &bad).is_none());
}

#[test]
fn dot_replaces_nothing() {
    let mut f = fixture("x.$0");
    let int = f.db.tys.add_ty(TyKind::Int);
    let x = set(&mut f.db.tys, false, &[("y", int)]);
    let site = CursorSite::Attrpath(AttrpathSite {
        is_let: false,
        base: Some(x),
        attrs: vec![Attr::Static(None)],
        current: String::new(),
    });
    let items = complete(&f, &site).unwrap();
    let y = items.iter().find(|i| i.label == "y").unwrap();
    assert_eq!(y.source_range, TextRange::new(2, 2));
    assert_eq!(y.brief.as_deref(), Some("int"));
    assert!(items.iter().any(|i| i.label == "inherit"));
}

#[test]
fn unknown_step_stops_narrowing() {
    let mut f = fixture("x.z.b$0");
    let int = f.db.tys.add_ty(TyKind::Int);
    let x = set(&mut f.db.tys, false, &[("y", int)]);
    let s = path_site(&f, false, Some(x), &["z"]);
    let items = complete(&f, &s).unwrap();
    assert!(items.is_empty());
    // A dynamic step cannot be followed either.
    let site = CursorSite::Attrpath(AttrpathSite {
        is_let: false,
        base: Some(x),
        attrs: vec![Attr::Dynamic, Attr::Static(Some("b".to_string()))],
        current: "b".to_string(),
    });
    assert!(complete(&f, &site).unwrap().is_empty());
}

#[test]
fn builtin_item_carries_summary() {
    let (f, s) = top("toS$0");
    let items = complete(&f, &s).unwrap();
    let item = items.iter().find(|i| i.label == "toString").unwrap();
    assert_eq!(item.brief.as_deref(), Some("`toString`"));
    assert_eq!(item.source_range, TextRange::new(0, 3));
}
