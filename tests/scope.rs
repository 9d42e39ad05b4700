use nil_ide::scope::{ModuleScopes, Resolution};
use nil_ide::ty::{Attr, TyArena, TyKind};

#[test]
fn resolution_walks_outwards() {
    let mut s = ModuleScopes::new();
    let outer = s.add_scope(0, false);
    assert!(s.define(outer, "x".to_string(), 0));
    let inner = s.add_scope(outer, false);
    assert!(s.define(inner, "y".to_string(), 1));
    assert_eq!(s.resolve(inner, &"x".to_string()), Resolution::Found(0));
    assert_eq!(s.resolve(inner, &"y".to_string()), Resolution::Found(1));
    assert_eq!(s.resolve(outer, &"y".to_string()), Resolution::Unbound);
    assert_eq!(s.ancestors(inner), vec![inner, outer, 0]);
    let e = s.add_expr(inner);
    assert_eq!(s.scope_for_expr(e), Some(inner));
    assert_eq!(s.scope_for_expr(e + 1), None);
    let defs = s.as_definitions(outer).unwrap();
    assert_eq!(defs.len(), 1);
    assert_eq!(defs[0].text, "x");
}

#[test]
fn inner_binding_shadows() {
    let mut s = ModuleScopes::new();
    let outer = s.add_scope(0, false);
    assert!(s.define(outer, "x".to_string(), 0));
    let inner = s.add_scope(outer, false);
    assert!(s.define(inner, "x".to_string(), 1));
    assert_eq!(s.resolve(inner, &"x".to_string()), Resolution::Found(1));
}

#[test]
fn duplicate_key_refused() {
    let mut s = ModuleScopes::new();
    let l = s.add_scope(0, false);
    assert!(s.define(l, "a".to_string(), 0));
    assert!(!s.define(l, "a".to_string(), 1));
    assert_eq!(s.lookup_local(l, &"a".to_string()), Some(0));
    assert_eq!(s.definitions().len(), 1);
}

#[test]
fn with_scope_is_indeterminate() {
    let mut s = ModuleScopes::new();
    let outer = s.add_scope(0, false);
    assert!(s.define(outer, "x".to_string(), 0));
    let w = s.add_scope(outer, true);
    assert!(!s.define(w, "z".to_string(), 1));
    assert_eq!(s.as_definitions(w), None);
    let inner = s.add_scope(w, false);
    assert_eq!(s.resolve(inner, &"x".to_string()), Resolution::Indeterminate);
    assert_eq!(s.resolve(outer, &"x".to_string()), Resolution::Found(0));
}

#[test]
fn type_paths() {
    let mut t = TyArena::new();
    let int = t.add_ty(TyKind::Int);
    let inner = t.add_ty(TyKind::Attrset { open: false });
    assert!(t.add_field(inner, "bar".to_string(), int));
    let outer = t.add_ty(TyKind::Attrset { open: false });
    assert!(t.add_field(outer, "foo".to_string(), inner));
    assert!(!t.add_field(outer, "foo".to_string(), int));
    assert!(!t.add_field(int, "x".to_string(), int));
    let path = vec![Attr::Static(Some("foo".to_string())), Attr::Static(Some("bar".to_string()))];
    assert_eq!(t.walk_path(outer, &path, 0, 2), Some(int));
    assert_eq!(t.walk_path(outer, &path, 0, 1), Some(inner));
    assert_eq!(t.walk_path(outer, &path, 1, 2), None);
    assert_eq!(t.display_ty(int), "int");
    assert_eq!(t.display_ty(outer), "{ ... }");
}

#[test]
fn define_path_folds_nested_shapes() {
    // { foo.bar = 1; foo.baz = 2; }
    let mut t = TyArena::new();
    let int = t.add_ty(TyKind::Int);
    let set = t.add_ty(TyKind::Attrset { open: false });
    let s = |v: &str| Attr::Static(Some(v.to_string()));
    let foo_bar = vec![s("foo"), s("bar")];
    let foo_baz = vec![s("foo"), s("baz")];
    assert!(t.check_define(set, &foo_bar));
    assert!(t.define_path(set, &foo_bar, int));
    assert!(t.define_path(set, &foo_baz, int));
    assert_eq!(t.walk_path(set, &foo_bar, 0, 2), Some(int));
    assert_eq!(t.walk_path(set, &foo_baz, 0, 2), Some(int));
    let foo = t.walk_path(set, &foo_bar, 0, 1).unwrap();
    assert_eq!(t.kind(foo), TyKind::Attrset { open: false });
    assert_eq!(t.field_table().iter().filter(|f| f.owner == foo).count(), 2);
}

#[test]
fn define_path_refusals() {
    let mut t = TyArena::new();
    let int = t.add_ty(TyKind::Int);
    let set = t.add_ty(TyKind::Attrset { open: false });
    let s = |v: &str| Attr::Static(Some(v.to_string()));
    assert!(t.define_path(set, &vec![s("a")], int));
    let before = t.field_table().len();
    // Duplicated key.
    assert!(!t.define_path(set, &vec![s("a")], int));
    // Through a non-attrset.
    assert!(!t.define_path(set, &vec![s("a"), s("b")], int));
    // Not a plain name.
    assert!(!t.define_path(set, &vec![s("c"), Attr::Dynamic], int));
    assert!(!t.define_path(set, &vec![], int));
    assert!(!t.define_path(int, &vec![s("x")], int));
    assert_eq!(t.field_table().len(), before);
    assert_eq!(t.len(), 2);
}

#[test]
fn parameter_types() {
    let mut t = TyArena::new();
    let bare = t.param_ty(None, false);
    assert_eq!(t.kind(bare), TyKind::Attrset { open: true });
    assert!(t.field_table().is_empty());

    let names = vec!["a".to_string(), "b".to_string(), "a".to_string()];
    let p = t.param_ty(Some(&names), false);
    assert_eq!(t.kind(p), TyKind::Attrset { open: true });
    let a = t.field(p, &"a".to_string()).unwrap();
    assert_eq!(t.kind(a), TyKind::Unknown);
    assert!(t.field(p, &"b".to_string()).is_some());
    assert_eq!(t.field(p, &"c".to_string()), None);
    assert_eq!(t.field_table().iter().filter(|f| f.owner == p).count(), 2);

    let q = t.param_ty(Some(&names), true);
    assert_eq!(t.kind(q), TyKind::Attrset { open: false });
}
