use vstd::prelude::*;
use vstd::utf8::encode_utf8;
use crate::analysis::FileAnalysis;
use crate::kinds::{builtin_item_kind, name_item_kind, BuiltinKind, CompletionItemKind};
use crate::scope::{Definition, ModuleScopes, Name};
use crate::ty::{display_of, Attr, FieldTy, TyArena};
use crate::matching::{
    bytes_lt, can_complete, compare_bytes, is_subsequence, lemma_bytes_lt_irreflexive,
    lemma_bytes_lt_transitive,
};
use crate::text::TextRange;

verus! {

/// A single completion variant in the editor pop-up.
#[derive(Clone, Debug, PartialEq, Eq)]
pub struct CompletionItem {
    /// The label to show in the completion menu.
    pub label: String,
    /// Range of the identifier that is being completed.
    pub source_range: TextRange,
    /// What replaces the source range when the user selects this item.
    pub replace: String,
    /// What kind of item is being completed.
    pub kind: CompletionItemKind,
    /// A brief summary.
    pub brief: Option<String>,
    /// The detailed documentation.
    pub doc: Option<String>,
}

/// A completion item with its texts as character sequences.
pub struct ItemView {
    pub label: Seq<char>,
    pub source_range: TextRange,
    pub replace: Seq<char>,
    pub kind: CompletionItemKind,
    pub brief: Option<Seq<char>>,
    pub doc: Option<Seq<char>>,
}

pub open spec fn opt_text(o: Option<String>) -> Option<Seq<char>> {
    match o {
        Some(s) => Some(s@),
        None => None,
    }
}

impl View for CompletionItem {
    type V = ItemView;

    open spec fn view(&self) -> ItemView {
        ItemView {
            label: self.label@,
            source_range: self.source_range,
            replace: self.replace@,
            kind: self.kind,
            brief: opt_text(self.brief),
            doc: opt_text(self.doc),
        }
    }
}

pub open spec fn views(v: Seq<CompletionItem>) -> Seq<ItemView> {
    v.map_values(|c: CompletionItem| c@)
}

/// The bytes by which labels are compared and told apart.
pub open spec fn label_key(x: ItemView) -> Seq<u8> {
    encode_utf8(x.label)
}

/// `c[j]` is the first of `c` with its label.
pub open spec fn first_with_label(c: Seq<ItemView>, j: int) -> bool {
    &&& 0 <= j < c.len()
    &&& forall|k: int| 0 <= k < j ==> label_key(#[trigger] c[k]) != label_key(c[j])
}

/// Labels strictly increase along `r`; in particular no label repeats.
pub open spec fn sorted_by_label(r: Seq<ItemView>) -> bool {
    forall|i: int, j: int|
        0 <= i < j < r.len() ==> bytes_lt(label_key(#[trigger] r[i]), label_key(#[trigger] r[j]))
}

/// `x` is the first item of `c` with its label.
pub open spec fn is_first_item(c: Seq<ItemView>, x: ItemView) -> bool {
    exists|j: int| first_with_label(c, j) && c[j] == x
}

/// Some item of `r` bears the label `key`.
pub open spec fn has_label(r: Seq<ItemView>, key: Seq<u8>) -> bool {
    exists|i: int| 0 <= i < r.len() && label_key(r[i]) == key
}

/// `r` is `c` sorted by label, keeping of each label only its first item.
pub open spec fn sorted_dedup_of(r: Seq<ItemView>, c: Seq<ItemView>) -> bool {
    &&& sorted_by_label(r)
    &&& forall|i: int| 0 <= i < r.len() ==> #[trigger] is_first_item(c, r[i])
    &&& forall|j: int| 0 <= j < c.len() ==> #[trigger] has_label(r, label_key(c[j]))
}

/// The items of `c` whose replacement text can complete `prefix`, in order.
pub open spec fn matching(prefix: Seq<char>, c: Seq<ItemView>) -> Seq<ItemView>
    decreases c.len(),
{
    if c.len() == 0 {
        Seq::empty()
    } else {
        let m = matching(prefix, c.drop_last());
        if is_subsequence(encode_utf8(prefix), encode_utf8(c.last().replace)) {
            m.push(c.last())
        } else {
            m
        }
    }
}

proof fn lemma_first_kept(c: Seq<ItemView>, x: ItemView, y: ItemView)
    requires
        is_first_item(c, y),
    ensures
        is_first_item(c.push(x), y),
{
    let c2 = c.push(x);
    let j = choose|j: int| first_with_label(c, j) && c[j] == y;
    assert forall|k: int| 0 <= k < j implies label_key(#[trigger] c2[k]) != label_key(c2[j]) by {
        assert(c2[k] == c[k]);
    }
    assert(first_with_label(c2, j) && c2[j] == y);
}

proof fn lemma_present_keeps(r: Seq<ItemView>, c: Seq<ItemView>, x: ItemView, p: int)
    requires
        sorted_dedup_of(r, c),
        0 <= p < r.len(),
        label_key(r[p]) == label_key(x),
    ensures
        sorted_dedup_of(r, c.push(x)),
{
    let c2 = c.push(x);
    assert forall|i: int| 0 <= i < r.len() implies #[trigger] is_first_item(c2, r[i]) by {
        assert(is_first_item(c, r[i]));
        lemma_first_kept(c, x, r[i]);
    }
    assert forall|j: int| 0 <= j < c2.len() implies #[trigger] has_label(r, label_key(c2[j])) by {
        if j < c.len() {
            assert(c2[j] == c[j]);
            assert(has_label(r, label_key(c[j])));
        } else {
            assert(label_key(r[p]) == label_key(c2[j]));
        }
    }
}

proof fn lemma_insert_keeps(r: Seq<ItemView>, c: Seq<ItemView>, x: ItemView, p: int)
    requires
        sorted_dedup_of(r, c),
        0 <= p <= r.len(),
        forall|k: int| 0 <= k < p ==> bytes_lt(label_key(#[trigger] r[k]), label_key(x)),
        p < r.len() ==> bytes_lt(label_key(x), label_key(r[p])),
    ensures
        sorted_dedup_of(r.insert(p, x), c.push(x)),
{
    let r2 = r.insert(p, x);
    let c2 = c.push(x);
    assert forall|k: int| p <= k < r.len() implies bytes_lt(label_key(x), label_key(#[trigger] r[k])) by {
        if k > p {
            lemma_bytes_lt_transitive(label_key(x), label_key(r[p]), label_key(r[k]));
        }
    }
    assert forall|i: int, j: int| 0 <= i < j < r2.len() implies bytes_lt(
        label_key(#[trigger] r2[i]),
        label_key(#[trigger] r2[j]),
    ) by {
        if i < p {
            assert(r2[i] == r[i]);
            if j < p {
                assert(r2[j] == r[j]);
            } else if j > p {
                assert(r2[j] == r[j - 1]);
            }
        } else if i == p {
            assert(r2[j] == r[j - 1]);
        } else {
            assert(r2[i] == r[i - 1]);
            assert(r2[j] == r[j - 1]);
        }
    }
    // No earlier item bears the new label.
    assert forall|k: int| 0 <= k < c.len() implies label_key(#[trigger] c2[k]) != label_key(x) by {
        assert(c2[k] == c[k]);
        assert(has_label(r, label_key(c[k])));
        let i = choose|i: int| 0 <= i < r.len() && label_key(r[i]) == label_key(c[k]);
        lemma_bytes_lt_irreflexive(label_key(x));
    }
    assert(first_with_label(c2, c.len() as int));
    assert forall|i: int| 0 <= i < r2.len() implies #[trigger] is_first_item(c2, r2[i]) by {
        if i == p {
            assert(c2[c.len() as int] == x);
        } else {
            let i0 = if i < p { i } else { i - 1 };
            assert(r2[i] == r[i0]);
            assert(is_first_item(c, r[i0]));
            lemma_first_kept(c, x, r[i0]);
        }
    }
    assert forall|j: int| 0 <= j < c2.len() implies #[trigger] has_label(r2, label_key(c2[j])) by {
        if j < c.len() {
            assert(c2[j] == c[j]);
            assert(has_label(r, label_key(c[j])));
            let i = choose|i: int| 0 <= i < r.len() && label_key(r[i]) == label_key(c[j]);
            if i < p {
                assert(r2[i] == r[i]);
            } else {
                assert(r2[i + 1] == r[i]);
            }
        } else {
            assert(r2[p] == x);
        }
    }
}

/// Adds `item` to `out`, a list sorted and deduplicated by label, unless an
/// item with the same label is already there.
fn insert_unique(out: &mut Vec<CompletionItem>, item: CompletionItem, Ghost(c): Ghost<Seq<ItemView>>)
    requires
        sorted_dedup_of(views(old(out)@), c),
    ensures
        sorted_dedup_of(views(final(out)@), c.push(item@)),
{
    let ghost r = views(out@);
    let mut i: usize = 0;
    let mut found = false;
    while !found && i < out.len()
        invariant
            r == views(out@),
            sorted_dedup_of(r, c),
            0 <= i <= out@.len(),
            forall|k: int| 0 <= k < i ==> bytes_lt(label_key(#[trigger] r[k]), label_key(item@)),
            found ==> i < out@.len() && bytes_lt(label_key(item@), label_key(r[i as int])),
        decreases 2 * (out@.len() - i) + if found { 0int } else { 1int },
    {
        let o = compare_bytes(out[i].label.as_str(), item.label.as_str());
        proof {
            assert(r[i as int] == out@[i as int]@);
        }
        if o == 0 {
            proof {
                lemma_present_keeps(r, c, item@, i as int);
            }
            return;
        }
        if o > 0 {
            found = true;
        } else {
            i = i + 1;
        }
    }
    proof {
        lemma_insert_keeps(r, c, item@, i as int);
    }
    let ghost x = item@;
    out.insert(i, item);
    proof {
        assert(views(out@) =~= r.insert(i as int, x));
    }
}

/// Offers `item` to `out` if its replacement text can complete `prefix`;
/// `fed` is what was offered before.
fn feed(
    out: &mut Vec<CompletionItem>,
    prefix: &String,
    item: CompletionItem,
    Ghost(fed): Ghost<Seq<ItemView>>,
)
    requires
        sorted_dedup_of(views(old(out)@), matching(prefix@, fed)),
    ensures
        sorted_dedup_of(views(final(out)@), matching(prefix@, fed.push(item@))),
{
    proof {
        assert(fed.push(item@).drop_last() =~= fed);
    }
    if can_complete(prefix.as_str(), item.replace.as_str()) {
        insert_unique(out, item, Ghost(matching(prefix@, fed)));
    }
}

/// A symbol that the language provides without a definition in the file.
#[derive(Clone, Debug, PartialEq, Eq)]
pub struct Builtin {
    pub name: String,
    pub kind: BuiltinKind,
    /// Visible without qualification; the others are reached only by
    /// selecting them from their attrset.
    pub is_global: bool,
    pub summary: String,
    pub doc: Option<String>,
}

/// Where the cursor stands in an expression: on a bare reference.
#[derive(Clone, Debug, PartialEq, Eq)]
pub struct ExprSite {
    /// The reference expression.
    pub expr: usize,
    /// The text typed so far.
    pub prefix: String,
    /// An if-then-else encloses the reference.
    pub in_if_then_else: bool,
    /// A let-in encloses the reference.
    pub in_let_in: bool,
}

/// Where the cursor stands in an attribute path.
#[derive(Clone, Debug, PartialEq, Eq)]
pub struct AttrpathSite {
    /// The path defines a binding of a let-in.
    pub is_let: bool,
    /// The inferred type the path starts from: for a let binding that of the
    /// name its first step defines, otherwise that of the container
    /// expression. `None` when nothing is known.
    pub base: Option<usize>,
    /// The steps of the path, the one being typed included.
    pub attrs: Vec<Attr>,
    /// The text of the step being typed.
    pub current: String,
}

#[derive(Clone, Copy, Debug, PartialEq, Eq, Structural)]
pub enum TokenKind {
    Ident,
    Dot,
    Other,
}

/// The token at the cursor.
#[derive(Clone, Copy, Debug, PartialEq, Eq, Structural)]
pub struct CursorToken {
    pub kind: TokenKind,
    pub range: TextRange,
}

/// The construct the cursor's token belongs to.
#[derive(Clone, Debug, PartialEq, Eq)]
pub enum CursorSite {
    Expr(ExprSite),
    Attrpath(AttrpathSite),
    Elsewhere,
}

pub open spec fn keyword_item(kw: Seq<char>, range: TextRange) -> ItemView {
    ItemView {
        label: kw,
        source_range: range,
        replace: kw,
        kind: CompletionItemKind::Keyword,
        brief: None,
        doc: None,
    }
}

/// The keywords offered at a reference.
pub open spec fn expr_keywords(range: TextRange, in_if: bool, in_let: bool) -> Seq<ItemView> {
    seq![
        keyword_item("assert"@, range),
        keyword_item("if"@, range),
        keyword_item("let"@, range),
        keyword_item("or"@, range),
        keyword_item("rec"@, range),
        keyword_item("with"@, range),
    ] + (if in_if {
        seq![keyword_item("then"@, range), keyword_item("else"@, range)]
    } else {
        Seq::empty()
    }) + (if in_let {
        seq![keyword_item("in"@, range)]
    } else {
        Seq::empty()
    })
}

pub open spec fn def_item(names: Seq<Name>, d: Definition, range: TextRange) -> ItemView {
    ItemView {
        label: d.text@,
        source_range: range,
        replace: d.text@,
        kind: name_item_kind(names[d.name as int].kind).unwrap(),
        brief: None,
        doc: None,
    }
}

/// The offered definitions of scope `s` among the first `n` of `defs`.
pub open spec fn scope_def_items(
    defs: Seq<Definition>,
    names: Seq<Name>,
    s: int,
    n: int,
    range: TextRange,
) -> Seq<ItemView>
    decreases n,
{
    if n <= 0 {
        Seq::empty()
    } else {
        let m = scope_def_items(defs, names, s, n - 1, range);
        let d = defs[n - 1];
        if d.scope == s && name_item_kind(names[d.name as int].kind) is Some {
            m.push(def_item(names, d, range))
        } else {
            m
        }
    }
}

/// The definitions of the scopes `anc`, scope by scope.
pub open spec fn scope_items(
    scopes: ModuleScopes,
    names: Seq<Name>,
    anc: Seq<int>,
    range: TextRange,
) -> Seq<ItemView>
    decreases anc.len(),
{
    if anc.len() == 0 {
        Seq::empty()
    } else {
        scope_items(scopes, names, anc.drop_last(), range) + scope_def_items(
            scopes.defs(),
            names,
            anc.last(),
            scopes.defs().len() as int,
            range,
        )
    }
}

pub open spec fn builtin_item(b: Builtin, range: TextRange) -> ItemView {
    ItemView {
        label: b.name@,
        source_range: range,
        replace: b.name@,
        kind: builtin_item_kind(b.kind),
        brief: Some(b.summary@),
        doc: opt_text(b.doc),
    }
}

/// The global builtins of `bs`, in order.
pub open spec fn builtin_items(bs: Seq<Builtin>, range: TextRange) -> Seq<ItemView>
    decreases bs.len(),
{
    if bs.len() == 0 {
        Seq::empty()
    } else {
        let m = builtin_items(bs.drop_last(), range);
        if bs.last().is_global {
            m.push(builtin_item(bs.last(), range))
        } else {
            m
        }
    }
}

/// Everything that may be offered at a reference, before filtering.
pub open spec fn expr_candidates(
    db: FileAnalysis,
    builtins: Seq<Builtin>,
    range: TextRange,
    site: ExprSite,
) -> Seq<ItemView> {
    expr_keywords(range, site.in_if_then_else, site.in_let_in) + scope_items(
        db.scopes,
        db.names@,
        db.scopes.ancestors_of(db.scopes.scope_of_expr(site.expr as int).unwrap()),
        range,
    ) + builtin_items(builtins, range)
}

/// The keywords offered in an attribute path of `cnt` steps.
pub open spec fn attr_keywords(range: TextRange, is_let: bool, cnt: int) -> Seq<ItemView> {
    if cnt <= 1 {
        seq![keyword_item("inherit"@, range)] + (if is_let {
            seq![keyword_item("in"@, range)]
        } else {
            Seq::empty()
        })
    } else {
        Seq::empty()
    }
}

/// The steps walked from the base type: all but the one being typed, and
/// for a let binding also not the first, whose name gave the base.
pub open spec fn walked_steps(site: AttrpathSite) -> Seq<Attr> {
    let cnt = site.attrs@.len() as int;
    if site.is_let {
        site.attrs@.subrange(1, if cnt >= 2 { cnt - 1 } else { 1 })
    } else {
        site.attrs@.subrange(0, if cnt >= 1 { cnt - 1 } else { 0 })
    }
}

/// The attrset type whose fields the step being typed may name.
pub open spec fn resolved_set(tys: TyArena, site: AttrpathSite) -> Option<int> {
    if site.is_let && site.attrs@.len() == 0 {
        None
    } else {
        match site.base {
            None => None,
            Some(b) => match tys.walk(b as int, walked_steps(site)) {
                Some(t) => if tys.is_attrset(t) {
                    Some(t)
                } else {
                    None
                },
                None => None,
            },
        }
    }
}

pub open spec fn field_item(tys: TyArena, f: FieldTy, range: TextRange) -> ItemView {
    ItemView {
        label: f.name@,
        source_range: range,
        replace: f.name@,
        kind: CompletionItemKind::Field,
        brief: Some(display_of(tys.kinds()[f.ty as int])),
        doc: None,
    }
}

/// The fields of attrset `t` among the first `n` of the field table, but
/// the one named `current`.
pub open spec fn field_items(
    tys: TyArena,
    t: int,
    current: Seq<char>,
    n: int,
    range: TextRange,
) -> Seq<ItemView>
    decreases n,
{
    if n <= 0 {
        Seq::empty()
    } else {
        let m = field_items(tys, t, current, n - 1, range);
        let f = tys.fields()[n - 1];
        if f.owner == t && f.name@ != current {
            m.push(field_item(tys, f, range))
        } else {
            m
        }
    }
}

/// What is offered in an attribute path.
pub open spec fn attrpath_items(db: FileAnalysis, range: TextRange, site: AttrpathSite) -> Seq<
    ItemView,
> {
    attr_keywords(range, site.is_let, site.attrs@.len() as int) + match resolved_set(
        db.tys,
        site,
    ) {
        Some(t) => field_items(db.tys, t, site.current@, db.tys.fields().len() as int, range),
        None => Seq::empty(),
    }
}

/// The range that a completion replaces: the identifier under the cursor,
/// or nothing right after a `.`.
pub open spec fn source_range_of(offset: u32, token: CursorToken) -> Option<TextRange> {
    match token.kind {
        TokenKind::Ident => Some(token.range),
        TokenKind::Dot => Some(TextRange { start: offset, end: offset }),
        TokenKind::Other => None,
    }
}

/// `r` is what a completion request may answer.
pub open spec fn completion_result(
    db: FileAnalysis,
    builtins: Seq<Builtin>,
    offset: u32,
    token: CursorToken,
    site: CursorSite,
    r: Option<Seq<ItemView>>,
) -> bool {
    match source_range_of(offset, token) {
        None => r is None,
        Some(range) => match site {
            CursorSite::Elsewhere => r is None,
            CursorSite::Expr(e) => if db.scopes.scope_of_expr(e.expr as int) is Some {
                r matches Some(items) && sorted_dedup_of(
                    items,
                    matching(e.prefix@, expr_candidates(db, builtins, range, e)),
                )
            } else {
                r is None
            },
            CursorSite::Attrpath(a) => r == Some(attrpath_items(db, range, a)),
        },
    }
}

pub fn keyword_to_completion(kw: &str, source_range: TextRange) -> (r: CompletionItem)
    ensures
        r@ == keyword_item(kw@, source_range),
{
    CompletionItem {
        label: kw.to_owned(),
        source_range,
        replace: kw.to_owned(),
        kind: CompletionItemKind::Keyword,
        brief: None,
        doc: None,
    }
}

fn clone_text(o: &Option<String>) -> (r: Option<String>)
    ensures
        opt_text(r) == opt_text(*o),
{
    match o {
        Some(s) => Some(s.clone()),
        None => None,
    }
}

/// Completions at a reference, that is in expression position: keywords,
/// the definitions visible from its scope and the global builtins, those
/// that can complete the typed prefix, sorted by label, one per label.
pub fn complete_expr(
    db: &FileAnalysis,
    builtins: &Vec<Builtin>,
    source_range: TextRange,
    site: &ExprSite,
) -> (r: Option<Vec<CompletionItem>>)
    requires
        db.wf(),
    ensures
        r is Some <==> db.scopes.scope_of_expr(site.expr as int) is Some,
        r matches Some(items) ==> sorted_dedup_of(
            views(items@),
            matching(site.prefix@, expr_candidates(*db, builtins@, source_range, *site)),
        ),
{
    let scope = match db.scopes.scope_for_expr(site.expr) {
        Some(s) => s,
        None => {
            return None;
        },
    };
    let prefix = &site.prefix;
    let mut out: Vec<CompletionItem> = Vec::new();
    let ghost mut fed: Seq<ItemView> = Seq::empty();
    proof {
        assert(views(out@) =~= Seq::<ItemView>::empty());
    }
    // Keywords.
    feed(&mut out, prefix, keyword_to_completion("assert", source_range), Ghost(fed));
    proof { fed = fed.push(keyword_item("assert"@, source_range)); }
    feed(&mut out, prefix, keyword_to_completion("if", source_range), Ghost(fed));
    proof { fed = fed.push(keyword_item("if"@, source_range)); }
    feed(&mut out, prefix, keyword_to_completion("let", source_range), Ghost(fed));
    proof { fed = fed.push(keyword_item("let"@, source_range)); }
    feed(&mut out, prefix, keyword_to_completion("or", source_range), Ghost(fed));
    proof { fed = fed.push(keyword_item("or"@, source_range)); }
    feed(&mut out, prefix, keyword_to_completion("rec", source_range), Ghost(fed));
    proof { fed = fed.push(keyword_item("rec"@, source_range)); }
    feed(&mut out, prefix, keyword_to_completion("with", source_range), Ghost(fed));
    proof { fed = fed.push(keyword_item("with"@, source_range)); }
    // Contextual keywords.
    if site.in_if_then_else {
        feed(&mut out, prefix, keyword_to_completion("then", source_range), Ghost(fed));
        proof { fed = fed.push(keyword_item("then"@, source_range)); }
        feed(&mut out, prefix, keyword_to_completion("else", source_range), Ghost(fed));
        proof { fed = fed.push(keyword_item("else"@, source_range)); }
    }
    if site.in_let_in {
        feed(&mut out, prefix, keyword_to_completion("in", source_range), Ghost(fed));
        proof { fed = fed.push(keyword_item("in"@, source_range)); }
    }
    let ghost kws = fed;
    proof {
        assert(kws =~= expr_keywords(source_range, site.in_if_then_else, site.in_let_in));
    }
    // Names in the scopes around the reference, innermost first.
    let anc = db.scopes.ancestors(scope);
    let ghost ancs = db.scopes.ancestors_of(scope as int);
    let defs = db.scopes.definitions();
    let mut k: usize = 0;
    proof {
        assert(ancs.take(0) =~= Seq::<int>::empty());
        assert(fed =~= kws + scope_items(db.scopes, db.names@, ancs.take(0), source_range));
    }
    while k < anc.len()
        invariant
            db.wf(),
            defs@ == db.scopes.defs(),
            anc@.map_values(|x: usize| x as int) == ancs,
            0 <= k <= anc@.len(),
            fed == kws + scope_items(db.scopes, db.names@, ancs.take(k as int), source_range),
            sorted_dedup_of(views(out@), matching(prefix@, fed)),
        decreases anc@.len() - k,
    {
        let s = anc[k];
        let ghost before = fed;
        let mut j: usize = 0;
        proof {
            assert(fed =~= before + scope_def_items(defs@, db.names@, s as int, 0, source_range));
        }
        while j < defs.len()
            invariant
                db.wf(),
                defs@ == db.scopes.defs(),
                0 <= j <= defs@.len(),
                fed == before + scope_def_items(defs@, db.names@, s as int, j as int, source_range),
                sorted_dedup_of(views(out@), matching(prefix@, fed)),
            decreases defs@.len() - j,
        {
            let d = &defs[j];
            if d.scope == s {
                let nk = db.names[d.name].kind;
                match CompletionItemKind::try_from(nk) {
                    Ok(kind) => {
                        let item = CompletionItem {
                            label: d.text.clone(),
                            source_range,
                            replace: d.text.clone(),
                            kind,
                            brief: None,
                            doc: None,
                        };
                        proof {
                            assert(item@ == def_item(db.names@, *d, source_range));
                        }
                        feed(&mut out, prefix, item, Ghost(fed));
                        proof { fed = fed.push(def_item(db.names@, *d, source_range)); }
                    },
                    Err(_) => {},
                }
            }
            j = j + 1;
        }
        proof {
            assert(ancs.take(k + 1).drop_last() =~= ancs.take(k as int));
            assert(ancs.take(k + 1).last() == s as int);
        }
        k = k + 1;
    }
    proof {
        assert(ancs.take(k as int) =~= ancs);
    }
    let ghost scoped = fed;
    // Global builtins.
    let mut i: usize = 0;
    proof {
        assert(builtins@.take(0) =~= Seq::<Builtin>::empty());
        assert(fed =~= scoped + builtin_items(builtins@.take(0), source_range));
    }
    while i < builtins.len()
        invariant
            0 <= i <= builtins@.len(),
            fed == scoped + builtin_items(builtins@.take(i as int), source_range),
            sorted_dedup_of(views(out@), matching(prefix@, fed)),
        decreases builtins@.len() - i,
    {
        let b = &builtins[i];
        if b.is_global {
            let item = CompletionItem {
                label: b.name.clone(),
                source_range,
                replace: b.name.clone(),
                kind: CompletionItemKind::from(b.kind),
                brief: Some(b.summary.clone()),
                doc: clone_text(&b.doc),
            };
            proof {
                assert(item@ == builtin_item(*b, source_range));
            }
            feed(&mut out, prefix, item, Ghost(fed));
            proof { fed = fed.push(builtin_item(*b, source_range)); }
        }
        proof {
            assert(builtins@.take(i + 1).drop_last() =~= builtins@.take(i as int));
            assert(builtins@.take(i + 1).last() == *b);
        }
        i = i + 1;
    }
    proof {
        assert(builtins@.take(i as int) =~= builtins@);
        assert(fed =~= expr_candidates(*db, builtins@, source_range, *site));
    }
    Some(out)
}

/// Completions in an attribute path: the path keywords while at most one
/// step is written, then the fields of the attrset that the steps before
/// the current one lead to, but the one being typed.
pub fn complete_attrpath(db: &FileAnalysis, source_range: TextRange, site: &AttrpathSite) -> (r:
    Vec<CompletionItem>)
    requires
        db.wf(),
    ensures
        views(r@) == attrpath_items(*db, source_range, *site),
{
    let mut out: Vec<CompletionItem> = Vec::new();
    let cnt = site.attrs.len();
    if cnt <= 1 {
        out.push(keyword_to_completion("inherit", source_range));
        if site.is_let {
            out.push(keyword_to_completion("in", source_range));
        }
    }
    proof {
        assert(views(out@) =~= attr_keywords(source_range, site.is_let, cnt as int));
    }
    let ghost kws = views(out@);
    if site.is_let && cnt == 0 {
        proof {
            assert(kws + Seq::<ItemView>::empty() =~= kws);
        }
        return out;
    }
    let set = match site.base {
        None => None,
        Some(b) => {
            let (from, to) = if site.is_let {
                (1usize, if cnt >= 2 { cnt - 1 } else { 1usize })
            } else {
                (0usize, if cnt >= 1 { cnt - 1 } else { 0usize })
            };
            match db.tys.walk_path(b, &site.attrs, from, to) {
                Some(t) => if t < db.tys.len() {
                    match db.tys.kind(t) {
                        crate::ty::TyKind::Attrset { .. } => Some(t),
                        _ => None,
                    }
                } else {
                    None
                },
                None => None,
            }
        },
    };
    match set {
        None => {
            proof {
                assert(kws + Seq::<ItemView>::empty() =~= kws);
            }
            out
        },
        Some(t) => {
            let fields = db.tys.field_table();
            let mut i: usize = 0;
            proof {
                assert(views(out@) =~= kws + field_items(db.tys, t as int, site.current@, 0, source_range));
            }
            while i < fields.len()
                invariant
                    db.wf(),
                    fields@ == db.tys.fields(),
                    0 <= i <= fields@.len(),
                    views(out@) == kws + field_items(db.tys, t as int, site.current@, i as int, source_range),
                decreases fields@.len() - i,
            {
                let f = &fields[i];
                if f.owner == t && !(f.name == site.current) {
                    let item = CompletionItem {
                        label: f.name.clone(),
                        source_range,
                        replace: f.name.clone(),
                        kind: CompletionItemKind::Field,
                        brief: Some(db.tys.display_ty(f.ty)),
                        doc: None,
                    };
                    let ghost v = views(out@);
                    out.push(item);
                    proof {
                        assert(views(out@) =~= v.push(field_item(db.tys, *f, source_range)));
                    }
                }
                i = i + 1;
            }
            out
        },
    }
}

/// The completions at `offset`, where `token` is the token at the cursor
/// and `site` the construct it belongs to. `None` when the cursor is not on
/// an identifier or a `.`, or not in a reference or an attribute path.
pub fn completions(
    db: &FileAnalysis,
    builtins: &Vec<Builtin>,
    offset: u32,
    token: &CursorToken,
    site: &CursorSite,
) -> (r: Option<Vec<CompletionItem>>)
    requires
        db.wf(),
    ensures
        completion_result(
            *db,
            builtins@,
            offset,
            *token,
            *site,
            match r {
                Some(v) => Some(views(v@)),
                None => None,
            },
        ),
{
    let source_range = match token.kind {
        TokenKind::Dot => TextRange::empty(offset),
        TokenKind::Ident => token.range,
        TokenKind::Other => {
            return None;
        },
    };
    match site {
        CursorSite::Expr(e) => complete_expr(db, builtins, source_range, e),
        CursorSite::Attrpath(a) => Some(complete_attrpath(db, source_range, a)),
        CursorSite::Elsewhere => None,
    }
}

} // verus!
