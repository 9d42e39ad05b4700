use vstd::prelude::*;
use crate::analysis::FileAnalysis;
use crate::completion::{
    builtin_item, builtin_items, completion_result, field_items, first_with_label, has_label, is_first_item,
    label_key, sorted_by_label, sorted_dedup_of, Builtin, CursorSite, CursorToken, ItemView,
};
use crate::diagnostic::{
    is_deprecated_kind, is_unnecessary_kind, severity_of, DiagnosticKind, Severity,
};
use crate::matching::{
    bytes_lt, is_subsequence, lemma_bytes_lt_irreflexive, lemma_bytes_lt_transitive,
};
use crate::text::TextRange;
use crate::ty::TyArena;

verus! {

/// The empty prefix can be completed by any text.
pub proof fn empty_prefix_matches_everything(s: Seq<u8>)
    ensures
        is_subsequence(Seq::empty(), s),
{
}

proof fn lemma_first_items_equal(c: Seq<ItemView>, x: ItemView, y: ItemView)
    requires
        is_first_item(c, x),
        is_first_item(c, y),
        label_key(x) == label_key(y),
    ensures
        x == y,
{
    let j1 = choose|j: int| first_with_label(c, j) && c[j] == x;
    let j2 = choose|j: int| first_with_label(c, j) && c[j] == y;
    if j1 < j2 {
        assert(label_key(c[j1]) != label_key(c[j2]));
    } else if j2 < j1 {
        assert(label_key(c[j2]) != label_key(c[j1]));
    }
}

proof fn lemma_same_labels_equal(r1: Seq<ItemView>, r2: Seq<ItemView>, c: Seq<ItemView>)
    requires
        sorted_by_label(r1),
        sorted_by_label(r2),
        forall|i: int| 0 <= i < r1.len() ==> #[trigger] is_first_item(c, r1[i]),
        forall|i: int| 0 <= i < r2.len() ==> #[trigger] is_first_item(c, r2[i]),
        forall|i: int| 0 <= i < r1.len() ==> #[trigger] has_label(r2, label_key(r1[i])),
        forall|i: int| 0 <= i < r2.len() ==> #[trigger] has_label(r1, label_key(r2[i])),
    ensures
        r1 == r2,
    decreases r1.len(),
{
    if r1.len() == 0 || r2.len() == 0 {
        if r1.len() > 0 {
            assert(has_label(r2, label_key(r1[0])));
        } else if r2.len() > 0 {
            assert(has_label(r1, label_key(r2[0])));
        } else {
            assert(r1 =~= r2);
        }
    } else {
        // The heads bear the least label of both.
        assert(has_label(r2, label_key(r1[0])));
        let m = choose|m: int| 0 <= m < r2.len() && label_key(r2[m]) == label_key(r1[0]);
        assert(has_label(r1, label_key(r2[0])));
        let m2 = choose|m: int| 0 <= m < r1.len() && label_key(r1[m]) == label_key(r2[0]);
        lemma_bytes_lt_irreflexive(label_key(r1[0]));
        if m > 0 {
            assert(bytes_lt(label_key(r2[0]), label_key(r2[m])));
            if m2 > 0 {
                assert(bytes_lt(label_key(r1[0]), label_key(r1[m2])));
                lemma_bytes_lt_transitive(label_key(r1[0]), label_key(r2[0]), label_key(r1[0]));
            }
        }
        assert(label_key(r1[0]) == label_key(r2[0]));
        assert(is_first_item(c, r1[0]));
        assert(is_first_item(c, r2[0]));
        lemma_first_items_equal(c, r1[0], r2[0]);
        let t1 = r1.drop_first();
        let t2 = r2.drop_first();
        assert forall|i: int| 0 <= i < t1.len() implies #[trigger] is_first_item(c, t1[i]) by {
            assert(t1[i] == r1[i + 1]);
            assert(is_first_item(c, r1[i + 1]));
        }
        assert forall|i: int| 0 <= i < t2.len() implies #[trigger] is_first_item(c, t2[i]) by {
            assert(t2[i] == r2[i + 1]);
            assert(is_first_item(c, r2[i + 1]));
        }
        assert forall|i: int| 0 <= i < t1.len() implies #[trigger] has_label(t2, label_key(t1[i])) by {
            assert(t1[i] == r1[i + 1]);
            assert(has_label(r2, label_key(r1[i + 1])));
            let k = choose|k: int| 0 <= k < r2.len() && label_key(r2[k]) == label_key(r1[i + 1]);
            assert(bytes_lt(label_key(r1[0]), label_key(r1[i + 1])));
            assert(k != 0);
            assert(t2[k - 1] == r2[k]);
        }
        assert forall|i: int| 0 <= i < t2.len() implies #[trigger] has_label(t1, label_key(t2[i])) by {
            assert(t2[i] == r2[i + 1]);
            assert(has_label(r1, label_key(r2[i + 1])));
            let k = choose|k: int| 0 <= k < r1.len() && label_key(r1[k]) == label_key(r2[i + 1]);
            assert(bytes_lt(label_key(r2[0]), label_key(r2[i + 1])));
            assert(k != 0);
            assert(t1[k - 1] == r1[k]);
        }
        assert forall|i: int, j: int| 0 <= i < j < t1.len() implies bytes_lt(
            label_key(#[trigger] t1[i]),
            label_key(#[trigger] t1[j]),
        ) by {
            assert(t1[i] == r1[i + 1] && t1[j] == r1[j + 1]);
        }
        assert forall|i: int, j: int| 0 <= i < j < t2.len() implies bytes_lt(
            label_key(#[trigger] t2[i]),
            label_key(#[trigger] t2[j]),
        ) by {
            assert(t2[i] == r2[i + 1] && t2[j] == r2[j + 1]);
        }
        lemma_same_labels_equal(t1, t2, c);
        assert(r1 =~= seq![r1[0]] + t1);
        assert(r2 =~= seq![r2[0]] + t2);
    }
}

/// Sorting a list of candidates by label and keeping the first of each
/// label has exactly one outcome.
pub proof fn sorted_dedup_unique(c: Seq<ItemView>, r1: Seq<ItemView>, r2: Seq<ItemView>)
    requires
        sorted_dedup_of(r1, c),
        sorted_dedup_of(r2, c),
    ensures
        r1 == r2,
{
    assert forall|i: int| 0 <= i < r1.len() implies #[trigger] has_label(r2, label_key(r1[i])) by {
        assert(is_first_item(c, r1[i]));
        let j = choose|j: int| first_with_label(c, j) && c[j] == r1[i];
        assert(has_label(r2, label_key(c[j])));
    }
    assert forall|i: int| 0 <= i < r2.len() implies #[trigger] has_label(r1, label_key(r2[i])) by {
        assert(is_first_item(c, r2[i]));
        let j = choose|j: int| first_with_label(c, j) && c[j] == r2[i];
        assert(has_label(r1, label_key(c[j])));
    }
    lemma_same_labels_equal(r1, r2, c);
}

/// Asking twice for completions on the same analysis, at the same cursor,
/// gives the same items in the same order; that order is by label, with no
/// label twice.
pub proof fn completions_are_deterministic(
    db: FileAnalysis,
    builtins: Seq<Builtin>,
    offset: u32,
    token: CursorToken,
    site: CursorSite,
    r1: Option<Seq<ItemView>>,
    r2: Option<Seq<ItemView>>,
)
    requires
        completion_result(db, builtins, offset, token, site, r1),
        completion_result(db, builtins, offset, token, site, r2),
    ensures
        r1 == r2,
        site is Expr ==> (r1 matches Some(items) ==> sorted_by_label(items)),
{
    if let CursorSite::Expr(_) = site {
        if let (Some(a), Some(b)) = (r1, r2) {
            let range = crate::completion::source_range_of(offset, token).unwrap();
            if let CursorSite::Expr(e) = site {
                let c = crate::completion::matching(
                    e.prefix@,
                    crate::completion::expr_candidates(db, builtins, range, e),
                );
                sorted_dedup_unique(c, a, b);
            }
        }
    }
}

/// No field offered in an attribute path is the one being typed there.
pub proof fn typed_field_not_offered(
    tys: TyArena,
    t: int,
    current: Seq<char>,
    n: int,
    range: TextRange,
)
    ensures
        forall|i: int|
            0 <= i < field_items(tys, t, current, n, range).len() ==> (#[trigger] field_items(
                tys,
                t,
                current,
                n,
                range,
            )[i]).label != current,
    decreases n,
{
    if n > 0 {
        typed_field_not_offered(tys, t, current, n - 1, range);
    }
}

/// The builtins offered at a reference are global ones: those reached only
/// through their attrset are never among them.
pub proof fn only_global_builtins_offered(bs: Seq<Builtin>, range: TextRange)
    ensures
        forall|i: int|
            0 <= i < builtin_items(bs, range).len() ==> exists|j: int|
                0 <= j < bs.len() && bs[j].is_global && #[trigger] builtin_items(bs, range)[i]
                    == builtin_item(bs[j], range),
    decreases bs.len(),
{
    if bs.len() > 0 {
        let rest = bs.drop_last();
        only_global_builtins_offered(rest, range);
        let items = builtin_items(bs, range);
        assert forall|i: int| 0 <= i < items.len() implies exists|j: int|
            0 <= j < bs.len() && bs[j].is_global && #[trigger] items[i] == builtin_item(bs[j], range) by {
            if i < builtin_items(rest, range).len() {
                assert(items[i] == builtin_items(rest, range)[i]);
                let j = choose|j: int|
                    0 <= j < rest.len() && rest[j].is_global && #[trigger] builtin_items(rest, range)[i]
                        == builtin_item(rest[j], range);
                assert(bs[j] == rest[j]);
            } else {
                assert(bs[bs.len() - 1] == bs.last());
            }
        }
    }
}

/// Structural errors are errors; unused bindings, `with`s and `rec`s are
/// warnings that may be faded out; the legacy `let { }` and URL literals are
/// warnings that may be struck through.
pub proof fn severity_classes(k: DiagnosticKind)
    ensures
        (k == DiagnosticKind::DuplicatedKey || k == DiagnosticKind::InvalidDynamic) ==> severity_of(k)
            == Severity::Error,
        (k == DiagnosticKind::UnusedBinding || k == DiagnosticKind::UnusedWith || k
            == DiagnosticKind::UnusedRec) ==> severity_of(k) == Severity::Warning
            && is_unnecessary_kind(k),
        (k == DiagnosticKind::LetAttrset || k == DiagnosticKind::UriLiteral) ==> severity_of(k)
            == Severity::Warning && is_deprecated_kind(k),
{
}

} // verus!
