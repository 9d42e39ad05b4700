use vstd::prelude::*;
use crate::kinds::NameKind;

verus! {

/// A name introduced by a binding construct.
#[derive(Clone, Debug, PartialEq, Eq)]
pub struct Name {
    pub text: String,
    pub kind: NameKind,
}

/// A node of the scope tree. A dynamic scope (`with`) has no statically
/// known definitions.
#[derive(Clone, Copy, Debug, PartialEq, Eq, Structural)]
pub struct ScopeData {
    pub parent: Option<usize>,
    pub dynamic: bool,
}

/// `text` is bound in scope `scope` to the name with index `name`.
#[derive(Clone, Debug, PartialEq, Eq)]
pub struct Definition {
    pub scope: usize,
    pub text: String,
    pub name: usize,
}

/// The tree of lexical scopes of one file. Scope `0` is the root; a scope's
/// parent was always created before it, so every walk outwards ends.
pub struct ModuleScopes {
    scopes: Vec<ScopeData>,
    defs: Vec<Definition>,
    /// The innermost scope of each expression, by expression index.
    expr_scopes: Vec<usize>,
}

/// How a name resolves from some scope.
#[derive(Clone, Copy, Debug, PartialEq, Eq, Structural)]
pub enum Resolution {
    /// Statically bound to this name.
    Found(usize),
    /// A `with` scope comes first on the way out: only evaluation can tell.
    Indeterminate,
    /// Bound nowhere.
    Unbound,
}

/// A scope's parent, if it has one, comes before it.
pub open spec fn parent_before(d: ScopeData, i: int) -> bool {
    match d.parent {
        Some(p) => p < i,
        None => true,
    }
}

/// The definitions among the first `n` of `defs` that belong to `scope`, in
/// order.
pub open spec fn defs_in(defs: Seq<Definition>, scope: int, n: int) -> Seq<Definition>
    decreases n,
{
    if n <= 0 {
        Seq::empty()
    } else if defs[n - 1].scope == scope {
        defs_in(defs, scope, n - 1).push(defs[n - 1])
    } else {
        defs_in(defs, scope, n - 1)
    }
}

impl ModuleScopes {
    pub closed spec fn scopes(&self) -> Seq<ScopeData> {
        self.scopes@
    }

    pub closed spec fn defs(&self) -> Seq<Definition> {
        self.defs@
    }

    pub closed spec fn expr_scopes(&self) -> Seq<usize> {
        self.expr_scopes@
    }

    /// The innermost scope enclosing expression `e`.
    pub open spec fn scope_of_expr(&self, e: int) -> Option<int> {
        if 0 <= e < self.expr_scopes().len() {
            Some(self.expr_scopes()[e] as int)
        } else {
            None
        }
    }

    pub open spec fn wf(&self) -> bool {
        &&& self.scopes().len() > 0
        &&& forall|e: int|
            0 <= e < self.expr_scopes().len() ==> #[trigger] self.expr_scopes()[e]
                < self.scopes().len()
        &&& forall|i: int|
            0 <= i < self.scopes().len() ==> parent_before(#[trigger] self.scopes()[i], i)
        &&& forall|i: int|
            0 <= i < self.defs().len() ==> {
                &&& (#[trigger] self.defs()[i]).scope < self.scopes().len()
                &&& !self.scopes()[self.defs()[i].scope as int].dynamic
            }
        &&& forall|i: int, j: int|
            0 <= i < j < self.defs().len() && (#[trigger] self.defs()[i]).scope
                == (#[trigger] self.defs()[j]).scope ==> self.defs()[i].text@ != self.defs()[j].text@
    }

    pub open spec fn valid_scope(&self, s: int) -> bool {
        0 <= s < self.scopes().len()
    }

    /// The definitions of scope `s`, in the order they were made.
    pub open spec fn definitions_of(&self, s: int) -> Seq<Definition> {
        defs_in(self.defs(), s, self.defs().len() as int)
    }

    /// The scope `s` and its ancestors, innermost first.
    pub open spec fn ancestors_of(&self, s: int) -> Seq<int>
        recommends
            self.wf(),
            self.valid_scope(s),
        decreases s,
    {
        if !self.valid_scope(s) {
            Seq::empty()
        } else {
            match self.scopes()[s].parent {
                Some(p) => if p < s {
                    seq![s].add(self.ancestors_of(p as int))
                } else {
                    seq![s]
                },
                None => seq![s],
            }
        }
    }

    /// The name that `text` is bound to in scope `s` itself, if any.
    pub open spec fn local_binding(&self, s: int, text: Seq<char>) -> Option<usize> {
        if exists|i: int|
            0 <= i < self.defs().len() && #[trigger] self.defs()[i].scope == s
                && self.defs()[i].text@ == text {
            let i = choose|i: int|
                0 <= i < self.defs().len() && #[trigger] self.defs()[i].scope == s
                    && self.defs()[i].text@ == text;
            Some(self.defs()[i].name)
        } else {
            None
        }
    }

    /// Resolution of `text` walking outwards from `s`: the first scope that
    /// binds it wins, unless a dynamic scope is met first.
    pub open spec fn resolve_spec(&self, s: int, text: Seq<char>) -> Resolution
        decreases s,
    {
        if !self.valid_scope(s) {
            Resolution::Unbound
        } else if self.scopes()[s].dynamic {
            Resolution::Indeterminate
        } else if let Some(n) = self.local_binding(s, text) {
            Resolution::Found(n)
        } else {
            match self.scopes()[s].parent {
                Some(p) => if p < s {
                    self.resolve_spec(p as int, text)
                } else {
                    Resolution::Unbound
                },
                None => Resolution::Unbound,
            }
        }
    }

    /// A tree holding only the root scope, with no definitions.
    pub fn new() -> (r: ModuleScopes)
        ensures
            r.wf(),
            r.scopes() == seq![ScopeData { parent: None, dynamic: false }],
            r.defs().len() == 0,
            r.expr_scopes().len() == 0,
    {
        ModuleScopes {
            scopes: vec![ScopeData { parent: None, dynamic: false }],
            defs: Vec::new(),
            expr_scopes: Vec::new(),
        }
    }

    /// Records a new expression whose innermost scope is `s`; returns its
    /// index.
    pub fn add_expr(&mut self, s: usize) -> (r: usize)
        requires
            old(self).wf(),
            old(self).valid_scope(s as int),
        ensures
            final(self).wf(),
            r == old(self).expr_scopes().len(),
            final(self).expr_scopes() == old(self).expr_scopes().push(s),
            final(self).scopes() == old(self).scopes(),
            final(self).defs() == old(self).defs(),
    {
        let r = self.expr_scopes.len();
        self.expr_scopes.push(s);
        proof {
            assert forall|e: int| 0 <= e < self.expr_scopes().len() implies #[trigger] self.expr_scopes()[e]
                < self.scopes().len() by {
                if e < r {
                    assert(self.expr_scopes()[e] == old(self).expr_scopes()[e]);
                }
            }
        }
        r
    }

    /// The innermost scope enclosing expression `e`, if `e` is known.
    pub fn scope_for_expr(&self, e: usize) -> (r: Option<usize>)
        requires
            self.wf(),
        ensures
            r matches Some(s) ==> self.scope_of_expr(e as int) == Some(s as int) && self.valid_scope(s as int),
            r is None ==> self.scope_of_expr(e as int) is None,
    {
        if e < self.expr_scopes.len() {
            Some(self.expr_scopes[e])
        } else {
            None
        }
    }

    /// The definitions of scope `s`, or `None` for a dynamic scope, whose
    /// names cannot be listed before evaluation.
    pub fn as_definitions(&self, s: usize) -> (r: Option<Vec<Definition>>)
        requires
            self.wf(),
            self.valid_scope(s as int),
        ensures
            self.scopes()[s as int].dynamic ==> r is None,
            !self.scopes()[s as int].dynamic ==> (r matches Some(v) && v@ == self.definitions_of(
                s as int,
            )),
    {
        if self.scopes[s].dynamic {
            return None;
        }
        let mut out: Vec<Definition> = Vec::new();
        let mut i: usize = 0;
        while i < self.defs.len()
            invariant
                0 <= i <= self.defs().len(),
                out@ == defs_in(self.defs(), s as int, i as int),
            decreases self.defs().len() - i,
        {
            let d = &self.defs[i];
            if d.scope == s {
                out.push(Definition { scope: d.scope, text: d.text.clone(), name: d.name });
            }
            i = i + 1;
        }
        Some(out)
    }

    pub fn len(&self) -> (r: usize)
        ensures
            r == self.scopes().len(),
    {
        self.scopes.len()
    }

    pub fn scope(&self, s: usize) -> (r: ScopeData)
        requires
            self.valid_scope(s as int),
        ensures
            r == self.scopes()[s as int],
    {
        self.scopes[s]
    }

    pub fn definitions(&self) -> (r: &Vec<Definition>)
        ensures
            r@ == self.defs(),
    {
        &self.defs
    }

    /// Opens a new scope inside `parent`; `dynamic` marks a `with` scope.
    pub fn add_scope(&mut self, parent: usize, dynamic: bool) -> (r: usize)
        requires
            old(self).wf(),
            old(self).valid_scope(parent as int),
            old(self).scopes().len() < usize::MAX,
        ensures
            final(self).wf(),
            r == old(self).scopes().len(),
            final(self).scopes() == old(self).scopes().push(
                ScopeData { parent: Some(parent), dynamic },
            ),
            final(self).defs() == old(self).defs(),
            final(self).expr_scopes() == old(self).expr_scopes(),
    {
        let r = self.scopes.len();
        self.scopes.push(ScopeData { parent: Some(parent), dynamic });
        proof {
            assert(self.expr_scopes() == old(self).expr_scopes());
            assert forall|e: int| 0 <= e < self.expr_scopes().len() implies #[trigger] self.expr_scopes()[e]
                < self.scopes().len() by {
                assert(old(self).expr_scopes()[e] < old(self).scopes().len());
            }
            assert forall|i: int|
                0 <= i < self.scopes().len() implies parent_before(#[trigger] self.scopes()[i], i) by {
                if i < r {
                    assert(self.scopes()[i] == old(self).scopes()[i]);
                }
            }
            assert forall|i: int|
                0 <= i < self.defs().len() implies !self.scopes()[(#[trigger] self.defs()[i]).scope as int].dynamic by {
                assert(self.scopes()[self.defs()[i].scope as int] == old(self).scopes()[self.defs()[i].scope as int]);
            }
        }
        r
    }

    /// The name bound to `text` in scope `s` itself.
    pub fn lookup_local(&self, s: usize, text: &String) -> (r: Option<usize>)
        requires
            self.wf(),
        ensures
            r == self.local_binding(s as int, text@),
    {
        let mut i: usize = 0;
        while i < self.defs.len()
            invariant
                self.wf(),
                forall|k: int|
                    0 <= k < i ==> !(#[trigger] self.defs()[k].scope == s && self.defs()[k].text@
                        == text@),
            decreases self.defs.len() - i,
        {
            if self.defs[i].scope == s && self.defs[i].text == *text {
                proof {
                    assert(self.defs()[i as int].scope == s && self.defs()[i as int].text@ == text@);
                    let j = choose|j: int|
                        0 <= j < self.defs().len() && #[trigger] self.defs()[j].scope == s
                            && self.defs()[j].text@ == text@;
                    if j != i {
                        assert(self.defs()[j].scope == self.defs()[i as int].scope);
                    }
                }
                return Some(self.defs[i].name);
            }
            i = i + 1;
        }
        None
    }

    /// Binds `text` to `name` in scope `s`. Refused (and nothing changes)
    /// when `s` is dynamic or already binds `text`: a repeated key is
    /// reported, never silently overwritten.
    pub fn define(&mut self, s: usize, text: String, name: usize) -> (r: bool)
        requires
            old(self).wf(),
            old(self).valid_scope(s as int),
        ensures
            final(self).wf(),
            final(self).scopes() == old(self).scopes(),
            final(self).expr_scopes() == old(self).expr_scopes(),
            r == (!old(self).scopes()[s as int].dynamic && old(self).local_binding(s as int, text@) is None),
            r ==> final(self).defs() == old(self).defs().push(Definition { scope: s, text, name }),
            !r ==> final(self).defs() == old(self).defs(),
    {
        if self.scopes[s].dynamic {
            return false;
        }
        if self.lookup_local(s, &text).is_some() {
            return false;
        }
        proof {
            assert forall|i: int|
                0 <= i < self.defs().len() && #[trigger] self.defs()[i].scope == s implies self.defs()[i].text@ != text@ by {
                if self.defs()[i].text@ == text@ {
                    assert(self.local_binding(s as int, text@) is Some);
                }
            }
        }
        self.defs.push(Definition { scope: s, text, name });
        proof {
            assert(self.expr_scopes() == old(self).expr_scopes());
            assert(self.scopes() == old(self).scopes());
        }
        true
    }

    /// `s` and its ancestors, innermost first.
    pub fn ancestors(&self, s: usize) -> (r: Vec<usize>)
        requires
            self.wf(),
            self.valid_scope(s as int),
        ensures
            r@.map_values(|x: usize| x as int) == self.ancestors_of(s as int),
    {
        let mut r: Vec<usize> = Vec::new();
        let mut cur: usize = s;
        loop
            invariant
                self.wf(),
                self.valid_scope(cur as int),
                self.ancestors_of(s as int) == r@.map_values(|x: usize| x as int).add(
                    self.ancestors_of(cur as int),
                ),
            decreases cur,
        {
            let ghost before = r@;
            r.push(cur);
            proof {
                assert(r@.map_values(|x: usize| x as int) =~= before.map_values(|x: usize| x as int).push(cur as int));
            }
            match self.scopes[cur].parent {
                Some(p) => {
                    proof {
                        assert(self.ancestors_of(cur as int) == seq![cur as int].add(self.ancestors_of(p as int)));
                        assert(r@.map_values(|x: usize| x as int).add(self.ancestors_of(p as int))
                            =~= before.map_values(|x: usize| x as int).add(self.ancestors_of(cur as int)));
                    }
                    cur = p;
                },
                None => {
                    proof {
                        assert(r@.map_values(|x: usize| x as int)
                            =~= before.map_values(|x: usize| x as int).add(self.ancestors_of(cur as int)));
                    }
                    return r;
                },
            }
        }
    }

    /// Resolves `text` from scope `s` outwards.
    pub fn resolve(&self, s: usize, text: &String) -> (r: Resolution)
        requires
            self.wf(),
            self.valid_scope(s as int),
        ensures
            r == self.resolve_spec(s as int, text@),
    {
        let mut cur: usize = s;
        loop
            invariant
                self.wf(),
                self.valid_scope(cur as int),
                self.resolve_spec(s as int, text@) == self.resolve_spec(cur as int, text@),
            decreases cur,
        {
            if self.scopes[cur].dynamic {
                return Resolution::Indeterminate;
            }
            if let Some(n) = self.lookup_local(cur, text) {
                return Resolution::Found(n);
            }
            match self.scopes[cur].parent {
                Some(p) => {
                    cur = p;
                },
                None => {
                    return Resolution::Unbound;
                },
            }
        }
    }
}

} // verus!
