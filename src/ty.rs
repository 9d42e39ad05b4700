use vstd::prelude::*;

verus! {

/// The outermost constructor of an inferred type. Component types are
/// indices into the same `TyArena`; the fields of an attrset are kept in the
/// arena's field table.
#[derive(Clone, Copy, Debug, PartialEq, Eq, Structural)]
pub enum TyKind {
    Unknown,
    Bool,
    Int,
    Float,
    String,
    Path,
    List(usize),
    Lambda(usize, usize),
    /// An attrset shape; `open` when more fields than the known ones may exist.
    Attrset { open: bool },
}

/// Field `name` of the attrset type `owner` has type `ty`.
#[derive(Clone, Debug, PartialEq, Eq)]
pub struct FieldTy {
    pub owner: usize,
    pub name: String,
    pub ty: usize,
}

/// A step of an attribute path.
#[derive(Clone, Debug, PartialEq, Eq)]
pub enum Attr {
    /// A plain name; `None` when the parser recovered from a missing one.
    Static(Option<String>),
    /// An interpolated `${ ... }` name, unknown before evaluation.
    Dynamic,
}

/// The inferred types of one file.
pub struct TyArena {
    kinds: Vec<TyKind>,
    fields: Vec<FieldTy>,
}

pub open spec fn kind_refs_below(k: TyKind, n: int) -> bool {
    match k {
        TyKind::List(e) => e < n,
        TyKind::Lambda(a, b) => a < n && b < n,
        _ => true,
    }
}

/// How a type is shown as the detail of a completion item.
pub open spec fn display_of(k: TyKind) -> Seq<char> {
    match k {
        TyKind::Unknown => "?"@,
        TyKind::Bool => "bool"@,
        TyKind::Int => "int"@,
        TyKind::Float => "float"@,
        TyKind::String => "string"@,
        TyKind::Path => "path"@,
        TyKind::List(_) => "[ ... ]"@,
        TyKind::Lambda(_, _) => "... -> ..."@,
        TyKind::Attrset { .. } => "{ ... }"@,
    }
}

/// Every step of `path` is a plain name.
pub open spec fn all_static(path: Seq<Attr>) -> bool {
    forall|i: int| 0 <= i < path.len() ==> (#[trigger] path[i]) matches Attr::Static(Some(_))
}

/// Whether every step of `path[from..]` is a plain name.
fn all_plain(path: &Vec<Attr>, from: usize) -> (r: bool)
    requires
        from <= path@.len(),
    ensures
        r == all_static(path@.subrange(from as int, path@.len() as int)),
{
    let ghost tail = path@.subrange(from as int, path@.len() as int);
    let mut j: usize = from;
    while j < path.len()
        invariant
            from <= j <= path@.len(),
            tail == path@.subrange(from as int, path@.len() as int),
            forall|k: int| 0 <= k < j - from ==> (#[trigger] tail[k]) matches Attr::Static(Some(_)),
        decreases path@.len() - j,
    {
        match &path[j] {
            Attr::Static(Some(_)) => {},
            _ => {
                proof {
                    assert(tail[j - from] == path@[j as int]);
                }
                return false;
            },
        }
        proof {
            assert(tail[j - from] == path@[j as int]);
        }
        j = j + 1;
    }
    true
}

impl TyArena {
    pub closed spec fn kinds(&self) -> Seq<TyKind> {
        self.kinds@
    }

    pub closed spec fn fields(&self) -> Seq<FieldTy> {
        self.fields@
    }

    pub open spec fn valid_ty(&self, t: int) -> bool {
        0 <= t < self.kinds().len()
    }

    pub open spec fn is_attrset(&self, t: int) -> bool {
        self.valid_ty(t) && self.kinds()[t] is Attrset
    }

    pub open spec fn wf(&self) -> bool {
        &&& forall|i: int|
            0 <= i < self.kinds().len() ==> kind_refs_below(
                #[trigger] self.kinds()[i],
                self.kinds().len() as int,
            )
        &&& forall|i: int|
            0 <= i < self.fields().len() ==> {
                &&& self.is_attrset((#[trigger] self.fields()[i]).owner as int)
                &&& self.valid_ty(self.fields()[i].ty as int)
            }
        &&& forall|i: int, j: int|
            0 <= i < j < self.fields().len() && (#[trigger] self.fields()[i]).owner
                == (#[trigger] self.fields()[j]).owner ==> self.fields()[i].name@
                != self.fields()[j].name@
    }

    /// The type of field `name` of `t`, when `t` is an attrset that has it.
    pub open spec fn field_of(&self, t: int, name: Seq<char>) -> Option<int> {
        if exists|i: int|
            0 <= i < self.fields().len() && #[trigger] self.fields()[i].owner == t
                && self.fields()[i].name@ == name {
            let i = choose|i: int|
                0 <= i < self.fields().len() && #[trigger] self.fields()[i].owner == t
                    && self.fields()[i].name@ == name;
            Some(self.fields()[i].ty as int)
        } else {
            None
        }
    }

    /// The type reached from `t` by selecting each step of `path` in turn;
    /// `None` as soon as a step is not a plain name or not a known field.
    pub open spec fn walk(&self, t: int, path: Seq<Attr>) -> Option<int>
        decreases path.len(),
    {
        if path.len() == 0 {
            Some(t)
        } else {
            match path[0] {
                Attr::Static(Some(f)) => match self.field_of(t, f@) {
                    Some(u) => self.walk(u, path.drop_first()),
                    None => None,
                },
                _ => None,
            }
        }
    }

    /// Whether `path = ...` can be added to the attrset `t`: every step is a
    /// plain name, the steps that exist lead through attrsets, and the last
    /// step is not defined yet.
    pub open spec fn can_define(&self, t: int, path: Seq<Attr>) -> bool
        decreases path.len(),
    {
        &&& self.is_attrset(t)
        &&& path.len() >= 1
        &&& match path[0] {
            Attr::Static(Some(f)) => if path.len() == 1 {
                self.field_of(t, f@) is None
            } else {
                match self.field_of(t, f@) {
                    Some(u) => self.can_define(u, path.drop_first()),
                    None => all_static(path.drop_first()),
                }
            },
            _ => false,
        }
    }

    proof fn lemma_field_kept(&self, other: &TyArena, x: int, n: Seq<char>)
        requires
            self.wf(),
            other.wf(),
            self.fields().len() <= other.fields().len(),
            forall|i: int| 0 <= i < self.fields().len() ==> other.fields()[i] == self.fields()[i],
            self.field_of(x, n) is Some,
        ensures
            other.field_of(x, n) == self.field_of(x, n),
    {
        let i = choose|i: int|
            0 <= i < self.fields().len() && #[trigger] self.fields()[i].owner == x
                && self.fields()[i].name@ == n;
        assert(other.fields()[i] == self.fields()[i]);
        let j = choose|j: int|
            0 <= j < other.fields().len() && #[trigger] other.fields()[j].owner == x
                && other.fields()[j].name@ == n;
        if j != i {
            assert(other.fields()[j].owner == other.fields()[i].owner);
        }
    }

    proof fn lemma_walk_kept(&self, other: &TyArena, t: int, p: Seq<Attr>)
        requires
            self.wf(),
            other.wf(),
            self.fields().len() <= other.fields().len(),
            forall|i: int| 0 <= i < self.fields().len() ==> other.fields()[i] == self.fields()[i],
            self.walk(t, p) is Some,
        ensures
            other.walk(t, p) == self.walk(t, p),
        decreases p.len(),
    {
        if p.len() > 0 {
            if let Attr::Static(Some(f)) = p[0] {
                self.lemma_field_kept(other, t, f@);
                let u = self.field_of(t, f@).unwrap();
                self.lemma_walk_kept(other, u, p.drop_first());
            }
        }
    }

    proof fn lemma_walk_push(&self, t: int, p: Seq<Attr>, a: Attr)
        ensures
            self.walk(t, p.push(a)) == match self.walk(t, p) {
                Some(u) => self.walk(u, seq![a]),
                None => None,
            },
        decreases p.len(),
    {
        if p.len() == 0 {
            assert(p.push(a) =~= seq![a]);
        } else {
            assert(p.push(a).drop_first() =~= p.drop_first().push(a));
            assert(p.push(a)[0] == p[0]);
            if let Attr::Static(Some(f)) = p[0] {
                if let Some(u) = self.field_of(t, f@) {
                    self.lemma_walk_push(u, p.drop_first(), a);
                }
            }
        }
    }

    /// Whether `path = ...` can be added to `t`, without changing anything.
    pub fn check_define(&self, t: usize, path: &Vec<Attr>) -> (r: bool)
        requires
            self.wf(),
        ensures
            r == self.can_define(t as int, path@),
    {
        if t >= self.kinds.len() || path.len() == 0 {
            return false;
        }
        let mut cur: usize = t;
        let mut i: usize = 0;
        proof {
            assert(path@.subrange(0, path@.len() as int) =~= path@);
        }
        while i < path.len()
            invariant
                self.wf(),
                0 <= i < path@.len(),
                self.valid_ty(cur as int),
                self.can_define(t as int, path@) == self.can_define(
                    cur as int,
                    path@.subrange(i as int, path@.len() as int),
                ),
            decreases path@.len() - i,
        {
            let ghost rest = path@.subrange(i as int, path@.len() as int);
            proof {
                assert(rest.drop_first() =~= path@.subrange(i + 1, path@.len() as int));
                assert(rest[0] == path@[i as int]);
            }
            match self.kinds[cur] {
                TyKind::Attrset { .. } => {},
                _ => {
                    return false;
                },
            }
            let f = match &path[i] {
                Attr::Static(Some(f)) => f,
                _ => {
                    return false;
                },
            };
            let found = self.field(cur, f);
            if i + 1 == path.len() {
                return found.is_none();
            }
            match found {
                Some(u) => {
                    cur = u;
                },
                None => {
                    // The rest will be created: it only needs plain names.
                    let ok = all_plain(path, i + 1);
                    proof {
                        assert(rest.drop_first() =~= path@.subrange(i + 1, path@.len() as int));
                    }
                    return ok;
                },
            }
            i = i + 1;
        }
        false
    }

    /// Folds the binding `path = value` into the attrset `t`: each step but
    /// the last selects a nested attrset, made closed and empty where it is
    /// missing, and the last names `value`. Refused, with nothing changed,
    /// exactly when `can_define` does not hold (a duplicated key, a step
    /// through a non-attrset, or a step that is not a plain name).
    pub fn define_path(&mut self, t: usize, path: &Vec<Attr>, value: usize) -> (r: bool)
        requires
            old(self).wf(),
            old(self).valid_ty(value as int),
            old(self).kinds().len() + path@.len() < usize::MAX,
        ensures
            final(self).wf(),
            r == old(self).can_define(t as int, path@),
            r ==> final(self).walk(t as int, path@) == Some(value as int),
            !r ==> final(self).kinds() == old(self).kinds() && final(self).fields() == old(
                self,
            ).fields(),
    {
        if !self.check_define(t, path) {
            return false;
        }
        let ghost start = self.kinds().len();
        let mut cur: usize = t;
        let mut i: usize = 0;
        proof {
            assert(path@.subrange(0, path@.len() as int) =~= path@);
            assert(path@.subrange(0, 0) =~= Seq::<Attr>::empty());
        }
        while i + 1 < path.len()
            invariant
                self.wf(),
                0 <= i < path@.len(),
                self.valid_ty(value as int),
                self.kinds().len() <= start + i,
                start + path@.len() < usize::MAX,
                self.walk(t as int, path@.subrange(0, i as int)) == Some(cur as int),
                self.can_define(cur as int, path@.subrange(i as int, path@.len() as int)),
            decreases path@.len() - i,
        {
            let ghost rest = path@.subrange(i as int, path@.len() as int);
            let ghost before = *self;
            proof {
                assert(rest.drop_first() =~= path@.subrange(i + 1, path@.len() as int));
                assert(rest[0] == path@[i as int]);
                assert(path@.subrange(0, i + 1) =~= path@.subrange(0, i as int).push(path@[i as int]));
                before.lemma_walk_push(t as int, path@.subrange(0, i as int), path@[i as int]);
            }
            let f = match &path[i] {
                Attr::Static(Some(f)) => f,
                _ => {
                    return false;
                },
            };
            match self.field(cur, f) {
                Some(u) => {
                    proof {
                        assert(seq![path@[i as int]].drop_first() =~= Seq::<Attr>::empty());
                        assert(self.walk(u as int, Seq::<Attr>::empty()) == Some(u as int));
                        assert(self.walk(cur as int, seq![path@[i as int]]) == Some(u as int));
                    }
                    cur = u;
                },
                None => {
                    let n = self.add_ty(TyKind::Attrset { open: false });
                    proof {
                        assert forall|k: int| 0 <= k < self.fields().len() implies #[trigger] self.fields()[k].owner != n by {
                            assert(self.is_attrset(self.fields()[k].owner as int));
                        }
                        before.lemma_walk_kept(self, t as int, path@.subrange(0, i as int));
                        assert(self.field_of(cur as int, f@) is None);
                    }
                    let ghost mid = *self;
                    let added = self.add_field(cur, f.clone(), n);
                    proof {
                        assert(added);
                        mid.lemma_walk_kept(self, t as int, path@.subrange(0, i as int));
                        let k = self.fields().len() - 1;
                        assert(self.fields()[k].owner == cur && self.fields()[k].name@ == f@);
                        assert(self.field_of(cur as int, f@) == Some(n as int)) by {
                            let j = choose|j: int|
                                0 <= j < self.fields().len() && #[trigger] self.fields()[j].owner == cur
                                    && self.fields()[j].name@ == f@;
                            if j != k {
                                assert(self.fields()[j].owner == self.fields()[k].owner);
                            }
                        }
                        self.lemma_walk_push(t as int, path@.subrange(0, i as int), path@[i as int]);
                        assert(seq![path@[i as int]].drop_first() =~= Seq::<Attr>::empty());
                        assert(self.walk(n as int, Seq::<Attr>::empty()) == Some(n as int));
                        assert(self.walk(cur as int, seq![path@[i as int]]) == Some(n as int));
                        let tail = path@.subrange(i + 1, path@.len() as int);
                        assert forall|k: int| 0 <= k < self.fields().len() implies !(#[trigger] self.fields()[k].owner == n) by {
                            if k < mid.fields().len() {
                                assert(self.fields()[k] == mid.fields()[k]);
                            }
                        }
                        assert(tail[0] matches Attr::Static(Some(_)));
                        assert(self.field_of(n as int, tail[0]->Static_0->Some_0@) is None);
                        if tail.len() > 1 {
                            assert forall|k: int| 0 <= k < tail.drop_first().len() implies (#[trigger] tail.drop_first()[k]) matches Attr::Static(Some(_)) by {
                                assert(tail.drop_first()[k] == tail[k + 1]);
                            }
                        }
                    }
                    cur = n;
                },
            }
            i = i + 1;
        }
        let ghost last = *self;
        let f = match &path[i] {
            Attr::Static(Some(f)) => f,
            _ => {
                return false;
            },
        };
        let added = self.add_field(cur, f.clone(), value);
        proof {
            let pre = path@.subrange(0, i as int);
            assert(path@.subrange(i as int, path@.len() as int) =~= seq![path@[i as int]]);
            assert(added);
            last.lemma_walk_kept(self, t as int, pre);
            let k = self.fields().len() - 1;
            assert(self.fields()[k].owner == cur && self.fields()[k].name@ == f@);
            assert(self.field_of(cur as int, f@) == Some(value as int)) by {
                let j = choose|j: int|
                    0 <= j < self.fields().len() && #[trigger] self.fields()[j].owner == cur
                        && self.fields()[j].name@ == f@;
                if j != k {
                    assert(self.fields()[j].owner == self.fields()[k].owner);
                }
            }
            self.lemma_walk_push(t as int, pre, path@[i as int]);
            assert(pre.push(path@[i as int]) =~= path@);
            assert(seq![path@[i as int]].drop_first() =~= Seq::<Attr>::empty());
            assert(self.walk(value as int, Seq::<Attr>::empty()) == Some(value as int));
            assert(self.walk(cur as int, seq![path@[i as int]]) == Some(value as int));
        }
        true
    }

    proof fn lemma_field_push(&self, other: &TyArena, f: FieldTy)
        requires
            self.wf(),
            other.wf(),
            other.fields() == self.fields().push(f),
            self.field_of(f.owner as int, f.name@) is None,
        ensures
            forall|x: int, n: Seq<char>|
                #![trigger other.field_of(x, n)]
                other.field_of(x, n) == if x == f.owner && n == f.name@ {
                    Some(f.ty as int)
                } else {
                    self.field_of(x, n)
                },
    {
        assert forall|x: int, n: Seq<char>| #![trigger other.field_of(x, n)]
            other.field_of(x, n) == if x == f.owner && n == f.name@ {
                Some(f.ty as int)
            } else {
                self.field_of(x, n)
            } by {
            let last = self.fields().len() as int;
            assert(other.fields()[last] == f);
            if x == f.owner && n == f.name@ {
                let j = choose|j: int|
                    0 <= j < other.fields().len() && #[trigger] other.fields()[j].owner == x
                        && other.fields()[j].name@ == n;
                if j != last {
                    assert(other.fields()[j].owner == other.fields()[last].owner);
                }
            } else if self.field_of(x, n) is Some {
                self.lemma_field_kept(other, x, n);
            } else if other.field_of(x, n) is Some {
                let j = choose|j: int|
                    0 <= j < other.fields().len() && #[trigger] other.fields()[j].owner == x
                        && other.fields()[j].name@ == n;
                assert(j != last);
                assert(other.fields()[j] == self.fields()[j]);
            }
        }
    }

    /// The type of a lambda parameter. Without a pattern it is an open
    /// attrset with no known field. With one it lists the pattern's fields,
    /// of unknown type, and is open when the pattern has no catch-all,
    /// closed otherwise.
    pub fn param_ty(&mut self, pattern: Option<&Vec<String>>, catch_all: bool) -> (r: usize)
        requires
            old(self).wf(),
            old(self).kinds().len() + 2 < usize::MAX,
        ensures
            final(self).wf(),
            final(self).valid_ty(r as int),
            final(self).kinds()[r as int] == (TyKind::Attrset {
                open: pattern is None || !catch_all,
            }),
            forall|n: Seq<char>|
                #![trigger final(self).field_of(r as int, n)]
                final(self).field_of(r as int, n) is Some <==> (pattern matches Some(p) && exists|
                    i: int,
                | 0 <= i < p@.len() && (#[trigger] p@[i])@ == n),
            forall|n: Seq<char>|
                #![trigger final(self).field_of(r as int, n)]
                final(self).field_of(r as int, n) is Some ==> final(self).kinds()[
                    final(self).field_of(r as int, n).unwrap()] == TyKind::Unknown,
    {
        let unknown = self.add_ty(TyKind::Unknown);
        let open = match pattern {
            None => true,
            Some(_) => !catch_all,
        };
        let t = self.add_ty(TyKind::Attrset { open });
        proof {
            assert forall|n: Seq<char>| #[trigger] self.field_of(t as int, n) is None by {
                if self.field_of(t as int, n) is Some {
                    let k = choose|k: int|
                        0 <= k < self.fields().len() && #[trigger] self.fields()[k].owner == t
                            && self.fields()[k].name@ == n;
                    assert(self.is_attrset(self.fields()[k].owner as int));
                }
            }
        }
        let names = match pattern {
            None => {
                return t;
            },
            Some(names) => names,
        };
        let mut i: usize = 0;
        while i < names.len()
            invariant
                self.wf(),
                t < self.kinds().len(),
                unknown < self.kinds().len(),
                self.kinds()[t as int] == (TyKind::Attrset { open }),
                self.kinds()[unknown as int] == TyKind::Unknown,
                0 <= i <= names@.len(),
                forall|n: Seq<char>|
                    #![trigger self.field_of(t as int, n)]
                    self.field_of(t as int, n) is Some <==> exists|m: int|
                        0 <= m < i && (#[trigger] names@[m])@ == n,
                forall|n: Seq<char>|
                    #![trigger self.field_of(t as int, n)]
                    self.field_of(t as int, n) is Some ==> self.field_of(t as int, n).unwrap()
                        == unknown,
            decreases names@.len() - i,
        {
            let name = &names[i];
            let ghost before = *self;
            if self.field(t, name).is_none() {
                self.add_field(t, name.clone(), unknown);
                proof {
                    before.lemma_field_push(self, self.fields().last());
                }
            }
            proof {
                assert forall|n: Seq<char>| #![trigger self.field_of(t as int, n)]
                    self.field_of(t as int, n) is Some <==> exists|m: int|
                        0 <= m < i + 1 && (#[trigger] names@[m])@ == n by {
                    assert(before.field_of(t as int, n) is Some <==> exists|m: int|
                        0 <= m < i && (#[trigger] names@[m])@ == n);
                    if n == names@[i as int]@ {
                        assert(self.field_of(t as int, n) is Some);
                    }
                }
            }
            i = i + 1;
        }
        t
    }

    /// An arena holding no types.
    pub fn new() -> (r: TyArena)
        ensures
            r.wf(),
            r.kinds().len() == 0,
            r.fields().len() == 0,
    {
        TyArena { kinds: Vec::new(), fields: Vec::new() }
    }

    pub fn len(&self) -> (r: usize)
        ensures
            r == self.kinds().len(),
    {
        self.kinds.len()
    }

    pub fn kind(&self, t: usize) -> (r: TyKind)
        requires
            self.valid_ty(t as int),
        ensures
            r == self.kinds()[t as int],
    {
        self.kinds[t]
    }

    pub fn field_table(&self) -> (r: &Vec<FieldTy>)
        ensures
            r@ == self.fields(),
    {
        &self.fields
    }

    /// Adds a type whose components are already in the arena; an attrset
    /// starts with no known fields.
    pub fn add_ty(&mut self, kind: TyKind) -> (r: usize)
        requires
            old(self).wf(),
            kind_refs_below(kind, old(self).kinds().len() as int),
            old(self).kinds().len() < usize::MAX,
        ensures
            final(self).wf(),
            r == old(self).kinds().len(),
            final(self).kinds() == old(self).kinds().push(kind),
            final(self).fields() == old(self).fields(),
    {
        let r = self.kinds.len();
        self.kinds.push(kind);
        proof {
            assert forall|i: int| 0 <= i < self.kinds().len() implies kind_refs_below(
                #[trigger] self.kinds()[i],
                self.kinds().len() as int,
            ) by {
                if i < r {
                    assert(self.kinds()[i] == old(self).kinds()[i]);
                }
            }
            assert(self.fields() == old(self).fields());
            assert forall|i: int| 0 <= i < self.fields().len() implies self.is_attrset(
                (#[trigger] self.fields()[i]).owner as int,
            ) && self.valid_ty(self.fields()[i].ty as int) by {
                assert(self.fields()[i] == old(self).fields()[i]);
                assert(old(self).is_attrset(old(self).fields()[i].owner as int));
                assert(self.kinds()[self.fields()[i].owner as int] == old(self).kinds()[self.fields()[i].owner as int]);
            }
        }
        r
    }

    /// The type of field `name` of `t`.
    pub fn field(&self, t: usize, name: &String) -> (r: Option<usize>)
        requires
            self.wf(),
        ensures
            r matches Some(u) ==> self.field_of(t as int, name@) == Some(u as int),
            r is None ==> self.field_of(t as int, name@) is None,
    {
        let mut i: usize = 0;
        while i < self.fields.len()
            invariant
                self.wf(),
                forall|k: int|
                    0 <= k < i ==> !(#[trigger] self.fields()[k].owner == t
                        && self.fields()[k].name@ == name@),
            decreases self.fields.len() - i,
        {
            if self.fields[i].owner == t && self.fields[i].name == *name {
                proof {
                    assert(self.fields()[i as int].owner == t && self.fields()[i as int].name@ == name@);
                    let j = choose|j: int|
                        0 <= j < self.fields().len() && #[trigger] self.fields()[j].owner == t
                            && self.fields()[j].name@ == name@;
                    if j != i {
                        assert(self.fields()[j].owner == self.fields()[i as int].owner);
                    }
                }
                return Some(self.fields[i].ty);
            }
            i = i + 1;
        }
        None
    }

    /// Records that the attrset `t` has field `name` of type `ty`. Refused
    /// (and nothing changes) when `t` is no attrset or already has the field.
    pub fn add_field(&mut self, t: usize, name: String, ty: usize) -> (r: bool)
        requires
            old(self).wf(),
            old(self).valid_ty(ty as int),
        ensures
            final(self).wf(),
            final(self).kinds() == old(self).kinds(),
            r == (old(self).is_attrset(t as int) && old(self).field_of(t as int, name@) is None),
            r ==> final(self).fields() == old(self).fields().push(FieldTy { owner: t, name, ty }),
            !r ==> final(self).fields() == old(self).fields(),
    {
        if t >= self.kinds.len() {
            return false;
        }
        match self.kinds[t] {
            TyKind::Attrset { .. } => {},
            _ => {
                return false;
            },
        }
        if self.field(t, &name).is_some() {
            return false;
        }
        proof {
            assert forall|i: int|
                0 <= i < self.fields().len() && #[trigger] self.fields()[i].owner == t implies self.fields()[i].name@ != name@ by {
                if self.fields()[i].name@ == name@ {
                    assert(self.field_of(t as int, name@) is Some);
                }
            }
        }
        self.fields.push(FieldTy { owner: t, name, ty });
        true
    }

    /// Selects each step of `path[from..to]` in turn, starting from `t`.
    pub fn walk_path(&self, t: usize, path: &Vec<Attr>, from: usize, to: usize) -> (r: Option<usize>)
        requires
            self.wf(),
            from <= to <= path@.len(),
        ensures
            r matches Some(u) ==> self.walk(t as int, path@.subrange(from as int, to as int)) == Some(
                u as int,
            ),
            r is None ==> self.walk(t as int, path@.subrange(from as int, to as int)) is None,
    {
        let mut cur: usize = t;
        let mut i: usize = from;
        while i < to
            invariant
                self.wf(),
                from <= i <= to <= path@.len(),
                self.walk(t as int, path@.subrange(from as int, to as int)) == self.walk(
                    cur as int,
                    path@.subrange(i as int, to as int),
                ),
            decreases to - i,
        {
            let ghost rest = path@.subrange(i as int, to as int);
            proof {
                assert(rest.drop_first() =~= path@.subrange(i + 1, to as int));
                assert(rest[0] == path@[i as int]);
            }
            match &path[i] {
                Attr::Static(Some(f)) => match self.field(cur, f) {
                    Some(u) => {
                        cur = u;
                    },
                    None => {
                        return None;
                    },
                },
                _ => {
                    return None;
                },
            }
            i = i + 1;
        }
        proof {
            assert(path@.subrange(i as int, to as int).len() == 0);
        }
        Some(cur)
    }

    /// The detail shown for type `t` in a completion item.
    pub fn display_ty(&self, t: usize) -> (r: String)
        requires
            self.valid_ty(t as int),
        ensures
            r@ == display_of(self.kinds()[t as int]),
    {
        match self.kinds[t] {
            TyKind::Unknown => "?".to_owned(),
            TyKind::Bool => "bool".to_owned(),
            TyKind::Int => "int".to_owned(),
            TyKind::Float => "float".to_owned(),
            TyKind::String => "string".to_owned(),
            TyKind::Path => "path".to_owned(),
            TyKind::List(_) => "[ ... ]".to_owned(),
            TyKind::Lambda(_, _) => "... -> ...".to_owned(),
            TyKind::Attrset { .. } => "{ ... }".to_owned(),
        }
    }
}

} // verus!
