//! The interning context: the tables that give every type, constant,
//! attribute set and string one canonical handle.

use vstd::prelude::*;
use vstd::std_specs::cmp::PartialEqSpec;
use crate::attrs::{AttrSetDef, AttrView};
use crate::{ConstDef, ConstDefView, TypeDef, TypeDefView};

verus! {

/// What interning `v` in `table` gives: the table afterwards, and the
/// position of `v` in it.
///
/// A value that the table holds keeps its position and the table stays as it
/// is; a new value goes to the end.
pub open spec fn interned<T>(table: Seq<T>, v: T) -> (Seq<T>, int) {
    if table.contains(v) {
        (table, table.index_of(v))
    } else {
        (table.push(v), table.len() as int)
    }
}

/// The position that interning gives is in the table, and holds the value.
pub proof fn lemma_interned_lookup<T>(table: Seq<T>, v: T)
    ensures
        0 <= interned(table, v).1 < interned(table, v).0.len(),
        interned(table, v).0[interned(table, v).1] == v,
{
}

/// Interning never moves or changes what the table held before.
pub proof fn lemma_interned_extends<T>(table: Seq<T>, v: T)
    ensures
        table.len() <= interned(table, v).0.len(),
        forall|i: int| 0 <= i < table.len() ==> interned(table, v).0[i] == table[i],
{
}

/// A table without repeats has none after interning.
pub proof fn lemma_interned_no_duplicates<T>(table: Seq<T>, v: T)
    requires
        table.no_duplicates(),
    ensures
        interned(table, v).0.no_duplicates(),
{
}

/// Interning a value a second time gives the same position and leaves the
/// table as the first time left it.
pub proof fn lemma_interned_idempotent<T>(table: Seq<T>, v: T)
    requires
        table.no_duplicates(),
    ensures
        interned(interned(table, v).0, v) == interned(table, v),
{
    let (t, h) = interned(table, v);
    assert(t.contains(v)) by {
        assert(t[h] == v);
    }
    assert(t.index_of(v) == h);
}

/// Interning two values, one after the other, gives the same position
/// exactly when the values are equal.
pub proof fn lemma_interned_injective<T>(table: Seq<T>, v1: T, v2: T)
    requires
        table.no_duplicates(),
    ensures
        interned(interned(table, v1).0, v2).1 == interned(table, v1).1 <==> v1 == v2,
{
    let (t1, h1) = interned(table, v1);
    let (t2, h2) = interned(t1, v2);
    lemma_interned_idempotent(table, v1);
    assert(t1[h1] == v1);
    assert(t2[h2] == v2);
    assert(t2[h1] == v1);
}

/// In a table without repeats, two positions hold the same value only if
/// they are the same position.
pub proof fn lemma_positions_canonical<T>(table: Seq<T>, i: int, j: int)
    requires
        table.no_duplicates(),
        0 <= i < table.len(),
        0 <= j < table.len(),
    ensures
        table[i] == table[j] <==> i == j,
{
}

/// The handle of an interned [`TypeDef`](crate::TypeDef).
#[derive(Copy, Clone, PartialEq, Eq, Structural, Debug, Hash)]
pub struct Type {
    index: usize,
}

/// The handle of an interned [`ConstDef`](crate::ConstDef).
#[derive(Copy, Clone, PartialEq, Eq, Structural, Debug, Hash)]
pub struct Const {
    index: usize,
}

/// The handle of an interned [`AttrSetDef`](crate::AttrSetDef).
#[derive(Copy, Clone, PartialEq, Eq, Structural, Debug, Hash)]
pub struct AttrSet {
    index: usize,
}

/// The handle of an interned string.
#[derive(Copy, Clone, PartialEq, Eq, Structural, Debug, Hash)]
pub struct InternedStr {
    index: usize,
}

impl View for Type {
    type V = int;

    /// The handle's position in its context's table of types.
    closed spec fn view(&self) -> int {
        self.index as int
    }
}

impl View for Const {
    type V = int;

    /// The handle's position in its context's table of constants.
    closed spec fn view(&self) -> int {
        self.index as int
    }
}

impl View for AttrSet {
    type V = int;

    /// The handle's position in its context's table of attribute sets.
    closed spec fn view(&self) -> int {
        self.index as int
    }
}

impl View for InternedStr {
    type V = int;

    /// The handle's position in its context's table of strings.
    closed spec fn view(&self) -> int {
        self.index as int
    }
}

impl Type {
    /// Handles are equal exactly when their positions are.
    pub proof fn lemma_view_injective(a: Type, b: Type)
        ensures
            a@ == b@ <==> a == b,
    {
    }
}

impl Const {
    /// Handles are equal exactly when their positions are.
    pub proof fn lemma_view_injective(a: Const, b: Const)
        ensures
            a@ == b@ <==> a == b,
    {
    }
}

impl AttrSet {
    /// Handles are equal exactly when their positions are.
    pub proof fn lemma_view_injective(a: AttrSet, b: AttrSet)
        ensures
            a@ == b@ <==> a == b,
    {
    }
}

impl InternedStr {
    /// Handles are equal exactly when their positions are.
    pub proof fn lemma_view_injective(a: InternedStr, b: InternedStr)
        ensures
            a@ == b@ <==> a == b,
    {
    }
}

/// Two types of the same constructor, arguments and attributes are one type:
/// whichever is interned second gets the handle of the first. Nothing of the
/// types behind the handles among their arguments is looked at, as those
/// handles are canonical themselves.
pub proof fn lemma_equal_parts_same_type(table: Seq<TypeDefView>, a: TypeDef, b: TypeDef)
    requires
        table.no_duplicates(),
        a.ctor == b.ctor,
        a.ctor_args@ == b.ctor_args@,
        a.attrs == b.attrs,
    ensures
        a@ == b@,
        interned(interned(table, a@).0, b@).1 == interned(table, a@).1,
{
    lemma_interned_idempotent(table, a@);
}

/// The first position of `table` that holds a value equal to `v`.
fn position<T: PartialEq + View>(table: &Vec<T>, v: &T) -> (found: Option<usize>)
    requires
        T::obeys_eq_spec(),
        forall|a: T, b: T| #[trigger] a.eq_spec(&b) <==> a@ == b@,
    ensures
        match found {
            Some(i) => i < table.len() && table[i as int]@ == v@,
            None => forall|j: int| 0 <= j < table.len() ==> table[j]@ != v@,
        },
{
    let mut i: usize = 0;
    while i < table.len()
        invariant
            i <= table.len(),
            T::obeys_eq_spec(),
            forall|a: T, b: T| #[trigger] a.eq_spec(&b) <==> a@ == b@,
            forall|j: int| 0 <= j < i ==> table[j]@ != v@,
        decreases table.len() - i,
    {
        if table[i] == *v {
            return Some(i);
        }
        i += 1;
    }
    None
}

/// The first position of `table` that holds the string `s`.
fn position_str(table: &Vec<String>, s: &String) -> (found: Option<usize>)
    ensures
        match found {
            Some(i) => i < table.len() && table[i as int]@ == s@,
            None => forall|j: int| 0 <= j < table.len() ==> table[j]@ != s@,
        },
{
    let mut i: usize = 0;
    while i < table.len()
        invariant
            i <= table.len(),
            forall|j: int| 0 <= j < i ==> table[j]@ != s@,
        decreases table.len() - i,
    {
        if table[i] == *s {
            return Some(i);
        }
        i += 1;
    }
    None
}

/// The tables of a context, each as the sequence of the values it holds: a
/// handle's view is its position in the table of its kind.
pub struct ContextView {
    pub types: Seq<TypeDefView>,
    pub consts: Seq<ConstDefView>,
    pub attr_sets: Seq<Seq<AttrView>>,
    pub strings: Seq<Seq<char>>,
}

/// The interning tables for types, constants, attribute sets and strings.
///
/// Interning a value gives its handle; a value equal to one interned before
/// gets that one's handle. Nothing is ever removed, so a handle stays good
/// for as long as its context lives. A handle means something only in the
/// context that gave it.
#[derive(Debug)]
pub struct Context {
    types: Vec<TypeDef>,
    consts: Vec<ConstDef>,
    attr_sets: Vec<AttrSetDef>,
    strings: Vec<String>,
}

impl View for Context {
    type V = ContextView;

    closed spec fn view(&self) -> ContextView {
        ContextView {
            types: self.types@.map_values(|def: TypeDef| def@),
            consts: self.consts@.map_values(|def: ConstDef| def@),
            attr_sets: self.attr_sets@.map_values(|def: AttrSetDef| def@),
            strings: self.strings@.map_values(|s: String| s@),
        }
    }
}

impl ContextView {
    /// No table holds a value twice.
    pub open spec fn canonical(self) -> bool {
        &&& self.types.no_duplicates()
        &&& self.consts.no_duplicates()
        &&& self.attr_sets.no_duplicates()
        &&& self.strings.no_duplicates()
    }
}

impl Context {
    /// The invariant of a context: no table holds a value twice, so that two
    /// handles of one kind are equal exactly when what they stand for is.
    pub open spec fn wf(&self) -> bool {
        self@.canonical()
    }

    /// Whether `ty` is a handle that this context gave.
    pub open spec fn has_type(&self, ty: Type) -> bool {
        0 <= ty@ < self@.types.len()
    }

    /// Whether `ct` is a handle that this context gave.
    pub open spec fn has_const(&self, ct: Const) -> bool {
        0 <= ct@ < self@.consts.len()
    }

    /// Whether `attrs` is a handle that this context gave.
    pub open spec fn has_attr_set(&self, attrs: AttrSet) -> bool {
        0 <= attrs@ < self@.attr_sets.len()
    }

    /// Whether `s` is a handle that this context gave.
    pub open spec fn has_str(&self, s: InternedStr) -> bool {
        0 <= s@ < self@.strings.len()
    }

    /// Two handles for types stand for the same type exactly when they are
    /// the same handle.
    pub proof fn lemma_types_canonical(&self, a: Type, b: Type)
        requires
            self.wf(),
            self.has_type(a),
            self.has_type(b),
        ensures
            self@.types[a@] == self@.types[b@] <==> a == b,
    {
    }

    /// Two handles for constants stand for the same constant exactly when
    /// they are the same handle.
    pub proof fn lemma_consts_canonical(&self, a: Const, b: Const)
        requires
            self.wf(),
            self.has_const(a),
            self.has_const(b),
        ensures
            self@.consts[a@] == self@.consts[b@] <==> a == b,
    {
    }

    /// Two handles for attribute sets stand for the same set exactly when
    /// they are the same handle.
    pub proof fn lemma_attr_sets_canonical(&self, a: AttrSet, b: AttrSet)
        requires
            self.wf(),
            self.has_attr_set(a),
            self.has_attr_set(b),
        ensures
            self@.attr_sets[a@] == self@.attr_sets[b@] <==> a == b,
    {
    }

    /// Two handles for strings stand for the same string exactly when they
    /// are the same handle.
    pub proof fn lemma_strs_canonical(&self, a: InternedStr, b: InternedStr)
        requires
            self.wf(),
            self.has_str(a),
            self.has_str(b),
        ensures
            self@.strings[a@] == self@.strings[b@] <==> a == b,
    {
    }

    /// A context with nothing interned.
    pub fn new() -> (cx: Context)
        ensures
            cx.wf(),
            cx@.types.len() == 0,
            cx@.consts.len() == 0,
            cx@.attr_sets.len() == 0,
            cx@.strings.len() == 0,
    {
        Context {
            types: Vec::new(),
            consts: Vec::new(),
            attr_sets: Vec::new(),
            strings: Vec::new(),
        }
    }

    /// The handle of the type `def`: that of an equal type interned before,
    /// or else a new one.
    pub fn intern_type(&mut self, def: TypeDef) -> (ty: Type)
        requires
            old(self).wf(),
        ensures
            final(self).wf(),
            (final(self)@.types, ty@) == interned(old(self)@.types, def@),
            final(self)@.consts == old(self)@.consts,
            final(self)@.attr_sets == old(self)@.attr_sets,
            final(self)@.strings == old(self)@.strings,
    {
        let ghost table = self@.types;
        match position(&self.types, &def) {
            Some(index) => {
                proof {
                    assert(table[index as int] == def@);
                }
                Type { index }
            },
            None => {
                let index = self.types.len();
                proof {
                    assert(!table.contains(def@));
                    assert(self.types@.push(def).map_values(|def: TypeDef| def@)
                        == table.push(def@));
                }
                self.types.push(def);
                Type { index }
            },
        }
    }

    /// The handle of the constant `def`: that of an equal constant interned
    /// before, or else a new one.
    pub fn intern_const(&mut self, def: ConstDef) -> (ct: Const)
        requires
            old(self).wf(),
        ensures
            final(self).wf(),
            (final(self)@.consts, ct@) == interned(old(self)@.consts, def@),
            final(self)@.types == old(self)@.types,
            final(self)@.attr_sets == old(self)@.attr_sets,
            final(self)@.strings == old(self)@.strings,
    {
        let ghost table = self@.consts;
        match position(&self.consts, &def) {
            Some(index) => {
                proof {
                    assert(table[index as int] == def@);
                }
                Const { index }
            },
            None => {
                let index = self.consts.len();
                proof {
                    assert(!table.contains(def@));
                    assert(self.consts@.push(def).map_values(|def: ConstDef| def@)
                        == table.push(def@));
                }
                self.consts.push(def);
                Const { index }
            },
        }
    }

    /// The handle of the attribute set `def`: that of an equal set interned
    /// before, or else a new one.
    pub fn intern_attr_set(&mut self, def: AttrSetDef) -> (attrs: AttrSet)
        requires
            old(self).wf(),
        ensures
            final(self).wf(),
            (final(self)@.attr_sets, attrs@) == interned(old(self)@.attr_sets, def@),
            final(self)@.types == old(self)@.types,
            final(self)@.consts == old(self)@.consts,
            final(self)@.strings == old(self)@.strings,
    {
        let ghost table = self@.attr_sets;
        match position(&self.attr_sets, &def) {
            Some(index) => {
                proof {
                    assert(table[index as int] == def@);
                }
                AttrSet { index }
            },
            None => {
                let index = self.attr_sets.len();
                proof {
                    assert(!table.contains(def@));
                    assert(self.attr_sets@.push(def).map_values(|def: AttrSetDef| def@)
                        == table.push(def@));
                }
                self.attr_sets.push(def);
                AttrSet { index }
            },
        }
    }

    /// The handle of the string `s`: that of the same string interned before,
    /// or else a new one.
    pub fn intern_str(&mut self, s: &str) -> (interned_str: InternedStr)
        requires
            old(self).wf(),
        ensures
            final(self).wf(),
            (final(self)@.strings, interned_str@) == interned(old(self)@.strings, s@),
            final(self)@.types == old(self)@.types,
            final(self)@.consts == old(self)@.consts,
            final(self)@.attr_sets == old(self)@.attr_sets,
    {
        let ghost table = self@.strings;
        let owned = s.to_owned();
        match position_str(&self.strings, &owned) {
            Some(index) => {
                proof {
                    assert(table[index as int] == s@);
                }
                InternedStr { index }
            },
            None => {
                let index = self.strings.len();
                proof {
                    assert(!table.contains(s@));
                    assert(self.strings@.push(owned).map_values(|s: String| s@) == table.push(s@));
                }
                self.strings.push(owned);
                InternedStr { index }
            },
        }
    }

    /// The type that `ty` stands for.
    pub fn type_def(&self, ty: Type) -> (def: &TypeDef)
        requires
            self.has_type(ty),
        ensures
            def@ == self@.types[ty@],
    {
        &self.types[ty.index]
    }

    /// The constant that `ct` stands for.
    pub fn const_def(&self, ct: Const) -> (def: &ConstDef)
        requires
            self.has_const(ct),
        ensures
            def@ == self@.consts[ct@],
    {
        &self.consts[ct.index]
    }

    /// The attribute set that `attrs` stands for.
    pub fn attr_set_def(&self, attrs: AttrSet) -> (def: &AttrSetDef)
        requires
            self.has_attr_set(attrs),
        ensures
            def@ == self@.attr_sets[attrs@],
    {
        &self.attr_sets[attrs.index]
    }

    /// The string that `s` stands for.
    pub fn str(&self, s: InternedStr) -> (string: &str)
        requires
            self.has_str(s),
        ensures
            string@ == self@.strings[s@],
    {
        self.strings[s.index].as_str()
    }
}

} // verus!
