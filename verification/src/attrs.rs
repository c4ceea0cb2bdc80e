//! Attributes, and the sets of them that entities carry.

use vstd::prelude::*;
use vstd::std_specs::cmp::PartialEqSpecImpl;
use core::cmp::Ordering;
use crate::context::{interned, lemma_interned_idempotent, InternedStr};
use crate::order::{
    id_keys, ids_lt, imm_keys, imms_lt, lemma_id_keys_injective, lemma_imm_keys_injective,
    lemma_lex_lt_irreflexive, lemma_lex_lt_total, lemma_lex_lt_transitive, lex_lt,
};
use crate::small::{IdList, ImmList};
use crate::spv::spec::Opcode;
use crate::spv::{Id, Imm};

verus! {

/// A value that is only ever compared with its equals.
///
/// The wrapper is for interned handles inside values that are kept in order:
/// a handle's number says nothing of what it stands for, so two different
/// handles have no order, and asking for one is an error in the caller.
#[derive(Copy, Clone, PartialEq, Eq, Structural, Debug, Hash)]
pub struct OrdAssertEq<T>(pub T);

impl<T> OrdAssertEq<T> {
    /// The order of two values, which are equal: a caller that cannot show
    /// them equal has no order to ask for. The answer is never `Less` or
    /// `Greater`.
    pub fn cmp(&self, other: &OrdAssertEq<T>) -> (order: Ordering)
        requires
            self.0 == other.0,
        ensures
            order == Ordering::Equal,
    {
        Ordering::Equal
    }

    /// The order of two values, which are equal, as [`OrdAssertEq::cmp`]
    /// gives it.
    pub fn partial_cmp(&self, other: &OrdAssertEq<T>) -> (order: Option<Ordering>)
        requires
            self.0 == other.0,
        ensures
            order == Some(Ordering::Equal),
    {
        Some(self.cmp(other))
    }
}

/// One attribute of an entity.
#[derive(Debug, Eq, Hash)]
pub enum Attr {
    /// The entity is an entry point, with these parameters and this interface.
    SpvEntryPoint { params: ImmList, interface_ids: IdList },
    /// An annotation: a decoration or an execution mode, by its instruction.
    SpvAnnotation { opcode: Opcode, params: ImmList },
    /// Where in the source the entity comes from.
    SpvDebugLine { file_path: OrdAssertEq<InternedStr>, line: u32, col: u32 },
}

/// An [`Attr`] as a mathematical value.
pub enum AttrView {
    SpvEntryPoint { params: Seq<Imm>, interface_ids: Seq<Id> },
    SpvAnnotation { opcode: Opcode, params: Seq<Imm> },
    SpvDebugLine { file_path: InternedStr, line: u32, col: u32 },
}

impl View for Attr {
    type V = AttrView;

    open spec fn view(&self) -> AttrView {
        match *self {
            Attr::SpvEntryPoint { params, interface_ids } => AttrView::SpvEntryPoint {
                params: params@,
                interface_ids: interface_ids@,
            },
            Attr::SpvAnnotation { opcode, params } => AttrView::SpvAnnotation {
                opcode,
                params: params@,
            },
            Attr::SpvDebugLine { file_path, line, col } => AttrView::SpvDebugLine {
                file_path: file_path.0,
                line,
                col,
            },
        }
    }
}

impl PartialEq for Attr {
    fn eq(&self, other: &Attr) -> (equal: bool) {
        match (self, other) {
            (
                Attr::SpvEntryPoint { params: p1, interface_ids: i1 },
                Attr::SpvEntryPoint { params: p2, interface_ids: i2 },
            ) => *p1 == *p2 && *i1 == *i2,
            (
                Attr::SpvAnnotation { opcode: o1, params: p1 },
                Attr::SpvAnnotation { opcode: o2, params: p2 },
            ) => *o1 == *o2 && *p1 == *p2,
            (
                Attr::SpvDebugLine { file_path: f1, line: l1, col: c1 },
                Attr::SpvDebugLine { file_path: f2, line: l2, col: c2 },
            ) => f1.0 == f2.0 && *l1 == *l2 && *c1 == *c2,
            _ => false,
        }
    }
}

impl PartialEqSpecImpl for Attr {
    open spec fn obeys_eq_spec() -> bool {
        true
    }

    open spec fn eq_spec(&self, other: &Attr) -> bool {
        self@ == other@
    }
}

/// Whether two attributes have an order: all do, but two source locations
/// in different files.
pub open spec fn attr_comparable(a: AttrView, b: AttrView) -> bool {
    match (a, b) {
        (
            AttrView::SpvDebugLine { file_path: file_a, .. },
            AttrView::SpvDebugLine { file_path: file_b, .. },
        ) => file_a == file_b,
        _ => true,
    }
}

/// Whether `a` comes before `b` in the order in which sets keep their
/// attributes: entry points first, then annotations, then source locations;
/// within each kind by the fields in turn, lists as in a dictionary. The
/// file of a source location plays no part.
pub open spec fn attr_lt(a: AttrView, b: AttrView) -> bool {
    match (a, b) {
        (
            AttrView::SpvEntryPoint { params: params_a, interface_ids: ids_a },
            AttrView::SpvEntryPoint { params: params_b, interface_ids: ids_b },
        ) => lex_lt(imm_keys(params_a), imm_keys(params_b)) || (params_a == params_b && lex_lt(
            id_keys(ids_a),
            id_keys(ids_b),
        )),
        (AttrView::SpvEntryPoint { .. }, _) => true,
        (AttrView::SpvAnnotation { .. }, AttrView::SpvEntryPoint { .. }) => false,
        (
            AttrView::SpvAnnotation { opcode: opcode_a, params: params_a },
            AttrView::SpvAnnotation { opcode: opcode_b, params: params_b },
        ) => opcode_a.0 < opcode_b.0 || (opcode_a == opcode_b && lex_lt(
            imm_keys(params_a),
            imm_keys(params_b),
        )),
        (AttrView::SpvAnnotation { .. }, AttrView::SpvDebugLine { .. }) => true,
        (
            AttrView::SpvDebugLine { line: line_a, col: col_a, .. },
            AttrView::SpvDebugLine { line: line_b, col: col_b, .. },
        ) => line_a < line_b || (line_a == line_b && col_a < col_b),
        (AttrView::SpvDebugLine { .. }, _) => false,
    }
}

/// No attribute comes before itself.
pub proof fn lemma_attr_lt_irreflexive(a: AttrView)
    ensures
        !attr_lt(a, a),
{
    match a {
        AttrView::SpvEntryPoint { params, interface_ids } => {
            lemma_lex_lt_irreflexive(imm_keys(params));
            lemma_lex_lt_irreflexive(id_keys(interface_ids));
        },
        AttrView::SpvAnnotation { opcode, params } => {
            lemma_lex_lt_irreflexive(imm_keys(params));
        },
        AttrView::SpvDebugLine { .. } => {},
    }
}

/// An attribute that comes before one that comes before a third comes
/// before the third.
pub proof fn lemma_attr_lt_transitive(a: AttrView, b: AttrView, c: AttrView)
    requires
        attr_lt(a, b),
        attr_lt(b, c),
    ensures
        attr_lt(a, c),
{
    match (a, b, c) {
        (
            AttrView::SpvEntryPoint { params: pa, interface_ids: ia },
            AttrView::SpvEntryPoint { params: pb, interface_ids: ib },
            AttrView::SpvEntryPoint { params: pc, interface_ids: ic },
        ) => {
            lemma_lex_lt_irreflexive(imm_keys(pa));
            if lex_lt(imm_keys(pa), imm_keys(pb)) && lex_lt(imm_keys(pb), imm_keys(pc)) {
                lemma_lex_lt_transitive(imm_keys(pa), imm_keys(pb), imm_keys(pc));
            } else if pa == pb && pb == pc {
                lemma_lex_lt_transitive(id_keys(ia), id_keys(ib), id_keys(ic));
            }
        },
        (
            AttrView::SpvAnnotation { opcode: oa, params: pa },
            AttrView::SpvAnnotation { opcode: ob, params: pb },
            AttrView::SpvAnnotation { opcode: oc, params: pc },
        ) => {
            if oa == ob && ob == oc {
                lemma_lex_lt_transitive(imm_keys(pa), imm_keys(pb), imm_keys(pc));
            }
        },
        _ => {},
    }
}

/// Of two different attributes that have an order, one comes before the
/// other.
pub proof fn lemma_attr_lt_total(a: AttrView, b: AttrView)
    requires
        attr_comparable(a, b),
        a != b,
    ensures
        attr_lt(a, b) || attr_lt(b, a),
{
    match (a, b) {
        (
            AttrView::SpvEntryPoint { params: pa, interface_ids: ia },
            AttrView::SpvEntryPoint { params: pb, interface_ids: ib },
        ) => {
            lemma_imm_keys_injective(pa, pb);
            lemma_id_keys_injective(ia, ib);
            lemma_lex_lt_total(imm_keys(pa), imm_keys(pb));
            lemma_lex_lt_total(id_keys(ia), id_keys(ib));
        },
        (
            AttrView::SpvAnnotation { opcode: oa, params: pa },
            AttrView::SpvAnnotation { opcode: ob, params: pb },
        ) => {
            lemma_imm_keys_injective(pa, pb);
            lemma_lex_lt_total(imm_keys(pa), imm_keys(pb));
        },
        _ => {},
    }
}

impl Attr {
    /// Whether the two attributes have an order, see [`attr_comparable`].
    pub fn comparable(&self, other: &Attr) -> (comparable: bool)
        ensures
            comparable == attr_comparable(self@, other@),
    {
        match (self, other) {
            (
                Attr::SpvDebugLine { file_path: file_a, line: _, col: _ },
                Attr::SpvDebugLine { file_path: file_b, line: _, col: _ },
            ) => file_a.0 == file_b.0,
            _ => true,
        }
    }

    /// Whether this attribute comes before `other`, see [`attr_lt`].
    ///
    /// Two source locations are compared by their files first, which have to
    /// be the same file.
    pub fn lt(&self, other: &Attr) -> (lt: bool)
        requires
            attr_comparable(self@, other@),
        ensures
            lt == attr_lt(self@, other@),
    {
        match (self, other) {
            (
                Attr::SpvEntryPoint { params: params_a, interface_ids: ids_a },
                Attr::SpvEntryPoint { params: params_b, interface_ids: ids_b },
            ) => {
                if imms_lt(params_a.as_slice(), params_b.as_slice()) {
                    true
                } else if *params_a == *params_b {
                    ids_lt(ids_a.as_slice(), ids_b.as_slice())
                } else {
                    false
                }
            },
            (Attr::SpvEntryPoint { .. }, _) => true,
            (Attr::SpvAnnotation { .. }, Attr::SpvEntryPoint { .. }) => false,
            (
                Attr::SpvAnnotation { opcode: opcode_a, params: params_a },
                Attr::SpvAnnotation { opcode: opcode_b, params: params_b },
            ) => {
                if opcode_a.0 != opcode_b.0 {
                    opcode_a.0 < opcode_b.0
                } else {
                    imms_lt(params_a.as_slice(), params_b.as_slice())
                }
            },
            (Attr::SpvAnnotation { .. }, Attr::SpvDebugLine { .. }) => true,
            (
                Attr::SpvDebugLine { file_path: file_a, line: line_a, col: col_a },
                Attr::SpvDebugLine { file_path: file_b, line: line_b, col: col_b },
            ) => {
                match file_a.cmp(file_b) {
                    Ordering::Less => true,
                    Ordering::Greater => false,
                    Ordering::Equal => *line_a < *line_b || (*line_a == *line_b && *col_a < *col_b),
                }
            },
            (Attr::SpvDebugLine { .. }, _) => false,
        }
    }
}

/// Whether `attrs` is in ascending order, without repeats.
pub open spec fn ascending(attrs: Seq<AttrView>) -> bool {
    forall|i: int, j: int| 0 <= i < j < attrs.len() ==> attr_lt(attrs[i], attrs[j])
}

/// Whether every attribute of `attrs` has an order with `attr`.
pub open spec fn all_comparable(attrs: Seq<AttrView>, attr: AttrView) -> bool {
    forall|i: int| 0 <= i < attrs.len() ==> attr_comparable(#[trigger] attrs[i], attr)
}

/// Where `attr` belongs in `attrs`: the place of the first attribute that
/// does not come before it, or the end where all do.
pub open spec fn place_of(attrs: Seq<AttrView>, attr: AttrView) -> int
    decreases attrs.len(),
{
    if attrs.len() == 0 || !attr_lt(attrs.first(), attr) {
        0
    } else {
        1 + place_of(attrs.drop_first(), attr)
    }
}

/// The attributes of a set once `attr` was added to it: as they were where
/// the set has `attr`, and else with `attr` in its place.
pub open spec fn inserted(attrs: Seq<AttrView>, attr: AttrView) -> Seq<AttrView> {
    if attrs.contains(attr) {
        attrs
    } else {
        attrs.insert(place_of(attrs, attr), attr)
    }
}

/// Every attribute before the place of `attr` comes before `attr`, and the
/// one at that place does not.
pub proof fn lemma_place_of(attrs: Seq<AttrView>, attr: AttrView)
    ensures
        0 <= place_of(attrs, attr) <= attrs.len(),
        forall|j: int| 0 <= j < place_of(attrs, attr) ==> attr_lt(#[trigger] attrs[j], attr),
        place_of(attrs, attr) < attrs.len() ==> !attr_lt(attrs[place_of(attrs, attr)], attr),
    decreases attrs.len(),
{
    if attrs.len() > 0 && attr_lt(attrs.first(), attr) {
        let rest = attrs.drop_first();
        lemma_place_of(rest, attr);
        assert forall|j: int| 0 <= j < place_of(attrs, attr) implies attr_lt(
            #[trigger] attrs[j],
            attr,
        ) by {
            if j > 0 {
                assert(attrs[j] == rest[j - 1]);
            }
        }
        if place_of(attrs, attr) < attrs.len() {
            assert(attrs[place_of(attrs, attr)] == rest[place_of(rest, attr)]);
        }
    }
}

/// The place of `attr` is the one place `i` such that every attribute before
/// it comes before `attr` and the one at it does not.
pub proof fn lemma_place_of_is(attrs: Seq<AttrView>, attr: AttrView, i: int)
    requires
        0 <= i <= attrs.len(),
        forall|j: int| 0 <= j < i ==> attr_lt(#[trigger] attrs[j], attr),
        i < attrs.len() ==> !attr_lt(attrs[i], attr),
    ensures
        place_of(attrs, attr) == i,
{
    lemma_place_of(attrs, attr);
    let k = place_of(attrs, attr);
    if k < i {
        assert(attr_lt(attrs[k], attr));
    } else if i < k {
        assert(attr_lt(attrs[i], attr));
    }
}

/// Adding an attribute to an ascending sequence leaves it ascending, leaves
/// any two of its attributes with an order, and makes it hold the attribute
/// besides what it held.
pub proof fn lemma_inserted(attrs: Seq<AttrView>, attr: AttrView)
    requires
        ascending(attrs),
        all_comparable(attrs, attr),
    ensures
        ascending(inserted(attrs, attr)),
        inserted(attrs, attr).to_set() == attrs.to_set().insert(attr),
        forall|other: AttrView|
            all_comparable(attrs, other) && attr_comparable(attr, other) ==> all_comparable(
                inserted(attrs, attr),
                other,
            ),
{
    let after = inserted(attrs, attr);
    if attrs.contains(attr) {
        assert(attrs.to_set().insert(attr) =~= attrs.to_set());
    } else {
        let i = place_of(attrs, attr);
        lemma_place_of(attrs, attr);
        assert forall|j: int| i <= j < attrs.len() implies attr_lt(attr, #[trigger] attrs[j]) by {
            assert(attr_comparable(attrs[i], attr));
            assert(attrs[i] != attr);
            lemma_attr_lt_total(attrs[i], attr);
            if j > i {
                assert(attr_lt(attrs[i], attrs[j]));
                lemma_attr_lt_transitive(attr, attrs[i], attrs[j]);
            }
        }
        assert forall|a: int, b: int| 0 <= a < b < after.len() implies attr_lt(
            after[a],
            after[b],
        ) by {
            let a0 = if a < i { a } else { a - 1 };
            let b0 = if b < i { b } else { b - 1 };
            if a != i && b != i {
                assert(attr_lt(attrs[a0], attrs[b0]));
            } else if a == i {
                assert(attr_lt(attr, attrs[b0]));
            } else {
                assert(attr_lt(attrs[a0], attr));
            }
        }
        assert forall|x: AttrView| after.to_set().contains(x) <==> attrs.to_set().insert(
            attr,
        ).contains(x) by {
            if after.to_set().contains(x) {
                let a = choose|a: int| 0 <= a < after.len() && after[a] == x;
                if a != i {
                    let a0 = if a < i { a } else { a - 1 };
                    assert(attrs[a0] == x);
                }
            }
            if attrs.to_set().contains(x) {
                let a0 = choose|a0: int| 0 <= a0 < attrs.len() && attrs[a0] == x;
                let a = if a0 < i { a0 } else { a0 + 1 };
                assert(after[a] == x);
            }
            if x == attr {
                assert(after[i] == x);
            }
        }
        assert(after.to_set() =~= attrs.to_set().insert(attr));
        assert forall|other: AttrView|
            all_comparable(attrs, other) && attr_comparable(attr, other) implies all_comparable(
            after,
            other,
        ) by {
            assert forall|b: int| 0 <= b < after.len() implies attr_comparable(
                #[trigger] after[b],
                other,
            ) by {
                let b0 = if b < i { b } else { b - 1 };
                if b != i {
                    assert(attr_comparable(attrs[b0], other));
                }
            }
        }
    }
}

/// It makes no difference in which order two attributes are added to a set.
pub proof fn lemma_insertion_order(attrs: Seq<AttrView>, a: AttrView, b: AttrView)
    requires
        ascending(attrs),
        all_comparable(attrs, a),
        all_comparable(attrs, b),
        attr_comparable(a, b),
    ensures
        inserted(inserted(attrs, a), b) == inserted(inserted(attrs, b), a),
{
    lemma_inserted(attrs, a);
    lemma_inserted(attrs, b);
    assert(attr_comparable(b, a));
    lemma_inserted(inserted(attrs, a), b);
    lemma_inserted(inserted(attrs, b), a);
    assert(attrs.to_set().insert(a).insert(b) =~= attrs.to_set().insert(b).insert(a));
    lemma_ascending_canonical(inserted(inserted(attrs, a), b), inserted(inserted(attrs, b), a));
}

/// Two ascending sequences of the same attributes are the same sequence: the
/// order in which a set keeps its attributes leaves no trace of how the set
/// came to hold them.
pub proof fn lemma_ascending_canonical(a: Seq<AttrView>, b: Seq<AttrView>)
    requires
        ascending(a),
        ascending(b),
        a.to_set() == b.to_set(),
    ensures
        a == b,
    decreases a.len(),
{
    if a.len() == 0 {
        if b.len() > 0 {
            assert(b.to_set().contains(b[0]));
            assert(a.to_set().contains(b[0]));
        }
        assert(a =~= b);
    } else if b.len() == 0 {
        assert(a.to_set().contains(a[0]));
        assert(b.to_set().contains(a[0]));
    } else {
        assert(a.to_set().contains(a[0]));
        assert(b.to_set().contains(a[0]));
        let k = choose|k: int| 0 <= k < b.len() && b[k] == a[0];
        assert(b.to_set().contains(b[0]));
        assert(a.to_set().contains(b[0]));
        let m = choose|m: int| 0 <= m < a.len() && a[m] == b[0];
        if k > 0 {
            assert(attr_lt(b[0], b[k]));
            if m > 0 {
                assert(attr_lt(a[0], a[m]));
                lemma_attr_lt_transitive(a[0], b[0], a[0]);
            }
            lemma_attr_lt_irreflexive(a[0]);
        }
        assert(a[0] == b[0]);
        let a_rest = a.drop_first();
        let b_rest = b.drop_first();
        assert forall|x: AttrView| a_rest.to_set().contains(x) <==> b_rest.to_set().contains(
            x,
        ) by {
            lemma_attr_lt_irreflexive(a[0]);
            if a_rest.to_set().contains(x) {
                let i = choose|i: int| 0 <= i < a_rest.len() && a_rest[i] == x;
                assert(a[i + 1] == x);
                assert(attr_lt(a[0], a[i + 1]));
                assert(a.to_set().contains(x));
                assert(b.to_set().contains(x));
                let j = choose|j: int| 0 <= j < b.len() && b[j] == x;
                assert(j > 0);
                assert(b_rest[j - 1] == x);
            }
            if b_rest.to_set().contains(x) {
                let i = choose|i: int| 0 <= i < b_rest.len() && b_rest[i] == x;
                assert(b[i + 1] == x);
                assert(attr_lt(b[0], b[i + 1]));
                assert(b.to_set().contains(x));
                assert(a.to_set().contains(x));
                let j = choose|j: int| 0 <= j < a.len() && a[j] == x;
                assert(j > 0);
                assert(a_rest[j - 1] == x);
            }
        }
        assert(a_rest.to_set() =~= b_rest.to_set());
        assert forall|i: int, j: int| 0 <= i < j < a_rest.len() implies attr_lt(
            a_rest[i],
            a_rest[j],
        ) by {
            assert(attr_lt(a[i + 1], a[j + 1]));
        }
        assert forall|i: int, j: int| 0 <= i < j < b_rest.len() implies attr_lt(
            b_rest[i],
            b_rest[j],
        ) by {
            assert(attr_lt(b[i + 1], b[j + 1]));
        }
        lemma_ascending_canonical(a_rest, b_rest);
        assert(a =~= seq![a[0]] + a_rest);
        assert(b =~= seq![b[0]] + b_rest);
    }
}

/// Two sets of the same attributes get the same handle, whatever the order
/// in which each was filled: interning the second after the first gives the
/// first's handle.
pub proof fn lemma_same_attrs_same_handle(
    table: Seq<Seq<AttrView>>,
    a: Seq<AttrView>,
    b: Seq<AttrView>,
)
    requires
        table.no_duplicates(),
        ascending(a),
        ascending(b),
        a.to_set() == b.to_set(),
    ensures
        interned(interned(table, a).0, b).1 == interned(table, a).1,
{
    lemma_ascending_canonical(a, b);
    lemma_interned_idempotent(table, a);
}

/// A set of attributes.
///
/// The set keeps its attributes in ascending order and without repeats, so
/// that two sets of the same attributes are the same value however they were
/// filled. The order is for storage only: it says nothing of the order in
/// which the attributes were added.
#[derive(Debug, Eq, Hash)]
pub struct AttrSetDef {
    attrs: Vec<Attr>,
}

impl View for AttrSetDef {
    type V = Seq<AttrView>;

    /// The attributes of the set, in the order in which it keeps them.
    closed spec fn view(&self) -> Seq<AttrView> {
        self.attrs@.map_values(|attr: Attr| attr@)
    }
}

impl PartialEq for AttrSetDef {
    fn eq(&self, other: &AttrSetDef) -> (equal: bool) {
        let a = self.as_slice();
        let b = other.as_slice();
        if a.len() != b.len() {
            return false;
        }
        let mut i: usize = 0;
        while i < a.len()
            invariant
                a.len() == b.len(),
                i <= a.len(),
                a@.map_values(|attr: Attr| attr@) == self@,
                b@.map_values(|attr: Attr| attr@) == other@,
                self@.take(i as int) == other@.take(i as int),
            decreases a.len() - i,
        {
            if a[i] != b[i] {
                assert(self@[i as int] != other@[i as int]);
                return false;
            }
            proof {
                assert(self@.take(i + 1) == self@.take(i as int).push(self@[i as int]));
                assert(other@.take(i + 1) == other@.take(i as int).push(other@[i as int]));
            }
            i += 1;
        }
        proof {
            assert(self@.take(a.len() as int) == self@);
            assert(other@.take(b.len() as int) == other@);
        }
        true
    }
}

impl PartialEqSpecImpl for AttrSetDef {
    open spec fn obeys_eq_spec() -> bool {
        true
    }

    open spec fn eq_spec(&self, other: &AttrSetDef) -> bool {
        self@ == other@
    }
}

impl Default for AttrSetDef {
    /// The empty set.
    fn default() -> (set: AttrSetDef)
        ensures
            set.wf(),
            set@ == Seq::<AttrView>::empty(),
    {
        AttrSetDef::new()
    }
}

impl AttrSetDef {
    /// The invariant of a set: its attributes are in ascending order, without
    /// repeats, and any two of them have an order.
    pub open spec fn wf(&self) -> bool {
        &&& ascending(self@)
        &&& forall|i: int|
            0 <= i < self@.len() ==> all_comparable(self@, #[trigger] self@[i])
    }

    /// Whether `attr` can be added: it has an order with every attribute of
    /// the set.
    pub open spec fn accepts_spec(&self, attr: AttrView) -> bool {
        all_comparable(self@, attr)
    }

    /// The empty set.
    pub fn new() -> (set: AttrSetDef)
        ensures
            set.wf(),
            set@ == Seq::<AttrView>::empty(),
    {
        let set = AttrSetDef { attrs: Vec::new() };
        proof {
            assert(set@ =~= Seq::<AttrView>::empty());
        }
        set
    }

    /// The number of attributes in the set.
    pub fn len(&self) -> (len: usize)
        ensures
            len == self@.len(),
    {
        self.attrs.len()
    }

    /// The attributes of the set, in ascending order.
    pub fn as_slice(&self) -> (attrs: &[Attr])
        ensures
            attrs@.map_values(|attr: Attr| attr@) == self@,
    {
        self.attrs.as_slice()
    }

    /// Whether `attr` can be added, see [`AttrSetDef::accepts_spec`].
    pub fn accepts(&self, attr: &Attr) -> (accepts: bool)
        ensures
            accepts == self.accepts_spec(attr@),
    {
        let mut i: usize = 0;
        while i < self.attrs.len()
            invariant
                i <= self.attrs.len(),
                forall|j: int| 0 <= j < i ==> attr_comparable(#[trigger] self@[j], attr@),
            decreases self.attrs.len() - i,
        {
            if !self.attrs[i].comparable(attr) {
                assert(!attr_comparable(self@[i as int], attr@));
                return false;
            }
            i += 1;
        }
        true
    }

    /// Whether `attr` is in the set.
    pub fn contains(&self, attr: &Attr) -> (contains: bool)
        ensures
            contains == self@.contains(attr@),
    {
        let mut i: usize = 0;
        while i < self.attrs.len()
            invariant
                i <= self.attrs.len(),
                forall|j: int| 0 <= j < i ==> self@[j] != attr@,
            decreases self.attrs.len() - i,
        {
            if self.attrs[i] == *attr {
                assert(self@[i as int] == attr@);
                return true;
            }
            i += 1;
        }
        false
    }

    /// Adds `attr` to the set, unless the set has it, and says whether it
    /// was added.
    ///
    /// The attribute has to be one that the set [accepts](AttrSetDef::accepts):
    /// a set holds source locations of one file only.
    pub fn insert(&mut self, attr: Attr) -> (added: bool)
        requires
            old(self).wf(),
            old(self).accepts_spec(attr@),
        ensures
            final(self).wf(),
            final(self)@ == inserted(old(self)@, attr@),
            final(self)@.to_set() == old(self)@.to_set().insert(attr@),
            added == !old(self)@.contains(attr@),
    {
        let ghost before = self@;
        let ghost new = attr@;
        let mut i: usize = 0;
        let mut found = false;
        while !found && i < self.attrs.len()
            invariant
                i <= self.attrs.len(),
                *self == *old(self),
                before == self@,
                new == attr@,
                all_comparable(before, new),
                forall|j: int| 0 <= j < i ==> attr_lt(#[trigger] before[j], new),
                found ==> i < self.attrs.len() && !attr_lt(before[i as int], new),
            decreases self.attrs.len() - i + (if found { 0int } else { 1int }),
        {
            assert(attr_comparable(before[i as int], new));
            if self.attrs[i].lt(&attr) {
                i += 1;
            } else {
                found = true;
            }
        }
        proof {
            lemma_place_of_is(before, new, i as int);
            lemma_inserted(before, new);
            assert forall|a: int| 0 <= a < inserted(before, new).len() implies all_comparable(
                inserted(before, new),
                #[trigger] inserted(before, new)[a],
            ) by {
                let other = inserted(before, new)[a];
                assert(inserted(before, new).to_set().contains(other));
                if other != new {
                    assert(before.to_set().contains(other));
                    let k = choose|k: int| 0 <= k < before.len() && before[k] == other;
                    assert(all_comparable(before, before[k]));
                    assert(attr_comparable(before[k], new));
                }
            }
        }
        if i < self.attrs.len() && self.attrs[i] == attr {
            proof {
                assert(before[i as int] == new);
            }
            return false;
        }
        proof {
            assert forall|j: int| 0 <= j < before.len() implies before[j] != new by {
                lemma_attr_lt_irreflexive(new);
                if j > i {
                    assert(attr_lt(before[i as int], before[j]));
                    if before[j] == new {
                        lemma_attr_lt_total(before[i as int], new);
                    }
                }
            }
            assert(!before.contains(new));
            assert(self.attrs@.insert(i as int, attr).map_values(|attr: Attr| attr@)
                =~= before.insert(i as int, new));
        }
        self.attrs.insert(i, attr);
        true
    }
}

} // verus!
