//! The order in which lists are kept: that of a dictionary, by the keys of
//! their items.

use vstd::prelude::*;
use crate::spv::{Id, Imm};

verus! {

/// Whether `a` comes before `b` as words come in a dictionary: at the first
/// place where they differ `a` has the smaller number, or `a` ends there and
/// `b` goes on.
pub open spec fn lex_lt(a: Seq<int>, b: Seq<int>) -> bool
    decreases a.len(),
{
    if b.len() == 0 {
        false
    } else if a.len() == 0 {
        true
    } else if a.first() != b.first() {
        a.first() < b.first()
    } else {
        lex_lt(a.drop_first(), b.drop_first())
    }
}

/// Nothing comes before itself.
pub proof fn lemma_lex_lt_irreflexive(a: Seq<int>)
    ensures
        !lex_lt(a, a),
    decreases a.len(),
{
    if a.len() > 0 {
        lemma_lex_lt_irreflexive(a.drop_first());
    }
}

/// Of two different sequences, one comes before the other.
pub proof fn lemma_lex_lt_total(a: Seq<int>, b: Seq<int>)
    ensures
        a != b ==> lex_lt(a, b) || lex_lt(b, a),
    decreases a.len(),
{
    if a.len() > 0 && b.len() > 0 && a.first() == b.first() {
        lemma_lex_lt_total(a.drop_first(), b.drop_first());
        if a.drop_first() == b.drop_first() {
            assert(a =~= seq![a.first()] + a.drop_first());
            assert(b =~= seq![b.first()] + b.drop_first());
        }
    } else if a.len() == 0 && b.len() == 0 {
        assert(a =~= b);
    }
}

/// What comes before something that comes before a third comes before the
/// third.
pub proof fn lemma_lex_lt_transitive(a: Seq<int>, b: Seq<int>, c: Seq<int>)
    requires
        lex_lt(a, b),
        lex_lt(b, c),
    ensures
        lex_lt(a, c),
    decreases a.len(),
{
    if a.len() > 0 && a.first() == b.first() && b.first() == c.first() {
        lemma_lex_lt_transitive(a.drop_first(), b.drop_first(), c.drop_first());
    }
}

/// The key of an immediate: immediates are ordered by variant, then by
/// operand kind, then by word, and so are their keys as numbers.
pub open spec fn imm_key(imm: Imm) -> int {
    match imm {
        Imm::Short(kind, word) => kind.0 * 0x1_0000_0000 + word,
        Imm::LongStart(kind, word) => (0x1_0000 + kind.0) * 0x1_0000_0000 + word,
        Imm::LongCont(kind, word) => (0x2_0000 + kind.0) * 0x1_0000_0000 + word,
    }
}

/// The key of an identifier: its value.
pub open spec fn id_key(id: Id) -> int {
    id@ as int
}

/// The keys of a list of immediates.
pub open spec fn imm_keys(imms: Seq<Imm>) -> Seq<int> {
    imms.map_values(|imm: Imm| imm_key(imm))
}

/// The keys of a list of identifiers.
pub open spec fn id_keys(ids: Seq<Id>) -> Seq<int> {
    ids.map_values(|id: Id| id_key(id))
}

/// Different immediates have different keys.
pub proof fn lemma_imm_key_injective(a: Imm, b: Imm)
    ensures
        imm_key(a) == imm_key(b) <==> a == b,
{
}

/// Different lists of immediates have different keys.
pub proof fn lemma_imm_keys_injective(a: Seq<Imm>, b: Seq<Imm>)
    ensures
        imm_keys(a) == imm_keys(b) <==> a == b,
{
    if imm_keys(a) == imm_keys(b) {
        assert(a.len() == imm_keys(a).len());
        assert(b.len() == imm_keys(b).len());
        assert forall|i: int| 0 <= i < a.len() implies a[i] == b[i] by {
            assert(imm_keys(a)[i] == imm_keys(b)[i]);
            lemma_imm_key_injective(a[i], b[i]);
        }
        assert(a =~= b);
    }
}

/// Different lists of identifiers have different keys.
pub proof fn lemma_id_keys_injective(a: Seq<Id>, b: Seq<Id>)
    ensures
        id_keys(a) == id_keys(b) <==> a == b,
{
    if id_keys(a) == id_keys(b) {
        assert(a.len() == id_keys(a).len());
        assert(b.len() == id_keys(b).len());
        assert forall|i: int| 0 <= i < a.len() implies a[i] == b[i] by {
            assert(id_keys(a)[i] == id_keys(b)[i]);
            Id::lemma_view_injective(a[i], b[i]);
        }
        assert(a =~= b);
    }
}

/// The key of an immediate, see [`imm_key`].
fn key_of_imm(imm: &Imm) -> (key: u64)
    ensures
        key == imm_key(*imm),
{
    match *imm {
        Imm::Short(kind, word) => kind.0 as u64 * 0x1_0000_0000 + word as u64,
        Imm::LongStart(kind, word) => (0x1_0000 + kind.0 as u64) * 0x1_0000_0000 + word as u64,
        Imm::LongCont(kind, word) => (0x2_0000 + kind.0 as u64) * 0x1_0000_0000 + word as u64,
    }
}

/// Whether the list `a` comes before the list `b`, each item taken by the
/// key that `key` computes and `spec_key` states.
fn slice_lt<T, F: Fn(&T) -> u64>(a: &[T], b: &[T], key: F, Ghost(spec_key): Ghost<
    spec_fn(T) -> int,
>) -> (lt: bool)
    requires
        forall|x: &T| call_requires(key, (x,)),
        forall|x: &T, k: u64| call_ensures(key, (x,), k) ==> k == spec_key(*x),
    ensures
        lt == lex_lt(a@.map_values(spec_key), b@.map_values(spec_key)),
{
    let ghost a_keys = a@.map_values(spec_key);
    let ghost b_keys = b@.map_values(spec_key);
    proof {
        assert(a_keys.skip(0) == a_keys);
        assert(b_keys.skip(0) == b_keys);
    }
    let mut i: usize = 0;
    while i < a.len() && i < b.len()
        invariant
            i <= a.len(),
            i <= b.len(),
            a_keys == a@.map_values(spec_key),
            b_keys == b@.map_values(spec_key),
            forall|x: &T| call_requires(key, (x,)),
            forall|x: &T, k: u64| call_ensures(key, (x,), k) ==> k == spec_key(*x),
            lex_lt(a_keys, b_keys) == lex_lt(a_keys.skip(i as int), b_keys.skip(i as int)),
        decreases a.len() - i,
    {
        let ka = key(&a[i]);
        let kb = key(&b[i]);
        proof {
            assert(a_keys.skip(i as int).first() == ka);
            assert(b_keys.skip(i as int).first() == kb);
            assert(a_keys.skip(i as int).drop_first() == a_keys.skip(i + 1));
            assert(b_keys.skip(i as int).drop_first() == b_keys.skip(i + 1));
        }
        if ka != kb {
            return ka < kb;
        }
        i += 1;
    }
    i < b.len()
}

/// Whether the immediates `a` come before the immediates `b`.
pub fn imms_lt(a: &[Imm], b: &[Imm]) -> (lt: bool)
    ensures
        lt == lex_lt(imm_keys(a@), imm_keys(b@)),
{
    let key = |imm: &Imm| -> (k: u64)
        ensures
            k == imm_key(*imm),
        { key_of_imm(imm) };
    slice_lt(a, b, key, Ghost(|imm: Imm| imm_key(imm)))
}

/// Whether the identifiers `a` come before the identifiers `b`.
pub fn ids_lt(a: &[Id], b: &[Id]) -> (lt: bool)
    ensures
        lt == lex_lt(id_keys(a@), id_keys(b@)),
{
    let key = |id: &Id| -> (k: u64)
        ensures
            k == id_key(*id),
        { id.get() as u64 };
    slice_lt(a, b, key, Ghost(|id: Id| id_key(id)))
}

} // verus!
