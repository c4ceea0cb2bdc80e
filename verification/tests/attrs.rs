use spirt::order::{ids_lt, imms_lt};
use spirt::small::{IdList, ImmList};
use spirt::spv::spec::{Opcode, OperandKind};
use spirt::spv::{Id, Imm};
use spirt::{Attr, AttrSetDef, Context, InternedStr, OrdAssertEq};
use std::cmp::Ordering;

fn short(value: u32) -> Imm {
    Imm::Short(OperandKind(0), value)
}

fn imms(values: &[u32]) -> ImmList {
    ImmList::from_vec(values.iter().map(|v| short(*v)).collect())
}

fn ids(values: &[u32]) -> IdList {
    IdList::from_vec(values.iter().map(|v| Id::new(*v).unwrap()).collect())
}

fn annotation(opcode: u16, params: &[u32]) -> Attr {
    Attr::SpvAnnotation { opcode: Opcode(opcode), params: imms(params) }
}

fn entry_point(params: &[u32], interface: &[u32]) -> Attr {
    Attr::SpvEntryPoint { params: imms(params), interface_ids: ids(interface) }
}

fn location(file: InternedStr, line: u32, col: u32) -> Attr {
    Attr::SpvDebugLine { file_path: OrdAssertEq(file), line, col }
}

#[test]
fn equal_values_compare_equal() {
    let mut cx = Context::new();
    let file = cx.intern_str("a.frag");
    let a = OrdAssertEq(file);
    let b = OrdAssertEq(cx.intern_str("a.frag"));
    assert_eq!(a.cmp(&b), Ordering::Equal);
    assert_eq!(a.partial_cmp(&b), Some(Ordering::Equal));
    assert_eq!(OrdAssertEq(7u32).cmp(&OrdAssertEq(7u32)), Ordering::Equal);
    assert_eq!(a, b);
}

#[test]
fn immediates_are_ordered_by_variant_kind_and_word() {
    let k0 = OperandKind(0);
    let k1 = OperandKind(1);
    assert!(imms_lt(&[Imm::Short(k0, 5)], &[Imm::Short(k0, 6)]));
    assert!(!imms_lt(&[Imm::Short(k0, 6)], &[Imm::Short(k0, 5)]));
    assert!(!imms_lt(&[Imm::Short(k0, 5)], &[Imm::Short(k0, 5)]));
    assert!(imms_lt(&[Imm::Short(k0, u32::MAX)], &[Imm::Short(k1, 0)]));
    assert!(imms_lt(&[Imm::Short(k1, u32::MAX)], &[Imm::LongStart(k0, 0)]));
    assert!(imms_lt(&[Imm::LongStart(OperandKind(u16::MAX), u32::MAX)], &[Imm::LongCont(k0, 0)]));
    assert!(!imms_lt(&[Imm::LongCont(k0, 0)], &[Imm::LongStart(k1, 9)]));
}

#[test]
fn lists_are_ordered_as_in_a_dictionary() {
    assert!(imms_lt(&[], &[short(0)]));
    assert!(!imms_lt(&[], &[]));
    assert!(!imms_lt(&[short(0)], &[]));
    assert!(imms_lt(&[short(1)], &[short(1), short(0)]));
    assert!(imms_lt(&[short(1), short(9)], &[short(2)]));
    assert!(!imms_lt(&[short(2)], &[short(1), short(9)]));
    assert!(imms_lt(&[short(1), short(2), short(3)], &[short(1), short(2), short(4)]));
    let id = |v| Id::new(v).unwrap();
    assert!(ids_lt(&[id(1), id(2)], &[id(1), id(3)]));
    assert!(ids_lt(&[id(1)], &[id(1), id(1)]));
    assert!(!ids_lt(&[id(4)], &[id(3), id(9)]));
    assert!(!ids_lt(&[id(4)], &[id(4)]));
}

#[test]
fn attributes_are_ordered_by_kind_first() {
    let mut cx = Context::new();
    let file = cx.intern_str("a.frag");
    let entry = entry_point(&[9, 9], &[9]);
    let note = annotation(0, &[]);
    let line = location(file, 0, 0);
    assert!(entry.lt(&note));
    assert!(entry.lt(&line));
    assert!(note.lt(&line));
    assert!(!note.lt(&entry));
    assert!(!line.lt(&entry));
    assert!(!line.lt(&note));
}

#[test]
fn attributes_of_one_kind_are_ordered_by_their_fields() {
    let mut cx = Context::new();
    let file = cx.intern_str("a.frag");
    assert!(annotation(71, &[5]).lt(&annotation(72, &[0])));
    assert!(annotation(71, &[5]).lt(&annotation(71, &[6])));
    assert!(annotation(71, &[5]).lt(&annotation(71, &[5, 0])));
    assert!(!annotation(71, &[5]).lt(&annotation(71, &[5])));
    assert!(!annotation(72, &[0]).lt(&annotation(71, &[5])));

    assert!(entry_point(&[1], &[8]).lt(&entry_point(&[2], &[3])));
    assert!(entry_point(&[1], &[3]).lt(&entry_point(&[1], &[3, 1])));
    assert!(entry_point(&[1], &[3]).lt(&entry_point(&[1], &[4])));
    assert!(!entry_point(&[1], &[4]).lt(&entry_point(&[1], &[3])));
    assert!(!entry_point(&[1], &[3]).lt(&entry_point(&[1], &[3])));

    assert!(location(file, 3, 9).lt(&location(file, 4, 0)));
    assert!(location(file, 3, 1).lt(&location(file, 3, 2)));
    assert!(!location(file, 3, 2).lt(&location(file, 3, 2)));
    assert!(!location(file, 4, 0).lt(&location(file, 3, 9)));
}

#[test]
fn attributes_are_equal_by_content() {
    assert!(annotation(71, &[1, 2]) == annotation(71, &[1, 2]));
    assert!(annotation(71, &[1, 2]) != annotation(71, &[2, 1]));
    assert!(annotation(71, &[1]) != annotation(72, &[1]));
    assert!(entry_point(&[1], &[2]) == entry_point(&[1], &[2]));
    assert!(entry_point(&[1], &[2]) != entry_point(&[1], &[3]));
    assert!(entry_point(&[], &[]) != annotation(0, &[]));
}

#[test]
fn locations_in_different_files_have_no_order() {
    let mut cx = Context::new();
    let a = cx.intern_str("a.frag");
    let b = cx.intern_str("b.frag");
    assert!(location(a, 1, 1).comparable(&location(a, 2, 2)));
    assert!(!location(a, 1, 1).comparable(&location(b, 1, 1)));
    assert!(!location(a, 1, 1).comparable(&location(b, 2, 2)));
    assert!(location(a, 1, 1).comparable(&annotation(71, &[])));
    assert!(entry_point(&[], &[]).comparable(&location(b, 1, 1)));
    assert!(location(a, 1, 1) != location(b, 1, 1));
}

#[test]
fn a_set_holds_locations_of_one_file_only() {
    let mut cx = Context::new();
    let a = cx.intern_str("a.frag");
    let b = cx.intern_str("b.frag");
    let mut set = AttrSetDef::new();
    assert!(set.accepts(&location(b, 1, 1)));
    assert!(set.insert(annotation(71, &[1])));
    assert!(set.accepts(&location(b, 1, 1)));
    assert!(set.insert(location(a, 1, 1)));
    assert!(set.accepts(&location(a, 7, 7)));
    assert!(set.accepts(&annotation(72, &[])));
    assert!(!set.accepts(&location(b, 1, 1)));
    assert!(!set.accepts(&location(b, 9, 9)));
    assert_eq!(set.len(), 2);
}

#[test]
fn a_set_keeps_its_attributes_in_ascending_order() {
    let mut cx = Context::new();
    let file = cx.intern_str("a.frag");
    let mut set = AttrSetDef::new();
    assert!(set.insert(location(file, 5, 1)));
    assert!(set.insert(annotation(72, &[1])));
    assert!(set.insert(annotation(71, &[3])));
    assert!(set.insert(entry_point(&[0], &[1])));
    assert!(set.insert(annotation(71, &[2])));
    assert!(set.insert(location(file, 4, 8)));
    let expected = vec![
        entry_point(&[0], &[1]),
        annotation(71, &[2]),
        annotation(71, &[3]),
        annotation(72, &[1]),
        location(file, 4, 8),
        location(file, 5, 1),
    ];
    assert_eq!(set.len(), 6);
    assert!(set.as_slice() == &expected[..]);
    for pair in set.as_slice().windows(2) {
        assert!(pair[0].lt(&pair[1]));
    }
}

#[test]
fn a_set_holds_each_attribute_once() {
    let mut set = AttrSetDef::new();
    assert!(!set.contains(&annotation(71, &[1])));
    assert!(set.insert(annotation(71, &[1])));
    assert!(!set.insert(annotation(71, &[1])));
    assert!(set.insert(annotation(71, &[2])));
    assert!(!set.insert(annotation(71, &[1])));
    assert!(!set.insert(annotation(71, &[2])));
    assert_eq!(set.len(), 2);
    assert!(set.contains(&annotation(71, &[1])));
    assert!(set.contains(&annotation(71, &[2])));
    assert!(!set.contains(&annotation(71, &[3])));
}

#[test]
fn the_empty_set() {
    let set = AttrSetDef::new();
    assert_eq!(set.len(), 0);
    assert!(set.as_slice().is_empty());
    assert!(set == AttrSetDef::default());
    assert!(set.accepts(&annotation(0, &[])));
}
