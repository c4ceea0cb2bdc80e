use spirt::small::{IdList, ImmList, OperandList};
use spirt::spv::spec::{Opcode, OperandKind};
use spirt::spv::{Id, Imm, Inst, Operand};
use spirt::{ConstCtor, MiscKind, TypeCtor};

#[test]
fn opcode_names() {
    assert_eq!(Opcode(0).name(), "OpNop");
    assert_eq!(Opcode(17).name(), "OpCapability");
    assert_eq!(Opcode(19).name(), "OpTypeVoid");
    assert_eq!(Opcode(21).name(), "OpTypeInt");
    assert_eq!(Opcode(32).name(), "OpTypePointer");
    assert_eq!(Opcode(43).name(), "OpConstant");
    assert_eq!(Opcode(59).name(), "OpVariable");
    assert_eq!(Opcode(71).name(), "OpDecorate");
    assert_eq!(Opcode(248).name(), "OpLabel");
    assert_eq!(Opcode(330).name(), "OpModuleProcessed");
}

#[test]
fn opcode_without_a_name() {
    assert_eq!(Opcode(9).name(), "OpUnknown");
    assert_eq!(Opcode(128).name(), "OpUnknown");
    assert_eq!(Opcode(u16::MAX).name(), "OpUnknown");
}

#[test]
fn opcode_round_trip() {
    assert_eq!(Opcode::new(54), Opcode(54));
    assert_eq!(Opcode::new(54).as_u16(), 54);
}

#[test]
fn ctor_and_kind_names_are_the_opcode_name() {
    assert_eq!(TypeCtor::SpvInst(Opcode(22)).name(), "OpTypeFloat");
    assert_eq!(ConstCtor::SpvInst(Opcode(44)).name(), "OpConstantComposite");
    assert_eq!(MiscKind::SpvInst(Opcode(61)).name(), "OpLoad");
    assert_eq!(MiscKind::SpvInst(Opcode(1000)).name(), "OpUnknown");
}

#[test]
fn id_is_never_zero() {
    assert!(Id::new(0).is_none());
    assert_eq!(Id::new(1).unwrap().get(), 1);
    assert_eq!(Id::new(u32::MAX).unwrap().get(), u32::MAX);
    assert_eq!(Id::new(7), Id::new(7));
    assert_ne!(Id::new(7), Id::new(8));
}

#[test]
fn imm_list_holds_the_items_in_order() {
    let kind = OperandKind(3);
    let items = vec![Imm::Short(kind, 9), Imm::LongStart(kind, 1), Imm::LongCont(kind, 2)];
    let list = ImmList::from_vec(items.clone());
    assert_eq!(list.as_slice(), &items[..]);
    assert_eq!(list.as_slice().len(), 3);
    let empty = ImmList::from_vec(vec![]);
    assert!(empty.as_slice().is_empty());
}

#[test]
fn id_list_holds_the_items_in_order() {
    let ids: Vec<Id> = (1..=6).map(|v| Id::new(v).unwrap()).collect();
    let list = IdList::from_vec(ids.clone());
    assert_eq!(list.as_slice(), &ids[..]);
}

#[test]
fn list_equality_is_by_items() {
    let kind = OperandKind(0);
    let a = ImmList::from_vec(vec![Imm::Short(kind, 1), Imm::Short(kind, 2)]);
    let b = ImmList::from_vec(vec![Imm::Short(kind, 1), Imm::Short(kind, 2)]);
    let c = ImmList::from_vec(vec![Imm::Short(kind, 2), Imm::Short(kind, 1)]);
    let d = ImmList::from_vec(vec![Imm::Short(kind, 1)]);
    assert!(a == b);
    assert!(a != c);
    assert!(a != d);
}

#[test]
fn inst_keeps_its_operands() {
    let kind = OperandKind(1);
    let id = Id::new(4).unwrap();
    let operands = vec![
        Operand::ShortImm(kind, 5),
        Operand::Id(kind, id),
        Operand::ForwardIdRef(kind, id),
    ];
    let inst = Inst {
        opcode: 59,
        result_type_id: Id::new(2),
        result_id: Id::new(3),
        operands: OperandList::from_vec(operands.clone()),
    };
    assert_eq!(inst.operands.as_slice(), &operands[..]);
    assert_eq!(inst.result_id.unwrap().get(), 3);
}
