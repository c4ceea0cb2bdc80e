use spirt::small::{ConstCtorArgList, IdList, ImmList, TypeCtorArgList};
use spirt::spv::spec::{Opcode, OperandKind};
use spirt::spv::{Id, Imm};
use spirt::{
    Attr, AttrSetDef, ConstCtor, ConstCtorArg, ConstDef, Context, OrdAssertEq, TypeCtor,
    TypeCtorArg, TypeDef,
};

fn int_type(cx: &mut Context, width: u32) -> TypeDef {
    let attrs = cx.intern_attr_set(AttrSetDef::new());
    TypeDef {
        ctor: TypeCtor::SpvInst(Opcode(21)),
        ctor_args: TypeCtorArgList::from_vec(vec![
            TypeCtorArg::SpvImm(Imm::Short(OperandKind(0), width)),
            TypeCtorArg::SpvImm(Imm::Short(OperandKind(0), 1)),
        ]),
        attrs,
    }
}

#[test]
fn interning_a_type_twice_gives_one_handle() {
    let mut cx = Context::new();
    let first = int_type(&mut cx, 32);
    let second = int_type(&mut cx, 32);
    let a = cx.intern_type(first);
    let b = cx.intern_type(second);
    assert_eq!(a, b);
}

#[test]
fn different_types_get_different_handles() {
    let mut cx = Context::new();
    let narrow = int_type(&mut cx, 16);
    let wide = int_type(&mut cx, 32);
    let a = cx.intern_type(narrow);
    let b = cx.intern_type(wide);
    assert_ne!(a, b);
    let again = int_type(&mut cx, 16);
    assert_eq!(cx.intern_type(again), a);
}

#[test]
fn a_handle_leads_back_to_what_was_interned() {
    let mut cx = Context::new();
    let def = int_type(&mut cx, 64);
    let ty = cx.intern_type(def);
    let same = int_type(&mut cx, 64);
    assert!(*cx.type_def(ty) == same);
    assert_eq!(cx.type_def(ty).ctor.name(), "OpTypeInt");
    assert_eq!(cx.type_def(ty).ctor_args.as_slice().len(), 2);
}

#[test]
fn equal_parts_make_the_same_type() {
    let mut cx = Context::new();
    let attrs = cx.intern_attr_set(AttrSetDef::new());
    let elem_def = int_type(&mut cx, 32);
    let elem = cx.intern_type(elem_def);
    let vector = |count: u32| TypeDef {
        ctor: TypeCtor::SpvInst(Opcode(23)),
        ctor_args: TypeCtorArgList::from_vec(vec![
            TypeCtorArg::Type(elem),
            TypeCtorArg::SpvImm(Imm::Short(OperandKind(0), count)),
        ]),
        attrs,
    };
    let a = cx.intern_type(vector(4));
    let b = cx.intern_type(vector(4));
    let c = cx.intern_type(vector(3));
    assert_eq!(a, b);
    assert_ne!(a, c);
    assert_ne!(a, elem);
}

#[test]
fn types_differ_by_each_part() {
    let mut cx = Context::new();
    let empty = cx.intern_attr_set(AttrSetDef::new());
    let mut annotated = AttrSetDef::new();
    annotated.insert(Attr::SpvAnnotation {
        opcode: Opcode(71),
        params: ImmList::from_vec(vec![Imm::Short(OperandKind(0), 2)]),
    });
    let other = cx.intern_attr_set(annotated);
    assert_ne!(empty, other);
    let make = |ctor: u16, attrs| TypeDef {
        ctor: TypeCtor::SpvInst(Opcode(ctor)),
        ctor_args: TypeCtorArgList::from_vec(vec![]),
        attrs,
    };
    let void = cx.intern_type(make(19, empty));
    let boolean = cx.intern_type(make(20, empty));
    let void_annotated = cx.intern_type(make(19, other));
    assert_ne!(void, boolean);
    assert_ne!(void, void_annotated);
    assert_eq!(cx.intern_type(make(19, empty)), void);
}

#[test]
fn constants_are_interned_too() {
    let mut cx = Context::new();
    let attrs = cx.intern_attr_set(AttrSetDef::new());
    let ty_def = int_type(&mut cx, 32);
    let ty = cx.intern_type(ty_def);
    let constant = |value: u32| ConstDef {
        ty,
        ctor: ConstCtor::SpvInst(Opcode(43)),
        ctor_args: ConstCtorArgList::from_vec(vec![ConstCtorArg::SpvImm(Imm::Short(
            OperandKind(0),
            value,
        ))]),
        attrs,
    };
    let one = cx.intern_const(constant(1));
    let two = cx.intern_const(constant(2));
    assert_ne!(one, two);
    assert_eq!(cx.intern_const(constant(1)), one);
    assert!(*cx.const_def(two) == constant(2));
    assert_eq!(cx.const_def(one).ctor.name(), "OpConstant");

    let pair = |a, b| ConstDef {
        ty,
        ctor: ConstCtor::SpvInst(Opcode(44)),
        ctor_args: ConstCtorArgList::from_vec(vec![ConstCtorArg::Const(a), ConstCtorArg::Const(b)]),
        attrs,
    };
    let one_two = cx.intern_const(pair(one, two));
    let two_one = cx.intern_const(pair(two, one));
    assert_ne!(one_two, two_one);
    assert_eq!(cx.intern_const(pair(one, two)), one_two);
}

#[test]
fn untracked_global_var_is_an_argument_of_its_own() {
    let mut cx = Context::new();
    let attrs = cx.intern_attr_set(AttrSetDef::new());
    let ty_def = int_type(&mut cx, 32);
    let ty = cx.intern_type(ty_def);
    let pointer_to = |id: u32| ConstDef {
        ty,
        ctor: ConstCtor::SpvInst(Opcode(52)),
        ctor_args: ConstCtorArgList::from_vec(vec![ConstCtorArg::SpvUntrackedGlobalVarId(
            Id::new(id).unwrap(),
        )]),
        attrs,
    };
    let a = cx.intern_const(pointer_to(5));
    let b = cx.intern_const(pointer_to(6));
    assert_ne!(a, b);
    assert_eq!(cx.intern_const(pointer_to(5)), a);
    assert_eq!(
        cx.const_def(a).ctor_args.as_slice(),
        &[ConstCtorArg::SpvUntrackedGlobalVarId(Id::new(5).unwrap())][..]
    );
}

#[test]
fn strings_are_interned_by_content() {
    let mut cx = Context::new();
    let a = cx.intern_str("main.glsl");
    let b = cx.intern_str("util.glsl");
    let owned = String::from("main") + ".glsl";
    let c = cx.intern_str(&owned);
    assert_eq!(a, c);
    assert_ne!(a, b);
    assert_eq!(cx.str(a), "main.glsl");
    assert_eq!(cx.str(b), "util.glsl");
    let empty = cx.intern_str("");
    assert_eq!(cx.str(empty), "");
    assert_ne!(empty, a);
}

#[test]
fn earlier_handles_stay_good() {
    let mut cx = Context::new();
    let first = cx.intern_str("first");
    for i in 0..50 {
        cx.intern_str(&format!("s{}", i));
    }
    assert_eq!(cx.str(first), "first");
    assert_eq!(cx.intern_str("first"), first);
    assert_eq!(cx.intern_str("s7"), cx.intern_str("s7"));
}

fn location(cx: &mut Context, line: u32, col: u32) -> Attr {
    Attr::SpvDebugLine { file_path: OrdAssertEq(cx.intern_str("a.frag")), line, col }
}

fn decoration(value: u32) -> Attr {
    Attr::SpvAnnotation {
        opcode: Opcode(71),
        params: ImmList::from_vec(vec![Imm::Short(OperandKind(0), value)]),
    }
}

fn entry_point() -> Attr {
    Attr::SpvEntryPoint {
        params: ImmList::from_vec(vec![Imm::Short(OperandKind(0), 4)]),
        interface_ids: IdList::from_vec(vec![Id::new(3).unwrap(), Id::new(9).unwrap()]),
    }
}

#[test]
fn attribute_sets_do_not_depend_on_the_order_of_insertion() {
    let mut cx = Context::new();
    let mut forward = AttrSetDef::new();
    forward.insert(entry_point());
    forward.insert(decoration(1));
    forward.insert(decoration(2));
    forward.insert(location(&mut cx, 10, 2));

    let mut backward = AttrSetDef::new();
    backward.insert(location(&mut cx, 10, 2));
    backward.insert(decoration(2));
    backward.insert(decoration(1));
    backward.insert(entry_point());

    let mut repeated = AttrSetDef::new();
    repeated.insert(decoration(2));
    repeated.insert(entry_point());
    repeated.insert(decoration(2));
    repeated.insert(location(&mut cx, 10, 2));
    repeated.insert(decoration(1));
    repeated.insert(entry_point());

    assert!(forward == backward);
    assert!(forward == repeated);
    let a = cx.intern_attr_set(forward);
    let b = cx.intern_attr_set(backward);
    let c = cx.intern_attr_set(repeated);
    assert_eq!(a, b);
    assert_eq!(a, c);
    assert_eq!(cx.attr_set_def(a).len(), 4);

    let mut smaller = AttrSetDef::new();
    smaller.insert(decoration(1));
    assert_ne!(cx.intern_attr_set(smaller), a);
}

#[test]
fn the_empty_attribute_set_has_one_handle() {
    let mut cx = Context::new();
    let a = cx.intern_attr_set(AttrSetDef::new());
    let b = cx.intern_attr_set(AttrSetDef::default());
    assert_eq!(a, b);
    assert_eq!(cx.attr_set_def(a).len(), 0);
}
