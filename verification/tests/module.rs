use spirt::small::{GlobalVarList, ImmList, MiscInputList, TypeCtorArgList};
use spirt::spv::spec::{Opcode, OperandKind};
use spirt::spv::{Dialect, Imm, ModuleDebugInfo as SpvDebugInfo, ModuleLayout};
use spirt::{
    AddrSpace, AttrSetDef, Context, DeclDef, ExportError, ExportKey, Exportee, Func, FuncDecl,
    FuncRef, Global, GlobalVar, GlobalVarDecl, Import, Misc, MiscKind, Module, ModuleDebugInfo,
    ModuleDialect, TypeCtor, TypeDef,
};
use std::rc::Rc;

fn dialect() -> ModuleDialect {
    ModuleDialect::Spv(Dialect {
        layout: ModuleLayout {
            header_version: 0x0001_0300,
            original_generator_magic: 0x000d_000b,
            original_id_bound: 57,
            capabilities: vec![1, 1, 5],
        },
        extensions: vec![String::from("SPV_KHR_vulkan_memory_model")],
    })
}

fn debug_info() -> ModuleDebugInfo {
    ModuleDebugInfo::Spv(SpvDebugInfo { source_extensions: vec![], module_processes: vec![] })
}

struct Fixture {
    module: Module,
    cx: Rc<Context>,
}

fn module_with(globals: usize, funcs: usize) -> Fixture {
    let mut cx = Context::new();
    let attrs = cx.intern_attr_set(AttrSetDef::new());
    let ty = cx.intern_type(TypeDef {
        ctor: TypeCtor::SpvInst(Opcode(19)),
        ctor_args: TypeCtorArgList::from_vec(vec![]),
        attrs,
    });
    let name = cx.intern_str("imported");
    let cx = Rc::new(cx);
    let mut module = Module::new(cx.clone(), dialect(), debug_info());
    for i in 0..globals {
        let def = if i % 2 == 0 {
            DeclDef::Present(Global::Misc(Misc {
                kind: MiscKind::SpvInst(Opcode(59)),
                output: None,
                inputs: MiscInputList::from_vec(vec![]),
                attrs,
            }))
        } else {
            DeclDef::Imported(Import::LinkName(name))
        };
        module.globals.push(GlobalVarDecl {
            attrs,
            type_of_ptr_to: ty,
            addr_space: AddrSpace::SpvStorageClass(7),
            def,
        });
    }
    for _ in 0..funcs {
        module.funcs.push(FuncDecl {
            attrs,
            ret_type: ty,
            ty,
            def: DeclDef::Present(Func { insts: vec![] }),
        });
    }
    Fixture { module, cx }
}

fn entry_point(interface: &[usize]) -> ExportKey {
    ExportKey::SpvEntryPoint {
        params: ImmList::from_vec(vec![Imm::Short(OperandKind(0), 5)]),
        interface_global_vars: GlobalVarList::from_vec(
            interface.iter().map(|i| GlobalVar(*i)).collect(),
        ),
    }
}

#[test]
fn a_new_module_is_empty() {
    let Fixture { module, .. } = module_with(0, 0);
    assert!(module.globals.is_empty());
    assert!(module.funcs.is_empty());
    assert!(module.exports().is_empty());
}

#[test]
fn a_module_keeps_the_context_it_was_made_with() {
    let Fixture { mut module, cx } = module_with(1, 1);
    assert!(Rc::ptr_eq(&module.cx(), &cx));
    assert!(Rc::ptr_eq(module.cx_ref(), &cx));
    let name = Rc::new(Context::new());
    assert!(!Rc::ptr_eq(module.cx_ref(), &name));
    module.add_export(entry_point(&[0]), Exportee::Func(FuncRef(0))).unwrap();
    assert!(Rc::ptr_eq(&module.cx(), &cx));
}

#[test]
fn a_module_keeps_its_header() {
    let Fixture { module, .. } = module_with(0, 0);
    match &module.dialect {
        ModuleDialect::Spv(dialect) => {
            assert_eq!(dialect.layout.header_version, 0x0001_0300);
            assert_eq!(dialect.layout.original_generator_magic, 0x000d_000b);
            assert_eq!(dialect.layout.original_id_bound, 57);
            assert_eq!(dialect.layout.capabilities, vec![1, 1, 5]);
            assert_eq!(dialect.extensions, vec![String::from("SPV_KHR_vulkan_memory_model")]);
        }
    }
}

#[test]
fn exports_are_kept_in_the_order_they_were_added() {
    let Fixture { mut module, cx: _ } = module_with(2, 2);
    let mut names = Context::new();
    let a = names.intern_str("a");
    let b = names.intern_str("b");
    assert_eq!(module.add_export(ExportKey::LinkName(b), Exportee::Func(FuncRef(1))), Ok(()));
    let first_var = Exportee::GlobalVar(GlobalVar(0));
    assert_eq!(module.add_export(ExportKey::LinkName(a), first_var), Ok(()));
    assert_eq!(module.add_export(entry_point(&[0, 1]), Exportee::Func(FuncRef(0))), Ok(()));
    let exports = module.exports();
    assert_eq!(exports.len(), 3);
    assert!(exports[0].0 == ExportKey::LinkName(b));
    assert_eq!(exports[0].1, Exportee::Func(FuncRef(1)));
    assert!(exports[1].0 == ExportKey::LinkName(a));
    assert_eq!(exports[1].1, Exportee::GlobalVar(GlobalVar(0)));
    assert!(exports[2].0 == entry_point(&[0, 1]));
    assert_eq!(exports[2].1, Exportee::Func(FuncRef(0)));
}

#[test]
fn a_key_is_exported_once() {
    let Fixture { mut module, cx: _ } = module_with(1, 2);
    let mut names = Context::new();
    let main = names.intern_str("main");
    assert_eq!(module.add_export(ExportKey::LinkName(main), Exportee::Func(FuncRef(0))), Ok(()));
    assert_eq!(
        module.add_export(ExportKey::LinkName(main), Exportee::Func(FuncRef(1))),
        Err(ExportError::DuplicateKey)
    );
    assert_eq!(
        module.add_export(ExportKey::LinkName(main), Exportee::Func(FuncRef(0))),
        Err(ExportError::DuplicateKey)
    );
    assert_eq!(module.add_export(entry_point(&[0]), Exportee::Func(FuncRef(1))), Ok(()));
    assert_eq!(
        module.add_export(entry_point(&[0]), Exportee::Func(FuncRef(0))),
        Err(ExportError::DuplicateKey)
    );
    assert_eq!(module.add_export(entry_point(&[]), Exportee::Func(FuncRef(0))), Ok(()));
    assert_eq!(module.exports().len(), 3);
    assert_eq!(module.exports()[0].1, Exportee::Func(FuncRef(0)));
}

#[test]
fn a_duplicate_key_is_refused_before_anything_else() {
    let Fixture { mut module, cx: _ } = module_with(1, 1);
    let mut names = Context::new();
    let main = names.intern_str("main");
    assert_eq!(module.add_export(ExportKey::LinkName(main), Exportee::Func(FuncRef(0))), Ok(()));
    assert_eq!(
        module.add_export(ExportKey::LinkName(main), Exportee::Func(FuncRef(9))),
        Err(ExportError::DuplicateKey)
    );
}

#[test]
fn an_export_refers_to_what_the_module_has() {
    let Fixture { mut module, cx: _ } = module_with(2, 1);
    let mut names = Context::new();
    let a = names.intern_str("a");
    assert_eq!(
        module.add_export(ExportKey::LinkName(a), Exportee::GlobalVar(GlobalVar(2))),
        Err(ExportError::DanglingGlobalVar)
    );
    assert_eq!(
        module.add_export(ExportKey::LinkName(a), Exportee::Func(FuncRef(1))),
        Err(ExportError::DanglingFunc)
    );
    assert_eq!(
        module.add_export(entry_point(&[0, 2]), Exportee::Func(FuncRef(0))),
        Err(ExportError::DanglingGlobalVar)
    );
    assert_eq!(
        module.add_export(entry_point(&[5]), Exportee::Func(FuncRef(7))),
        Err(ExportError::DanglingGlobalVar)
    );
    assert!(module.exports().is_empty());
    assert_eq!(module.globals.len(), 2);
    assert_eq!(module.funcs.len(), 1);
    let second_var = Exportee::GlobalVar(GlobalVar(1));
    assert_eq!(module.add_export(ExportKey::LinkName(a), second_var), Ok(()));
    assert_eq!(module.exports().len(), 1);
}

#[test]
fn an_empty_module_exports_nothing() {
    let Fixture { mut module, cx: _ } = module_with(0, 0);
    let mut names = Context::new();
    let a = names.intern_str("a");
    assert_eq!(
        module.add_export(ExportKey::LinkName(a), Exportee::GlobalVar(GlobalVar(0))),
        Err(ExportError::DanglingGlobalVar)
    );
    assert_eq!(
        module.add_export(ExportKey::LinkName(a), Exportee::Func(FuncRef(0))),
        Err(ExportError::DanglingFunc)
    );
}

#[test]
fn an_entity_is_imported_or_present() {
    let Fixture { module, cx: _ } = module_with(2, 1);
    let present = &module.globals[0].def;
    let imported = &module.globals[1].def;
    assert!(present.def().is_some());
    assert!(present.import().is_none());
    assert!(imported.def().is_none());
    assert!(matches!(imported.import(), Some(Import::LinkName(_))));
    let func = &module.funcs[0].def;
    assert!(func.import().is_none());
    assert!(func.def().unwrap().insts.is_empty());
}
