//! An intermediate representation for shader modules: interned types,
//! constants and attributes, a module of global variables and functions built
//! from them, and a visitor to traverse it.

use vstd::prelude::*;
use vstd::std_specs::cmp::PartialEqSpecImpl;
use std::rc::Rc;

pub mod attrs;
pub mod context;
pub mod order;
pub mod small;
pub mod spv;
pub mod visit;

pub use crate::attrs::{Attr, AttrSetDef, OrdAssertEq};
pub use crate::context::{AttrSet, Const, Context, InternedStr, Type};
use crate::small::{ConstCtorArgList, GlobalVarList, ImmList, MiscInputList, TypeCtorArgList};
use crate::spv::spec::Opcode;
use crate::spv::{Id, Imm};

verus! {

/// The dialect a module was made from.
#[derive(Debug)]
pub enum ModuleDialect {
    Spv(spv::Dialect),
}

/// The module-wide debug information, by dialect.
#[derive(Debug)]
pub enum ModuleDebugInfo {
    Spv(spv::ModuleDebugInfo),
}

/// A type: a constructor applied to arguments, with attributes.
#[derive(Debug, Eq, Hash)]
pub struct TypeDef {
    pub ctor: TypeCtor,
    pub ctor_args: TypeCtorArgList,
    pub attrs: AttrSet,
}

/// What makes a type.
#[derive(Copy, Clone, PartialEq, Eq, Structural, Debug, Hash)]
pub enum TypeCtor {
    /// The SPIR-V instruction that declares the type.
    SpvInst(Opcode),
}

/// One argument of a type constructor.
#[derive(Copy, Clone, PartialEq, Eq, Structural, Debug, Hash)]
pub enum TypeCtorArg {
    Type(Type),
    Const(Const),
    SpvImm(Imm),
}

/// A [`TypeDef`] as a mathematical value: two definitions with the same view
/// are the same type.
pub struct TypeDefView {
    pub ctor: TypeCtor,
    pub ctor_args: Seq<TypeCtorArg>,
    pub attrs: AttrSet,
}

impl View for TypeDef {
    type V = TypeDefView;

    open spec fn view(&self) -> TypeDefView {
        TypeDefView { ctor: self.ctor, ctor_args: self.ctor_args@, attrs: self.attrs }
    }
}

impl PartialEq for TypeDef {
    fn eq(&self, other: &TypeDef) -> (equal: bool) {
        self.ctor == other.ctor && self.attrs == other.attrs && self.ctor_args == other.ctor_args
    }
}

impl PartialEqSpecImpl for TypeDef {
    open spec fn obeys_eq_spec() -> bool {
        true
    }

    open spec fn eq_spec(&self, other: &TypeDef) -> bool {
        self@ == other@
    }
}

impl TypeCtor {
    /// The name of the instruction that declares the type.
    pub fn name(&self) -> (name: &'static str)
        ensures
            name@ == spv::spec::opcode_name(self->SpvInst_0.0),
    {
        match self {
            TypeCtor::SpvInst(opcode) => opcode.name(),
        }
    }
}

/// A constant: a constructor applied to arguments, with its type and attributes.
#[derive(Debug, Eq, Hash)]
pub struct ConstDef {
    pub ty: Type,
    pub ctor: ConstCtor,
    pub ctor_args: ConstCtorArgList,
    pub attrs: AttrSet,
}

/// What makes a constant.
#[derive(Copy, Clone, PartialEq, Eq, Structural, Debug, Hash)]
pub enum ConstCtor {
    /// The SPIR-V instruction that declares the constant.
    SpvInst(Opcode),
}

/// One argument of a constant constructor.
#[derive(Copy, Clone, PartialEq, Eq, Structural, Debug, Hash)]
pub enum ConstCtorArg {
    Const(Const),
    SpvImm(Imm),
    /// The identifier of a global variable that the constant points to.
    ///
    /// The variable is named by its SPIR-V identifier and nothing follows it
    /// to the module's global variables: pointers to global variables have
    /// no better form yet, and this variant keeps them apart from every
    /// other argument until they do.
    SpvUntrackedGlobalVarId(Id),
}

/// A [`ConstDef`] as a mathematical value: two definitions with the same view
/// are the same constant.
pub struct ConstDefView {
    pub ty: Type,
    pub ctor: ConstCtor,
    pub ctor_args: Seq<ConstCtorArg>,
    pub attrs: AttrSet,
}

impl View for ConstDef {
    type V = ConstDefView;

    open spec fn view(&self) -> ConstDefView {
        ConstDefView {
            ty: self.ty,
            ctor: self.ctor,
            ctor_args: self.ctor_args@,
            attrs: self.attrs,
        }
    }
}

impl PartialEq for ConstDef {
    fn eq(&self, other: &ConstDef) -> (equal: bool) {
        self.ty == other.ty && self.ctor == other.ctor && self.attrs == other.attrs
            && self.ctor_args == other.ctor_args
    }
}

impl PartialEqSpecImpl for ConstDef {
    open spec fn obeys_eq_spec() -> bool {
        true
    }

    open spec fn eq_spec(&self, other: &ConstDef) -> bool {
        self@ == other@
    }
}

impl ConstCtor {
    /// The name of the instruction that declares the constant.
    pub fn name(&self) -> (name: &'static str)
        ensures
            name@ == spv::spec::opcode_name(self->SpvInst_0.0),
    {
        match self {
            ConstCtor::SpvInst(opcode) => opcode.name(),
        }
    }
}

/// A reference to a global variable of a module: its position in
/// [`Module::globals`].
#[derive(Copy, Clone, PartialEq, Eq, Structural, Debug, Hash)]
pub struct GlobalVar(pub usize);

/// A reference to a function of a module: its position in [`Module::funcs`].
#[derive(Copy, Clone, PartialEq, Eq, Structural, Debug, Hash)]
pub struct FuncRef(pub usize);

/// An instruction that the library gives no form of its own: its opcode, what
/// it yields, and what it is given.
#[derive(Debug)]
pub struct Misc {
    pub kind: MiscKind,
    pub output: Option<MiscOutput>,
    pub inputs: MiscInputList,
    pub attrs: AttrSet,
}

/// Which instruction a [`Misc`] is.
#[derive(Copy, Clone, PartialEq, Eq, Structural, Debug, Hash)]
pub enum MiscKind {
    SpvInst(Opcode),
}

impl MiscKind {
    /// The name of the instruction.
    pub fn name(&self) -> (name: &'static str)
        ensures
            name@ == spv::spec::opcode_name(self->SpvInst_0.0),
    {
        match self {
            MiscKind::SpvInst(opcode) => opcode.name(),
        }
    }
}

/// What an instruction yields.
#[derive(Copy, Clone, PartialEq, Eq, Structural, Debug, Hash)]
pub enum MiscOutput {
    /// A SPIR-V result: its identifier, and its type where the result is a
    /// value (a label, for one, has none).
    SpvResult { result_type: Option<Type>, result_id: Id },
}

/// One input of an instruction.
#[derive(Copy, Clone, PartialEq, Eq, Structural, Debug, Hash)]
pub enum MiscInput {
    Type(Type),
    Const(Const),
    SpvImm(Imm),
    /// An identifier that nothing in the module tracks the definition of.
    SpvUntrackedId(Id),
    /// The name of an extended instruction set.
    SpvExtInstImport(InternedStr),
}

/// An entity that is either brought in from outside the module or defined in
/// it: an import stands in place of the definition, never beside it.
#[derive(Debug)]
pub enum DeclDef<D> {
    Imported(Import),
    Present(D),
}

/// How an imported entity is found.
#[derive(Copy, Clone, PartialEq, Eq, Structural, Debug, Hash)]
pub enum Import {
    /// By the name that the linker matches.
    LinkName(InternedStr),
}

impl<D> DeclDef<D> {
    /// The import, where the entity is imported.
    pub open spec fn import_of(&self) -> Option<&Import> {
        match self {
            DeclDef::Imported(import) => Some(import),
            DeclDef::Present(_) => None,
        }
    }

    /// The definition, where the entity is defined in the module.
    pub open spec fn def_of(&self) -> Option<&D> {
        match self {
            DeclDef::Imported(_) => None,
            DeclDef::Present(def) => Some(def),
        }
    }

    /// An entity has an import or a definition, and never both: one that is
    /// imported has no definition, and one that is present has one.
    pub proof fn lemma_import_or_def(&self)
        ensures
            self is Imported <==> !(self is Present),
            self is Imported <==> self.import_of() is Some,
            self is Present <==> self.def_of() is Some,
            self.import_of() is Some <==> self.def_of() is None,
    {
    }

    /// The import, where the entity is imported.
    pub fn import(&self) -> (import: Option<&Import>)
        ensures
            import == self.import_of(),
    {
        match self {
            DeclDef::Imported(import) => Some(import),
            DeclDef::Present(_) => None,
        }
    }

    /// The definition, where the entity is defined in the module.
    pub fn def(&self) -> (def: Option<&D>)
        ensures
            def == self.def_of(),
    {
        match self {
            DeclDef::Imported(_) => None,
            DeclDef::Present(def) => Some(def),
        }
    }
}

/// The memory that a global variable lives in.
#[derive(Copy, Clone, PartialEq, Eq, Structural, Debug, Hash)]
pub enum AddrSpace {
    SpvStorageClass(u32),
}

/// A global variable: its attributes, the type it holds, where it lives, and
/// its definition or import.
#[derive(Debug)]
pub struct GlobalVarDecl {
    pub attrs: AttrSet,
    pub type_of_ptr_to: Type,
    pub addr_space: AddrSpace,
    pub def: DeclDef<Global>,
}

/// The definition of a global variable.
#[derive(Debug)]
pub enum Global {
    /// The instruction that declares the variable, initializer included.
    Misc(Misc),
}

/// A function: its attributes, its types, and its definition or import.
#[derive(Debug)]
pub struct FuncDecl {
    pub attrs: AttrSet,
    pub ret_type: Type,
    pub ty: Type,
    pub def: DeclDef<Func>,
}

/// The definition of a function: its instructions, in order.
#[derive(Debug)]
pub struct Func {
    pub insts: Vec<Misc>,
}

/// What an export is known by outside the module.
#[derive(Debug, Eq, Hash)]
pub enum ExportKey {
    /// The name that the linker matches.
    LinkName(InternedStr),
    /// An entry point, with its parameters and the global variables of its
    /// interface.
    SpvEntryPoint { params: ImmList, interface_global_vars: GlobalVarList },
}

/// An [`ExportKey`] as a mathematical value.
pub enum ExportKeyView {
    LinkName(InternedStr),
    SpvEntryPoint { params: Seq<Imm>, interface_global_vars: Seq<GlobalVar> },
}

impl View for ExportKey {
    type V = ExportKeyView;

    open spec fn view(&self) -> ExportKeyView {
        match *self {
            ExportKey::LinkName(name) => ExportKeyView::LinkName(name),
            ExportKey::SpvEntryPoint { params, interface_global_vars } => {
                ExportKeyView::SpvEntryPoint {
                    params: params@,
                    interface_global_vars: interface_global_vars@,
                }
            },
        }
    }
}

impl PartialEq for ExportKey {
    fn eq(&self, other: &ExportKey) -> (equal: bool) {
        match (self, other) {
            (ExportKey::LinkName(n1), ExportKey::LinkName(n2)) => *n1 == *n2,
            (
                ExportKey::SpvEntryPoint { params: p1, interface_global_vars: g1 },
                ExportKey::SpvEntryPoint { params: p2, interface_global_vars: g2 },
            ) => *p1 == *p2 && *g1 == *g2,
            _ => false,
        }
    }
}

impl PartialEqSpecImpl for ExportKey {
    open spec fn obeys_eq_spec() -> bool {
        true
    }

    open spec fn eq_spec(&self, other: &ExportKey) -> bool {
        self@ == other@
    }
}

/// What an export makes known: a global variable or a function of the module.
#[derive(Copy, Clone, PartialEq, Eq, Structural, Debug, Hash)]
pub enum Exportee {
    GlobalVar(GlobalVar),
    Func(FuncRef),
}

/// Why an export was not added to a module.
#[derive(Copy, Clone, PartialEq, Eq, Structural, Debug, Hash)]
pub enum ExportError {
    /// The module has an export under the same key.
    DuplicateKey,
    /// The export, or its key's interface, names a global variable that the
    /// module does not have.
    DanglingGlobalVar,
    /// The export names a function that the module does not have.
    DanglingFunc,
}

/// Whether every reference in `vars` is below `globals`.
pub open spec fn global_vars_in_range(vars: Seq<GlobalVar>, globals: int) -> bool {
    forall|i: int| 0 <= i < vars.len() ==> (#[trigger] vars[i]).0 < globals
}

/// Whether what `key` and `exportee` refer to exists among `globals` global
/// variables and `funcs` functions.
pub open spec fn export_in_range(
    key: ExportKeyView,
    exportee: Exportee,
    globals: int,
    funcs: int,
) -> bool {
    &&& match key {
        ExportKeyView::LinkName(_) => true,
        ExportKeyView::SpvEntryPoint { interface_global_vars, .. } => global_vars_in_range(
            interface_global_vars,
            globals,
        ),
    }
    &&& match exportee {
        Exportee::GlobalVar(gv) => gv.0 < globals,
        Exportee::Func(func) => func.0 < funcs,
    }
}

/// What adding an export to a module comes to: the reason it is refused, or
/// nothing where it is accepted.
///
/// A key that the module has is refused first; then a global variable that
/// it lacks, in the key's interface or as the exportee; then a function that
/// it lacks.
pub open spec fn export_refusal(
    exports: Seq<(ExportKeyView, Exportee)>,
    key: ExportKeyView,
    exportee: Exportee,
    globals: int,
    funcs: int,
) -> Option<ExportError> {
    if exists|i: int| 0 <= i < exports.len() && (#[trigger] exports[i]).0 == key {
        Some(ExportError::DuplicateKey)
    } else if key matches ExportKeyView::SpvEntryPoint { interface_global_vars, .. }
        && !global_vars_in_range(interface_global_vars, globals) {
        Some(ExportError::DanglingGlobalVar)
    } else {
        match exportee {
            Exportee::GlobalVar(gv) => if gv.0 < globals {
                None
            } else {
                Some(ExportError::DanglingGlobalVar)
            },
            Exportee::Func(func) => if func.0 < funcs {
                None
            } else {
                Some(ExportError::DanglingFunc)
            },
        }
    }
}

/// A module: global variables and functions, what of them it exports, and
/// the context that its handles belong to.
///
/// The context is set when the module is made and cannot be changed after.
#[derive(Debug)]
pub struct Module {
    cx: Rc<Context>,
    pub dialect: ModuleDialect,
    pub debug_info: ModuleDebugInfo,
    pub globals: Vec<GlobalVarDecl>,
    pub funcs: Vec<FuncDecl>,
    exports: Vec<(ExportKey, Exportee)>,
}

/// Whether every reference in `vars` is below `globals`.
fn check_global_vars(vars: &[GlobalVar], globals: usize) -> (in_range: bool)
    ensures
        in_range == global_vars_in_range(vars@, globals as int),
{
    let mut i: usize = 0;
    while i < vars.len()
        invariant
            i <= vars.len(),
            forall|j: int| 0 <= j < i ==> (#[trigger] vars@[j]).0 < globals,
        decreases vars.len() - i,
    {
        if vars[i].0 >= globals {
            return false;
        }
        i += 1;
    }
    true
}

/// A [`Module`] as a mathematical value.
pub struct ModuleView {
    /// The context that the module was made with.
    pub cx: Rc<Context>,
    pub dialect: ModuleDialect,
    pub debug_info: ModuleDebugInfo,
    pub globals: Seq<GlobalVarDecl>,
    pub funcs: Seq<FuncDecl>,
    /// The exports, in the order in which they were added.
    pub exports: Seq<(ExportKeyView, Exportee)>,
}

impl View for Module {
    type V = ModuleView;

    closed spec fn view(&self) -> ModuleView {
        ModuleView {
            cx: self.cx,
            dialect: self.dialect,
            debug_info: self.debug_info,
            globals: self.globals@,
            funcs: self.funcs@,
            exports: self.exports@.map_values(
                |export: (ExportKey, Exportee)| (export.0@, export.1),
            ),
        }
    }
}

impl ModuleView {
    /// No two exports have the same key, and every export refers to a
    /// global variable or function that the module has.
    pub open spec fn exports_wf(self) -> bool {
        &&& forall|i: int, j: int|
            0 <= i < j < self.exports.len() ==> (#[trigger] self.exports[i]).0 != (
            #[trigger] self.exports[j]).0
        &&& forall|i: int|
            0 <= i < self.exports.len() ==> export_in_range(
                (#[trigger] self.exports[i]).0,
                self.exports[i].1,
                self.globals.len() as int,
                self.funcs.len() as int,
            )
    }
}

impl Module {
    /// What the view says of each field.
    pub(crate) proof fn lemma_view(&self)
        ensures
            self@.dialect == self.dialect,
            self@.debug_info == self.debug_info,
            self@.globals == self.globals@,
            self@.funcs == self.funcs@,
    {
    }

    /// An empty module of the given context.
    pub fn new(cx: Rc<Context>, dialect: ModuleDialect, debug_info: ModuleDebugInfo) -> (module:
        Module)
        ensures
            module@ == (ModuleView {
                cx,
                dialect,
                debug_info,
                globals: Seq::empty(),
                funcs: Seq::empty(),
                exports: Seq::empty(),
            }),
    {
        let module = Module {
            cx,
            dialect,
            debug_info,
            globals: Vec::new(),
            funcs: Vec::new(),
            exports: Vec::new(),
        };
        proof {
            assert(module@.globals =~= Seq::empty());
            assert(module@.funcs =~= Seq::empty());
            assert(module@.exports =~= Seq::empty());
        }
        module
    }

    /// The module's context, shared.
    pub fn cx(&self) -> (cx: Rc<Context>)
        ensures
            cx == self@.cx,
    {
        self.cx.clone()
    }

    /// The module's context.
    pub fn cx_ref(&self) -> (cx: &Rc<Context>)
        ensures
            *cx == self@.cx,
    {
        &self.cx
    }

    /// The exports, in the order in which they were added.
    pub fn exports(&self) -> (exports: &[(ExportKey, Exportee)])
        ensures
            exports@.map_values(|export: (ExportKey, Exportee)| (export.0@, export.1))
                == self@.exports,
    {
        self.exports.as_slice()
    }

    /// Adds an export, unless [`export_refusal`] gives a reason against it;
    /// a refused export leaves the module as it was.
    pub fn add_export(&mut self, key: ExportKey, exportee: Exportee) -> (result: Result<
        (),
        ExportError,
    >)
        ensures
            result == (match export_refusal(
                old(self)@.exports,
                key@,
                exportee,
                old(self)@.globals.len() as int,
                old(self)@.funcs.len() as int,
            ) {
                Some(error) => Err::<(), ExportError>(error),
                None => Ok(()),
            }),
            result is Err ==> *final(self) == *old(self),
            result is Ok ==> final(self)@ == (ModuleView {
                exports: old(self)@.exports.push((key@, exportee)),
                ..old(self)@
            }),
            old(self)@.exports_wf() ==> final(self)@.exports_wf(),
    {
        let ghost view = self@.exports;
        let mut i: usize = 0;
        while i < self.exports.len()
            invariant
                i <= self.exports.len(),
                *self == *old(self),
                view == self@.exports,
                forall|j: int| 0 <= j < i ==> (#[trigger] view[j]).0 != key@,
            decreases self.exports.len() - i,
        {
            if self.exports[i].0 == key {
                proof {
                    assert(view[i as int].0 == key@);
                }
                return Err(ExportError::DuplicateKey);
            }
            i += 1;
        }
        match &key {
            ExportKey::LinkName(_) => {},
            ExportKey::SpvEntryPoint { params: _, interface_global_vars } => {
                if !check_global_vars(interface_global_vars.as_slice(), self.globals.len()) {
                    return Err(ExportError::DanglingGlobalVar);
                }
            },
        }
        match exportee {
            Exportee::GlobalVar(gv) => {
                if gv.0 >= self.globals.len() {
                    return Err(ExportError::DanglingGlobalVar);
                }
            },
            Exportee::Func(func) => {
                if func.0 >= self.funcs.len() {
                    return Err(ExportError::DanglingFunc);
                }
            },
        }
        proof {
            assert(self.exports@.push((key, exportee)).map_values(
                |export: (ExportKey, Exportee)| (export.0@, export.1),
            ) == view.push((key@, exportee)));
        }
        self.exports.push((key, exportee));
        Ok(())
    }
}

} // verus!
