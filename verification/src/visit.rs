//! Traversal of a module.
//!
//! A [`Visitor`] is shown a value through the `visit_` method of its kind.
//! What it does is its own affair at two kinds of places, and there its
//! methods have no default: at each *use* of something shared (an interned
//! handle, or a global variable or function of the module), which is where a
//! traversal that went on by itself could come by the same thing many times
//! over; and at each value that holds no use at all, where there is nothing
//! to go on into. Every other method has a default, one level of descent,
//! which shows the visitor each part of the value in turn. [`InnerVisit`]
//! gives that same descent for a value on request.
//!
//! What a traversal does to a visitor is stated over the [`Visit`]s that it
//! comes to: the visitor's [state](Visitor::state) after it was shown a
//! value is its state before, taken through [`Visitor::after`] once for each
//! visit that the value holds, in order.

use vstd::prelude::*;
use crate::attrs::{Attr, AttrSetDef, AttrView};
use crate::context::{AttrSet, Const, Type};
use crate::spv;
use crate::{
    AddrSpace, ConstCtor, ConstCtorArg, ConstDef, DeclDef, ExportKey, ExportKeyView, Exportee,
    Func, FuncDecl, FuncRef, Global, GlobalVar, GlobalVarDecl, Import, Misc, MiscInput, MiscKind,
    MiscOutput, Module, ModuleDebugInfo, ModuleDialect, ModuleView, TypeCtor, TypeCtorArg, TypeDef,
};

verus! {

/// One place where a value refers to something that is shared: an interned
/// handle, or a global variable or function of the module.
#[derive(Copy, Clone, PartialEq, Eq, Structural, Debug, Hash)]
pub enum Use {
    AttrSet(AttrSet),
    Type(Type),
    Const(Const),
    GlobalVar(GlobalVar),
    Func(FuncRef),
}

/// One place where a traversal hands over to the visitor: a use, or a value
/// that holds none.
pub enum Visit {
    Use(Use),
    SpvDialect(spv::Dialect),
    SpvModuleDebugInfo(spv::ModuleDebugInfo),
    Attr(AttrView),
    Import(Import),
}

/// The state that `step` leads to from `state` over `visits`, first to last.
pub open spec fn fold_visits<S>(state: S, visits: Seq<Visit>, step: spec_fn(S, Visit) -> S) -> S {
    visits.fold_left(state, step)
}

/// The visits of each of `items`, one after the other.
pub open spec fn concat_visits<T>(items: Seq<T>, visits: spec_fn(T) -> Seq<Visit>) -> Seq<Visit> {
    items.map_values(visits).flatten()
}

/// No visits, no change.
pub proof fn lemma_fold_none<S>(state: S, step: spec_fn(S, Visit) -> S)
    ensures
        fold_visits(state, Seq::empty(), step) == state,
{
}

/// One visit is one step.
pub proof fn lemma_fold_one<S>(state: S, visit: Visit, step: spec_fn(S, Visit) -> S)
    ensures
        fold_visits(state, seq![visit], step) == step(state, visit),
{
    reveal_with_fuel(Seq::fold_left, 2);
    assert(seq![visit].drop_last() == Seq::<Visit>::empty());
}

/// Going over `a` and then over `b` is going over `a + b`.
pub proof fn lemma_fold_concat<S>(
    state: S,
    a: Seq<Visit>,
    b: Seq<Visit>,
    step: spec_fn(S, Visit) -> S,
)
    ensures
        fold_visits(fold_visits(state, a, step), b, step) == fold_visits(state, a + b, step),
    decreases b.len(),
{
    if b.len() == 0 {
        assert(a + b == a);
    } else {
        lemma_fold_concat(state, a, b.drop_last(), step);
        assert((a + b).drop_last() == a + b.drop_last());
    }
}

/// If `seen` leads from `start` to `mid` and `more` from `mid` to `end`, then
/// `seen + more` leads from `start` to `end`.
pub proof fn lemma_fold_then<S>(
    start: S,
    seen: Seq<Visit>,
    mid: S,
    more: Seq<Visit>,
    end: S,
    step: spec_fn(S, Visit) -> S,
)
    requires
        mid == fold_visits(start, seen, step),
        end == fold_visits(mid, more, step),
    ensures
        end == fold_visits(start, seen + more, step),
{
    lemma_fold_concat(start, seen, more, step);
}

/// If `seen` leads from `start` to `mid` and `visit` is one step from `mid`
/// to `end`, then `seen` with `visit` after it leads from `start` to `end`.
pub proof fn lemma_fold_then_one<S>(
    start: S,
    seen: Seq<Visit>,
    mid: S,
    visit: Visit,
    end: S,
    step: spec_fn(S, Visit) -> S,
)
    requires
        mid == fold_visits(start, seen, step),
        end == step(mid, visit),
    ensures
        end == fold_visits(start, seen.push(visit), step),
{
    lemma_fold_one(mid, visit, step);
    lemma_fold_concat(start, seen, seq![visit], step);
    assert(seen + seq![visit] == seen.push(visit));
}

/// The visits of one more item come after those of the items before it.
pub proof fn lemma_concat_visits_push<T>(items: Seq<T>, item: T, visits: spec_fn(T) -> Seq<Visit>)
    ensures
        concat_visits(items.push(item), visits) == concat_visits(items, visits) + visits(item),
{
    let mapped = items.map_values(visits);
    assert(items.push(item).map_values(visits) == mapped.push(visits(item)));
    mapped.lemma_flatten_push(visits(item));
}

/// The visits of no items are none.
pub proof fn lemma_concat_visits_none<T>(visits: spec_fn(T) -> Seq<Visit>)
    ensures
        concat_visits(Seq::<T>::empty(), visits) == Seq::<Visit>::empty(),
{
    assert(Seq::<T>::empty().map_values(visits) == Seq::<Seq<Visit>>::empty());
}

/// The visits in a type constructor's argument.
pub open spec fn type_ctor_arg_visits(arg: TypeCtorArg) -> Seq<Visit> {
    match arg {
        TypeCtorArg::Type(ty) => seq![Visit::Use(Use::Type(ty))],
        TypeCtorArg::Const(ct) => seq![Visit::Use(Use::Const(ct))],
        TypeCtorArg::SpvImm(_) => seq![],
    }
}

/// The visits in a constant constructor's argument.
pub open spec fn const_ctor_arg_visits(arg: ConstCtorArg) -> Seq<Visit> {
    match arg {
        ConstCtorArg::Const(ct) => seq![Visit::Use(Use::Const(ct))],
        ConstCtorArg::SpvImm(_) => seq![],
        ConstCtorArg::SpvUntrackedGlobalVarId(_) => seq![],
    }
}

impl ModuleDialect {
    /// The visits in a dialect: the dialect that it is.
    pub open spec fn visits(&self) -> Seq<Visit> {
        match *self {
            ModuleDialect::Spv(dialect) => seq![Visit::SpvDialect(dialect)],
        }
    }
}

impl ModuleDebugInfo {
    /// The visits in a module's debug information: that of its dialect.
    pub open spec fn visits(&self) -> Seq<Visit> {
        match *self {
            ModuleDebugInfo::Spv(debug_info) => seq![Visit::SpvModuleDebugInfo(debug_info)],
        }
    }
}

/// A visit of each of `attrs`, in order.
pub open spec fn attr_visits(attrs: Seq<AttrView>) -> Seq<Visit> {
    attrs.map_values(|attr: AttrView| Visit::Attr(attr))
}

impl AttrSetDef {
    /// The visits in an attribute set: its attributes, in ascending order.
    pub open spec fn visits(&self) -> Seq<Visit> {
        attr_visits(self@)
    }
}

impl TypeDef {
    /// The visits in a type: its attributes, then those in its arguments.
    pub open spec fn visits(&self) -> Seq<Visit> {
        seq![Visit::Use(Use::AttrSet(self.attrs))] + concat_visits(
            self.ctor_args@,
            |arg: TypeCtorArg| type_ctor_arg_visits(arg),
        )
    }
}

impl ConstDef {
    /// The visits in a constant: its attributes, its type, then those in its
    /// arguments.
    pub open spec fn visits(&self) -> Seq<Visit> {
        seq![Visit::Use(Use::AttrSet(self.attrs)), Visit::Use(Use::Type(self.ty))] + concat_visits(
            self.ctor_args@,
            |arg: ConstCtorArg| const_ctor_arg_visits(arg),
        )
    }
}

impl MiscOutput {
    /// The visits in an output: its type, where it has one.
    pub open spec fn visits(&self) -> Seq<Visit> {
        match *self {
            MiscOutput::SpvResult { result_type: Some(ty), .. } => seq![Visit::Use(Use::Type(ty))],
            MiscOutput::SpvResult { result_type: None, .. } => seq![],
        }
    }
}

impl MiscInput {
    /// The visits in an input: the type or constant that it is, if it is one.
    pub open spec fn visits(&self) -> Seq<Visit> {
        match *self {
            MiscInput::Type(ty) => seq![Visit::Use(Use::Type(ty))],
            MiscInput::Const(ct) => seq![Visit::Use(Use::Const(ct))],
            MiscInput::SpvImm(_) => seq![],
            MiscInput::SpvUntrackedId(_) => seq![],
            MiscInput::SpvExtInstImport(_) => seq![],
        }
    }
}

/// The visits in what an instruction yields, if anything.
pub open spec fn output_visits(output: Option<MiscOutput>) -> Seq<Visit> {
    match output {
        Some(output) => output.visits(),
        None => seq![],
    }
}

impl Misc {
    /// The visits in an instruction: its attributes, then those in its
    /// output, then those in its inputs.
    pub open spec fn visits(&self) -> Seq<Visit> {
        seq![Visit::Use(Use::AttrSet(self.attrs))] + output_visits(self.output) + concat_visits(
            self.inputs@,
            |input: MiscInput| input.visits(),
        )
    }
}

impl Global {
    /// The visits in the definition of a global variable.
    pub open spec fn visits(&self) -> Seq<Visit> {
        match *self {
            Global::Misc(misc) => misc.visits(),
        }
    }
}

impl Func {
    /// The visits in the definition of a function: those in its instructions.
    pub open spec fn visits(&self) -> Seq<Visit> {
        concat_visits(self.insts@, |inst: Misc| inst.visits())
    }
}

impl GlobalVarDecl {
    /// The visits in a global variable: its attributes, its type, then its
    /// import or those in its definition.
    pub open spec fn visits(&self) -> Seq<Visit> {
        seq![Visit::Use(Use::AttrSet(self.attrs)), Visit::Use(Use::Type(self.type_of_ptr_to))] + (
        match self.def {
            DeclDef::Imported(import) => seq![Visit::Import(import)],
            DeclDef::Present(def) => def.visits(),
        })
    }
}

impl FuncDecl {
    /// The visits in a function: its attributes, its two types, then its
    /// import or those in its definition.
    pub open spec fn visits(&self) -> Seq<Visit> {
        seq![
            Visit::Use(Use::AttrSet(self.attrs)),
            Visit::Use(Use::Type(self.ret_type)),
            Visit::Use(Use::Type(self.ty)),
        ] + (match self.def {
            DeclDef::Imported(import) => seq![Visit::Import(import)],
            DeclDef::Present(def) => def.visits(),
        })
    }
}

/// A use of each of `vars`, in order.
pub open spec fn global_var_visits(vars: Seq<GlobalVar>) -> Seq<Visit> {
    vars.map_values(|gv: GlobalVar| Visit::Use(Use::GlobalVar(gv)))
}

impl ExportKeyView {
    /// The visits in an export's key: the global variables of its interface.
    pub open spec fn visits(self) -> Seq<Visit> {
        match self {
            ExportKeyView::LinkName(_) => seq![],
            ExportKeyView::SpvEntryPoint { interface_global_vars, .. } => global_var_visits(
                interface_global_vars,
            ),
        }
    }
}

impl Exportee {
    /// The visit that an exportee is: a use of what is exported.
    pub open spec fn visits(&self) -> Seq<Visit> {
        match *self {
            Exportee::GlobalVar(gv) => seq![Visit::Use(Use::GlobalVar(gv))],
            Exportee::Func(func) => seq![Visit::Use(Use::Func(func))],
        }
    }
}

/// The visits in an export: those in its key, then the exportee.
pub open spec fn export_visits(export: (ExportKeyView, Exportee)) -> Seq<Visit> {
    export.0.visits() + export.1.visits()
}

/// A use of each of the first `count` global variables of a module.
pub open spec fn own_global_visits(count: nat) -> Seq<Visit> {
    Seq::new(count, |i: int| Visit::Use(Use::GlobalVar(GlobalVar(i as usize))))
}

/// A use of each of the first `count` functions of a module.
pub open spec fn own_func_visits(count: nat) -> Seq<Visit> {
    Seq::new(count, |i: int| Visit::Use(Use::Func(FuncRef(i as usize))))
}

impl ModuleView {
    /// The uses in a module's own descent: one of each of its global
    /// variables, one of each of its functions, then those in its exports.
    pub open spec fn entity_visits(self) -> Seq<Visit> {
        own_global_visits(self.globals.len()) + own_func_visits(self.funcs.len()) + concat_visits(
            self.exports,
            |export: (ExportKeyView, Exportee)| export_visits(export),
        )
    }

    /// The visits in a module: its dialect, its debug information, then its
    /// [uses](ModuleView::entity_visits).
    pub open spec fn visits(self) -> Seq<Visit> {
        self.dialect.visits() + self.debug_info.visits() + self.entity_visits()
    }
}

/// A traversal's client: it is shown the values of a module, one call for
/// each.
///
/// The `'a` is how long the values that it is shown live, so that a visitor
/// may keep references to them.
///
/// A method with a default may be given another body. Whatever else that
/// body does, it leaves the visitor's state as the default would: the state
/// speaks of the visits in what the visitor was shown, and of nothing more.
pub trait Visitor<'a>: Sized {
    /// What the visitor has gathered, as a mathematical value. A visitor
    /// that nothing is to be proved of has the unit type here.
    type State;

    /// What the visitor has gathered so far.
    spec fn state(&self) -> Self::State;

    /// What the visitor has gathered once it has come to `visit` in state
    /// `state`.
    spec fn after(state: Self::State, visit: Visit) -> Self::State;

    /// Called at each use of an attribute set.
    fn visit_attr_set_use(&mut self, attrs: AttrSet)
        ensures
            final(self).state() == Self::after(old(self).state(), Visit::Use(Use::AttrSet(attrs))),
    ;

    /// Called at each use of a type.
    fn visit_type_use(&mut self, ty: Type)
        ensures
            final(self).state() == Self::after(old(self).state(), Visit::Use(Use::Type(ty))),
    ;

    /// Called at each use of a constant.
    fn visit_const_use(&mut self, ct: Const)
        ensures
            final(self).state() == Self::after(old(self).state(), Visit::Use(Use::Const(ct))),
    ;

    /// Called at each use of a global variable of the module.
    fn visit_global_var_use(&mut self, gv: GlobalVar)
        ensures
            final(self).state() == Self::after(old(self).state(), Visit::Use(Use::GlobalVar(gv))),
    ;

    /// Called at each use of a function of the module.
    fn visit_func_use(&mut self, func: FuncRef)
        ensures
            final(self).state() == Self::after(old(self).state(), Visit::Use(Use::Func(func))),
    ;

    /// Shown the SPIR-V dialect of a module.
    fn visit_spv_dialect(&mut self, dialect: &spv::Dialect)
        ensures
            final(self).state() == Self::after(old(self).state(), Visit::SpvDialect(*dialect)),
    ;

    /// Shown the SPIR-V debug information of a module.
    fn visit_spv_module_debug_info(&mut self, debug_info: &spv::ModuleDebugInfo)
        ensures
            final(self).state() == Self::after(
                old(self).state(),
                Visit::SpvModuleDebugInfo(*debug_info),
            ),
    ;

    /// Shown one attribute of a set.
    fn visit_attr(&mut self, attr: &Attr)
        ensures
            final(self).state() == Self::after(old(self).state(), Visit::Attr(attr@)),
    ;

    /// Shown the import of an imported entity.
    fn visit_import(&mut self, import: &Import)
        ensures
            final(self).state() == Self::after(old(self).state(), Visit::Import(*import)),
    ;

    /// Shown a module: by default, descends into it.
    fn visit_module(&mut self, module: &'a Module)
        ensures
            final(self).state() == fold_visits(
                old(self).state(),
                module@.visits(),
                |s: Self::State, v: Visit| Self::after(s, v),
            ),
    {
        let ghost step = |s: Self::State, v: Visit| Self::after(s, v);
        let ghost start = self.state();
        proof {
            module.lemma_view();
        }
        self.visit_module_dialect(&module.dialect);
        let ghost mid = self.state();
        self.visit_module_debug_info(&module.debug_info);
        let ghost head = module@.dialect.visits() + module@.debug_info.visits();
        let ghost mut seen = head;
        proof {
            lemma_fold_then(
                start,
                module@.dialect.visits(),
                mid,
                module@.debug_info.visits(),
                self.state(),
                step,
            );
            assert(own_global_visits(0) == Seq::<Visit>::empty());
            assert(head + Seq::<Visit>::empty() == head);
        }
        let globals = module.globals.len();
        let mut i: usize = 0;
        while i < globals
            invariant
                i <= globals,
                step == |s: Self::State, v: Visit| Self::after(s, v),
                self.state() == fold_visits(start, seen, step),
                seen == head + own_global_visits(i as nat),
            decreases globals - i,
        {
            let ghost mid = self.state();
            let ghost visit = Visit::Use(Use::GlobalVar(GlobalVar(i)));
            self.visit_global_var_use(GlobalVar(i));
            proof {
                lemma_fold_then_one(start, seen, mid, visit, self.state(), step);
                seen = seen.push(visit);
                assert(own_global_visits((i + 1) as nat)
                    == own_global_visits(i as nat).push(visit));
            }
            i += 1;
        }
        let funcs = module.funcs.len();
        let ghost head = head + own_global_visits(globals as nat);
        proof {
            assert(own_func_visits(0) == Seq::<Visit>::empty());
            assert(head + Seq::<Visit>::empty() == head);
        }
        let mut j: usize = 0;
        while j < funcs
            invariant
                j <= funcs,
                step == |s: Self::State, v: Visit| Self::after(s, v),
                self.state() == fold_visits(start, seen, step),
                seen == head + own_func_visits(j as nat),
            decreases funcs - j,
        {
            let ghost mid = self.state();
            let ghost visit = Visit::Use(Use::Func(FuncRef(j)));
            self.visit_func_use(FuncRef(j));
            proof {
                lemma_fold_then_one(start, seen, mid, visit, self.state(), step);
                seen = seen.push(visit);
                assert(own_func_visits((j + 1) as nat) == own_func_visits(j as nat).push(visit));
            }
            j += 1;
        }
        let exports = module.exports();
        let ghost head = head + own_func_visits(funcs as nat);
        let ghost export_views = module@.exports;
        let ghost visits_of = |export: (ExportKeyView, Exportee)| export_visits(export);
        proof {
            lemma_concat_visits_none(visits_of);
            assert(export_views.take(0) == Seq::<(ExportKeyView, Exportee)>::empty());
            assert(head + Seq::<Visit>::empty() == head);
        }
        let mut k: usize = 0;
        while k < exports.len()
            invariant
                k <= exports.len(),
                step == |s: Self::State, v: Visit| Self::after(s, v),
                visits_of == |export: (ExportKeyView, Exportee)| export_visits(export),
                export_views == exports@.map_values(
                    |export: (ExportKey, Exportee)| (export.0@, export.1),
                ),
                self.state() == fold_visits(start, seen, step),
                seen == head + concat_visits(export_views.take(k as int), visits_of),
            decreases exports.len() - k,
        {
            let ghost before = seen;
            let ghost mid = self.state();
            let ghost mut here = Seq::<Visit>::empty();
            proof {
                lemma_fold_none(mid, step);
            }
            match &exports[k].0 {
                ExportKey::LinkName(_) => {},
                ExportKey::SpvEntryPoint { params: _, interface_global_vars } => {
                    let vars = interface_global_vars.as_slice();
                    let mut n: usize = 0;
                    while n < vars.len()
                        invariant
                            n <= vars.len(),
                            step == |s: Self::State, v: Visit| Self::after(s, v),
                            self.state() == fold_visits(mid, here, step),
                            here == global_var_visits(vars@.take(n as int)),
                        decreases vars.len() - n,
                    {
                        let ghost at = self.state();
                        let ghost visit = Visit::Use(Use::GlobalVar(vars@[n as int]));
                        self.visit_global_var_use(vars[n]);
                        proof {
                            lemma_fold_then_one(mid, here, at, visit, self.state(), step);
                            here = here.push(visit);
                            assert(vars@.take(n + 1) == vars@.take(n as int).push(vars@[n as int]));
                            assert(here == global_var_visits(vars@.take(n + 1)));
                        }
                        n += 1;
                    }
                    proof {
                        assert(vars@.take(vars.len() as int) == vars@);
                    }
                },
            }
            proof {
                assert(here == export_views[k as int].0.visits());
            }
            let ghost at = self.state();
            match exports[k].1 {
                Exportee::GlobalVar(gv) => {
                    self.visit_global_var_use(gv);
                    proof {
                        let visit = Visit::Use(Use::GlobalVar(gv));
                        lemma_fold_then_one(mid, here, at, visit, self.state(), step);
                        here = here.push(visit);
                    }
                },
                Exportee::Func(func) => {
                    self.visit_func_use(func);
                    proof {
                        let visit = Visit::Use(Use::Func(func));
                        lemma_fold_then_one(mid, here, at, visit, self.state(), step);
                        here = here.push(visit);
                    }
                },
            }
            proof {
                assert(here == export_visits(export_views[k as int]));
                lemma_fold_then(start, before, mid, here, self.state(), step);
                seen = before + here;
                assert(export_views.take(k + 1) == export_views.take(k as int).push(
                    export_views[k as int],
                ));
                lemma_concat_visits_push(
                    export_views.take(k as int),
                    export_views[k as int],
                    visits_of,
                );
            }
            k += 1;
        }
        proof {
            assert(export_views.take(exports.len() as int) == export_views);
            assert(seen == module@.visits());
        }
    }

    /// Shown the dialect of a module: by default, descends into it.
    fn visit_module_dialect(&mut self, dialect: &'a ModuleDialect)
        ensures
            final(self).state() == fold_visits(
                old(self).state(),
                dialect.visits(),
                |s: Self::State, v: Visit| Self::after(s, v),
            ),
    {
        match dialect {
            ModuleDialect::Spv(dialect) => {
                proof {
                    lemma_fold_one(
                        self.state(),
                        Visit::SpvDialect(*dialect),
                        |s: Self::State,
                        v: Visit| Self::after(s, v),
                    );
                }
                self.visit_spv_dialect(dialect)
            },
        }
    }

    /// Shown the debug information of a module: by default, descends into it.
    fn visit_module_debug_info(&mut self, debug_info: &'a ModuleDebugInfo)
        ensures
            final(self).state() == fold_visits(
                old(self).state(),
                debug_info.visits(),
                |s: Self::State, v: Visit| Self::after(s, v),
            ),
    {
        match debug_info {
            ModuleDebugInfo::Spv(debug_info) => {
                proof {
                    lemma_fold_one(
                        self.state(),
                        Visit::SpvModuleDebugInfo(*debug_info),
                        |s: Self::State, v: Visit| Self::after(s, v),
                    );
                }
                self.visit_spv_module_debug_info(debug_info)
            },
        }
    }

    /// Shown an attribute set: by default, descends into it.
    fn visit_attr_set_def(&mut self, attrs_def: &'a AttrSetDef)
        ensures
            final(self).state() == fold_visits(
                old(self).state(),
                attrs_def.visits(),
                |s: Self::State, v: Visit| Self::after(s, v),
            ),
    {
        let ghost step = |s: Self::State, v: Visit| Self::after(s, v);
        let ghost start = self.state();
        let ghost mut seen = Seq::<Visit>::empty();
        let attrs = attrs_def.as_slice();
        proof {
            lemma_fold_none(start, step);
            assert(attr_visits(attrs_def@.take(0)) == Seq::<Visit>::empty());
        }
        let mut i: usize = 0;
        while i < attrs.len()
            invariant
                i <= attrs.len(),
                step == |s: Self::State, v: Visit| Self::after(s, v),
                attrs@.map_values(|attr: Attr| attr@) == attrs_def@,
                self.state() == fold_visits(start, seen, step),
                seen == attr_visits(attrs_def@.take(i as int)),
            decreases attrs.len() - i,
        {
            let ghost mid = self.state();
            let ghost visit = Visit::Attr(attrs_def@[i as int]);
            self.visit_attr(&attrs[i]);
            proof {
                assert(attrs@[i as int]@ == attrs_def@[i as int]);
                lemma_fold_then_one(start, seen, mid, visit, self.state(), step);
                seen = seen.push(visit);
                assert(attrs_def@.take(i + 1) == attrs_def@.take(i as int).push(
                    attrs_def@[i as int],
                ));
                assert(seen == attr_visits(attrs_def@.take(i + 1)));
            }
            i += 1;
        }
        proof {
            assert(attrs_def@.take(attrs.len() as int) == attrs_def@);
        }
    }

    /// Shown a type: by default, descends into it.
    fn visit_type_def(&mut self, ty_def: &'a TypeDef)
        ensures
            final(self).state() == fold_visits(
                old(self).state(),
                ty_def.visits(),
                |s: Self::State, v: Visit| Self::after(s, v),
            ),
    {
        let ghost step = |s: Self::State, v: Visit| Self::after(s, v);
        let ghost start = self.state();
        let ghost visits_of = |arg: TypeCtorArg| type_ctor_arg_visits(arg);
        self.visit_attr_set_use(ty_def.attrs);
        let ghost head = seq![Visit::Use(Use::AttrSet(ty_def.attrs))];
        let ghost mut seen = head;
        let args = ty_def.ctor_args.as_slice();
        proof {
            lemma_fold_one(start, Visit::Use(Use::AttrSet(ty_def.attrs)), step);
            lemma_concat_visits_none(visits_of);
            assert(args@.take(0) == Seq::<TypeCtorArg>::empty());
            assert(seen + Seq::<Visit>::empty() == seen);
        }
        let mut i: usize = 0;
        while i < args.len()
            invariant
                i <= args.len(),
                step == |s: Self::State, v: Visit| Self::after(s, v),
                visits_of == |arg: TypeCtorArg| type_ctor_arg_visits(arg),
                self.state() == fold_visits(start, seen, step),
                seen == head + concat_visits(args@.take(i as int), visits_of),
            decreases args.len() - i,
        {
            let ghost mid = self.state();
            let ghost before = seen;
            match args[i] {
                TypeCtorArg::Type(ty) => {
                    self.visit_type_use(ty);
                    proof {
                        let visit = Visit::Use(Use::Type(ty));
                        lemma_fold_then_one(start, seen, mid, visit, self.state(), step);
                        seen = seen.push(visit);
                    }
                },
                TypeCtorArg::Const(ct) => {
                    self.visit_const_use(ct);
                    proof {
                        let visit = Visit::Use(Use::Const(ct));
                        lemma_fold_then_one(start, seen, mid, visit, self.state(), step);
                        seen = seen.push(visit);
                    }
                },
                TypeCtorArg::SpvImm(_) => {},
            }
            proof {
                assert(seen == before + type_ctor_arg_visits(args@[i as int]));
                assert(args@.take(i + 1) == args@.take(i as int).push(args@[i as int]));
                lemma_concat_visits_push(args@.take(i as int), args@[i as int], visits_of);
            }
            i += 1;
        }
        proof {
            assert(args@.take(args.len() as int) == args@);
        }
    }

    /// Shown a constant: by default, descends into it.
    fn visit_const_def(&mut self, ct_def: &'a ConstDef)
        ensures
            final(self).state() == fold_visits(
                old(self).state(),
                ct_def.visits(),
                |s: Self::State, v: Visit| Self::after(s, v),
            ),
    {
        let ghost step = |s: Self::State, v: Visit| Self::after(s, v);
        let ghost start = self.state();
        let ghost visits_of = |arg: ConstCtorArg| const_ctor_arg_visits(arg);
        self.visit_attr_set_use(ct_def.attrs);
        let ghost mid = self.state();
        self.visit_type_use(ct_def.ty);
        let ghost first = Visit::Use(Use::AttrSet(ct_def.attrs));
        let ghost second = Visit::Use(Use::Type(ct_def.ty));
        let ghost head = seq![first, second];
        let ghost mut seen = head;
        let args = ct_def.ctor_args.as_slice();
        proof {
            lemma_fold_one(start, first, step);
            lemma_fold_then_one(start, seq![first], mid, second, self.state(), step);
            assert(seq![first].push(second) == head);
            lemma_concat_visits_none(visits_of);
            assert(args@.take(0) == Seq::<ConstCtorArg>::empty());
            assert(seen + Seq::<Visit>::empty() == seen);
        }
        let mut i: usize = 0;
        while i < args.len()
            invariant
                i <= args.len(),
                step == |s: Self::State, v: Visit| Self::after(s, v),
                visits_of == |arg: ConstCtorArg| const_ctor_arg_visits(arg),
                self.state() == fold_visits(start, seen, step),
                seen == head + concat_visits(args@.take(i as int), visits_of),
            decreases args.len() - i,
        {
            let ghost mid = self.state();
            let ghost before = seen;
            match args[i] {
                ConstCtorArg::Const(ct) => {
                    self.visit_const_use(ct);
                    proof {
                        let visit = Visit::Use(Use::Const(ct));
                        lemma_fold_then_one(start, seen, mid, visit, self.state(), step);
                        seen = seen.push(visit);
                    }
                },
                ConstCtorArg::SpvImm(_) => {},
                ConstCtorArg::SpvUntrackedGlobalVarId(_) => {},
            }
            proof {
                assert(seen == before + const_ctor_arg_visits(args@[i as int]));
                assert(args@.take(i + 1) == args@.take(i as int).push(args@[i as int]));
                lemma_concat_visits_push(args@.take(i as int), args@[i as int], visits_of);
            }
            i += 1;
        }
        proof {
            assert(args@.take(args.len() as int) == args@);
        }
    }

    /// Shown a global variable: by default, descends into it.
    fn visit_global_var_decl(&mut self, gv_decl: &'a GlobalVarDecl)
        ensures
            final(self).state() == fold_visits(
                old(self).state(),
                gv_decl.visits(),
                |s: Self::State, v: Visit| Self::after(s, v),
            ),
    {
        let ghost step = |s: Self::State, v: Visit| Self::after(s, v);
        let ghost start = self.state();
        self.visit_attr_set_use(gv_decl.attrs);
        let ghost mid = self.state();
        self.visit_type_use(gv_decl.type_of_ptr_to);
        let ghost first = Visit::Use(Use::AttrSet(gv_decl.attrs));
        let ghost second = Visit::Use(Use::Type(gv_decl.type_of_ptr_to));
        let ghost head = seq![first, second];
        proof {
            lemma_fold_one(start, first, step);
            lemma_fold_then_one(start, seq![first], mid, second, self.state(), step);
            assert(seq![first].push(second) == head);
        }
        let ghost mid = self.state();
        match gv_decl.addr_space {
            AddrSpace::SpvStorageClass(_) => {},
        }
        match &gv_decl.def {
            DeclDef::Imported(import) => {
                self.visit_import(import);
                proof {
                    lemma_fold_then_one(
                        start,
                        head,
                        mid,
                        Visit::Import(*import),
                        self.state(),
                        step,
                    );
                    assert(head.push(Visit::Import(*import))
                        == head + seq![Visit::Import(*import)]);
                }
            },
            DeclDef::Present(Global::Misc(misc)) => {
                self.visit_misc(misc);
                proof {
                    lemma_fold_then(start, head, mid, misc.visits(), self.state(), step);
                }
            },
        }
    }

    /// Shown a function: by default, descends into it.
    fn visit_func_decl(&mut self, func_decl: &'a FuncDecl)
        ensures
            final(self).state() == fold_visits(
                old(self).state(),
                func_decl.visits(),
                |s: Self::State, v: Visit| Self::after(s, v),
            ),
    {
        let ghost step = |s: Self::State, v: Visit| Self::after(s, v);
        let ghost start = self.state();
        self.visit_attr_set_use(func_decl.attrs);
        let ghost mid1 = self.state();
        self.visit_type_use(func_decl.ret_type);
        let ghost mid2 = self.state();
        self.visit_type_use(func_decl.ty);
        let ghost first = Visit::Use(Use::AttrSet(func_decl.attrs));
        let ghost second = Visit::Use(Use::Type(func_decl.ret_type));
        let ghost third = Visit::Use(Use::Type(func_decl.ty));
        let ghost head = seq![first, second, third];
        proof {
            lemma_fold_one(start, first, step);
            lemma_fold_then_one(start, seq![first], mid1, second, mid2, step);
            lemma_fold_then_one(start, seq![first].push(second), mid2, third, self.state(), step);
            assert(seq![first].push(second).push(third) == head);
        }
        let ghost mid = self.state();
        match &func_decl.def {
            DeclDef::Imported(import) => {
                self.visit_import(import);
                proof {
                    lemma_fold_then_one(
                        start,
                        head,
                        mid,
                        Visit::Import(*import),
                        self.state(),
                        step,
                    );
                    assert(head.push(Visit::Import(*import))
                        == head + seq![Visit::Import(*import)]);
                }
            },
            DeclDef::Present(func) => {
                let ghost visits_of = |inst: Misc| inst.visits();
                let ghost mut seen = head;
                proof {
                    lemma_concat_visits_none(visits_of);
                    assert(func.insts@.take(0) == Seq::<Misc>::empty());
                    assert(seen + Seq::<Visit>::empty() == seen);
                }
                let mut i: usize = 0;
                while i < func.insts.len()
                    invariant
                        i <= func.insts.len(),
                        step == |s: Self::State, v: Visit| Self::after(s, v),
                        visits_of == |inst: Misc| inst.visits(),
                        self.state() == fold_visits(start, seen, step),
                        seen == head + concat_visits(func.insts@.take(i as int), visits_of),
                    decreases func.insts.len() - i,
                {
                    let ghost mid = self.state();
                    self.visit_misc(&func.insts[i]);
                    proof {
                        lemma_fold_then(
                            start,
                            seen,
                            mid,
                            func.insts@[i as int].visits(),
                            self.state(),
                            step,
                        );
                        seen = seen + func.insts@[i as int].visits();
                        assert(func.insts@.take(i + 1) == func.insts@.take(i as int).push(
                            func.insts@[i as int],
                        ));
                        lemma_concat_visits_push(
                            func.insts@.take(i as int),
                            func.insts@[i as int],
                            visits_of,
                        );
                    }
                    i += 1;
                }
                proof {
                    assert(func.insts@.take(func.insts.len() as int) == func.insts@);
                }
            },
        }
    }

    /// Shown an instruction: by default, descends into it.
    fn visit_misc(&mut self, misc: &'a Misc)
        ensures
            final(self).state() == fold_visits(
                old(self).state(),
                misc.visits(),
                |s: Self::State, v: Visit| Self::after(s, v),
            ),
    {
        let ghost step = |s: Self::State, v: Visit| Self::after(s, v);
        let ghost start = self.state();
        let ghost visits_of = |input: MiscInput| input.visits();
        self.visit_attr_set_use(misc.attrs);
        let ghost mid = self.state();
        match misc.kind {
            MiscKind::SpvInst(_) => {},
        }
        match &misc.output {
            Some(output) => {
                self.visit_misc_output(output);
            },
            None => {
                proof {
                    lemma_fold_none(mid, step);
                }
            },
        }
        let ghost first = Visit::Use(Use::AttrSet(misc.attrs));
        let ghost head = seq![first] + output_visits(misc.output);
        let ghost mut seen = head;
        let inputs = misc.inputs.as_slice();
        proof {
            lemma_fold_one(start, first, step);
            lemma_fold_then(
                start,
                seq![first],
                mid,
                output_visits(misc.output),
                self.state(),
                step,
            );
            lemma_concat_visits_none(visits_of);
            assert(inputs@.take(0) == Seq::<MiscInput>::empty());
            assert(seen + Seq::<Visit>::empty() == seen);
        }
        let mut i: usize = 0;
        while i < inputs.len()
            invariant
                i <= inputs.len(),
                step == |s: Self::State, v: Visit| Self::after(s, v),
                visits_of == |input: MiscInput| input.visits(),
                self.state() == fold_visits(start, seen, step),
                seen == head + concat_visits(inputs@.take(i as int), visits_of),
            decreases inputs.len() - i,
        {
            let ghost mid = self.state();
            self.visit_misc_input(&inputs[i]);
            proof {
                lemma_fold_then(start, seen, mid, inputs@[i as int].visits(), self.state(), step);
                seen = seen + inputs@[i as int].visits();
                assert(inputs@.take(i + 1) == inputs@.take(i as int).push(inputs@[i as int]));
                lemma_concat_visits_push(inputs@.take(i as int), inputs@[i as int], visits_of);
            }
            i += 1;
        }
        proof {
            assert(inputs@.take(inputs.len() as int) == inputs@);
        }
    }

    /// Shown what an instruction yields: by default, descends into it.
    fn visit_misc_output(&mut self, output: &'a MiscOutput)
        ensures
            final(self).state() == fold_visits(
                old(self).state(),
                output.visits(),
                |s: Self::State, v: Visit| Self::after(s, v),
            ),
    {
        let ghost step = |s: Self::State, v: Visit| Self::after(s, v);
        match *output {
            MiscOutput::SpvResult { result_type: Some(ty), result_id: _ } => {
                proof {
                    lemma_fold_one(self.state(), Visit::Use(Use::Type(ty)), step);
                }
                self.visit_type_use(ty);
            },
            MiscOutput::SpvResult { result_type: None, result_id: _ } => {
                proof {
                    lemma_fold_none(self.state(), step);
                }
            },
        }
    }

    /// Shown an input of an instruction: by default, descends into it.
    fn visit_misc_input(&mut self, input: &'a MiscInput)
        ensures
            final(self).state() == fold_visits(
                old(self).state(),
                input.visits(),
                |s: Self::State, v: Visit| Self::after(s, v),
            ),
    {
        let ghost step = |s: Self::State, v: Visit| Self::after(s, v);
        proof {
            lemma_fold_none(self.state(), step);
        }
        match *input {
            MiscInput::Type(ty) => {
                proof {
                    lemma_fold_one(self.state(), Visit::Use(Use::Type(ty)), step);
                }
                self.visit_type_use(ty);
            },
            MiscInput::Const(ct) => {
                proof {
                    lemma_fold_one(self.state(), Visit::Use(Use::Const(ct)), step);
                }
                self.visit_const_use(ct);
            },
            MiscInput::SpvImm(_)
            | MiscInput::SpvUntrackedId(_)
            | MiscInput::SpvExtInstImport(_) => {},
        }
    }
}

/// A value that a visitor can descend into.
///
/// The descent shows the visitor each part of the value, through the
/// visitor's method for that part, and goes no deeper itself: it is one level
/// of a traversal, and the visitor's methods make the rest.
pub trait InnerVisit {
    /// The visits in the value, in the order in which a descent comes to them.
    spec fn inner_visits(&self) -> Seq<Visit>;

    /// Shows `visitor` each part of the value, in order.
    fn inner_visit_with<'a, V: Visitor<'a>>(&'a self, visitor: &mut V)
        ensures
            final(visitor).state() == fold_visits(
                old(visitor).state(),
                self.inner_visits(),
                |s: V::State, v: Visit| V::after(s, v),
            ),
    ;
}

/// [`InnerVisit`] for a visitor type that is fixed by the trait, so that a
/// value to descend into can be held without its type.
pub trait DynInnerVisit<'a, V> {
    /// Shows `visitor` each part of the value, in order.
    fn dyn_inner_visit_with(&'a self, visitor: &mut V);
}

impl<'a, T: InnerVisit, V: Visitor<'a>> DynInnerVisit<'a, V> for T {
    fn dyn_inner_visit_with(&'a self, visitor: &mut V)
        ensures
            final(visitor).state() == fold_visits(
                old(visitor).state(),
                self.inner_visits(),
                |s: V::State, v: Visit| V::after(s, v),
            ),
    {
        self.inner_visit_with(visitor);
    }
}

impl InnerVisit for Module {
    open spec fn inner_visits(&self) -> Seq<Visit> {
        self@.visits()
    }

    fn inner_visit_with<'a, V: Visitor<'a>>(&'a self, visitor: &mut V) {
        let ghost step = |s: V::State, v: Visit| V::after(s, v);
        let ghost start = visitor.state();
        proof {
            self.lemma_view();
        }
        visitor.visit_module_dialect(&self.dialect);
        let ghost mid = visitor.state();
        visitor.visit_module_debug_info(&self.debug_info);
        let ghost head = self@.dialect.visits() + self@.debug_info.visits();
        let ghost mut seen = head;
        proof {
            lemma_fold_then(
                start,
                self@.dialect.visits(),
                mid,
                self@.debug_info.visits(),
                visitor.state(),
                step,
            );
            assert(own_global_visits(0) == Seq::<Visit>::empty());
            assert(head + Seq::<Visit>::empty() == head);
        }
        let globals = self.globals.len();
        let mut i: usize = 0;
        while i < globals
            invariant
                i <= globals,
                step == |s: V::State, v: Visit| V::after(s, v),
                visitor.state() == fold_visits(start, seen, step),
                seen == head + own_global_visits(i as nat),
            decreases globals - i,
        {
            let ghost mid = visitor.state();
            let ghost visit = Visit::Use(Use::GlobalVar(GlobalVar(i)));
            visitor.visit_global_var_use(GlobalVar(i));
            proof {
                lemma_fold_then_one(start, seen, mid, visit, visitor.state(), step);
                seen = seen.push(visit);
                assert(own_global_visits((i + 1) as nat)
                    == own_global_visits(i as nat).push(visit));
            }
            i += 1;
        }
        let funcs = self.funcs.len();
        let ghost head = head + own_global_visits(globals as nat);
        proof {
            assert(own_func_visits(0) == Seq::<Visit>::empty());
            assert(head + Seq::<Visit>::empty() == head);
        }
        let mut j: usize = 0;
        while j < funcs
            invariant
                j <= funcs,
                step == |s: V::State, v: Visit| V::after(s, v),
                visitor.state() == fold_visits(start, seen, step),
                seen == head + own_func_visits(j as nat),
            decreases funcs - j,
        {
            let ghost mid = visitor.state();
            let ghost visit = Visit::Use(Use::Func(FuncRef(j)));
            visitor.visit_func_use(FuncRef(j));
            proof {
                lemma_fold_then_one(start, seen, mid, visit, visitor.state(), step);
                seen = seen.push(visit);
                assert(own_func_visits((j + 1) as nat) == own_func_visits(j as nat).push(visit));
            }
            j += 1;
        }
        let exports = self.exports();
        let ghost head = head + own_func_visits(funcs as nat);
        let ghost export_views = self@.exports;
        let ghost visits_of = |export: (ExportKeyView, Exportee)| export_visits(export);
        proof {
            lemma_concat_visits_none(visits_of);
            assert(export_views.take(0) == Seq::<(ExportKeyView, Exportee)>::empty());
            assert(head + Seq::<Visit>::empty() == head);
        }
        let mut k: usize = 0;
        while k < exports.len()
            invariant
                k <= exports.len(),
                step == |s: V::State, v: Visit| V::after(s, v),
                visits_of == |export: (ExportKeyView, Exportee)| export_visits(export),
                export_views == exports@.map_values(
                    |export: (ExportKey, Exportee)| (export.0@, export.1),
                ),
                visitor.state() == fold_visits(start, seen, step),
                seen == head + concat_visits(export_views.take(k as int), visits_of),
            decreases exports.len() - k,
        {
            let ghost mid = visitor.state();
            exports[k].0.inner_visit_with(visitor);
            let ghost at = visitor.state();
            exports[k].1.inner_visit_with(visitor);
            proof {
                let export = export_views[k as int];
                lemma_fold_then(
                    mid,
                    export.0.visits(),
                    at,
                    export.1.visits(),
                    visitor.state(),
                    step,
                );
                lemma_fold_then(start, seen, mid, export_visits(export), visitor.state(), step);
                seen = seen + export_visits(export);
                assert(export_views.take(k + 1) == export_views.take(k as int).push(export));
                lemma_concat_visits_push(export_views.take(k as int), export, visits_of);
            }
            k += 1;
        }
        proof {
            assert(export_views.take(exports.len() as int) == export_views);
            assert(seen == self@.visits());
        }
    }
}

impl InnerVisit for ModuleDialect {
    open spec fn inner_visits(&self) -> Seq<Visit> {
        self.visits()
    }

    fn inner_visit_with<'a, V: Visitor<'a>>(&'a self, visitor: &mut V) {
        match self {
            ModuleDialect::Spv(dialect) => {
                proof {
                    lemma_fold_one(
                        visitor.state(),
                        Visit::SpvDialect(*dialect),
                        |s: V::State,
                        v: Visit| V::after(s, v),
                    );
                }
                visitor.visit_spv_dialect(dialect)
            },
        }
    }
}

impl InnerVisit for ModuleDebugInfo {
    open spec fn inner_visits(&self) -> Seq<Visit> {
        self.visits()
    }

    fn inner_visit_with<'a, V: Visitor<'a>>(&'a self, visitor: &mut V) {
        match self {
            ModuleDebugInfo::Spv(debug_info) => {
                proof {
                    lemma_fold_one(
                        visitor.state(),
                        Visit::SpvModuleDebugInfo(*debug_info),
                        |s: V::State, v: Visit| V::after(s, v),
                    );
                }
                visitor.visit_spv_module_debug_info(debug_info);
            },
        }
    }
}

impl InnerVisit for ExportKey {
    open spec fn inner_visits(&self) -> Seq<Visit> {
        self@.visits()
    }

    fn inner_visit_with<'a, V: Visitor<'a>>(&'a self, visitor: &mut V) {
        let ghost step = |s: V::State, v: Visit| V::after(s, v);
        let ghost start = visitor.state();
        proof {
            lemma_fold_none(start, step);
        }
        match self {
            ExportKey::LinkName(_) => {},
            ExportKey::SpvEntryPoint { params: _, interface_global_vars } => {
                let vars = interface_global_vars.as_slice();
                let ghost mut seen = Seq::<Visit>::empty();
                let mut i: usize = 0;
                while i < vars.len()
                    invariant
                        i <= vars.len(),
                        step == |s: V::State, v: Visit| V::after(s, v),
                        visitor.state() == fold_visits(start, seen, step),
                        seen == global_var_visits(vars@.take(i as int)),
                    decreases vars.len() - i,
                {
                    let ghost mid = visitor.state();
                    visitor.visit_global_var_use(vars[i]);
                    proof {
                        lemma_fold_then_one(
                            start,
                            seen,
                            mid,
                            Visit::Use(Use::GlobalVar(vars@[i as int])),
                            visitor.state(),
                            step,
                        );
                        seen = seen.push(Visit::Use(Use::GlobalVar(vars@[i as int])));
                        assert(vars@.take(i + 1) == vars@.take(i as int).push(vars@[i as int]));
                        assert(seen == global_var_visits(vars@.take(i + 1)));
                    }
                    i += 1;
                }
                proof {
                    assert(vars@.take(vars.len() as int) == vars@);
                }
            },
        }
    }
}

impl InnerVisit for Exportee {
    open spec fn inner_visits(&self) -> Seq<Visit> {
        self.visits()
    }

    fn inner_visit_with<'a, V: Visitor<'a>>(&'a self, visitor: &mut V) {
        let ghost step = |s: V::State, v: Visit| V::after(s, v);
        match *self {
            Exportee::GlobalVar(gv) => {
                proof {
                    lemma_fold_one(visitor.state(), Visit::Use(Use::GlobalVar(gv)), step);
                }
                visitor.visit_global_var_use(gv)
            },
            Exportee::Func(func) => {
                proof {
                    lemma_fold_one(visitor.state(), Visit::Use(Use::Func(func)), step);
                }
                visitor.visit_func_use(func)
            },
        }
    }
}

impl InnerVisit for AttrSetDef {
    open spec fn inner_visits(&self) -> Seq<Visit> {
        self.visits()
    }

    fn inner_visit_with<'a, V: Visitor<'a>>(&'a self, visitor: &mut V) {
        let ghost step = |s: V::State, v: Visit| V::after(s, v);
        let ghost start = visitor.state();
        let ghost mut seen = Seq::<Visit>::empty();
        let attrs = self.as_slice();
        proof {
            lemma_fold_none(start, step);
            assert(attr_visits(self@.take(0)) == Seq::<Visit>::empty());
        }
        let mut i: usize = 0;
        while i < attrs.len()
            invariant
                i <= attrs.len(),
                step == |s: V::State, v: Visit| V::after(s, v),
                attrs@.map_values(|attr: Attr| attr@) == self@,
                visitor.state() == fold_visits(start, seen, step),
                seen == attr_visits(self@.take(i as int)),
            decreases attrs.len() - i,
        {
            let ghost mid = visitor.state();
            let ghost visit = Visit::Attr(self@[i as int]);
            visitor.visit_attr(&attrs[i]);
            proof {
                assert(attrs@[i as int]@ == self@[i as int]);
                lemma_fold_then_one(start, seen, mid, visit, visitor.state(), step);
                seen = seen.push(visit);
                assert(self@.take(i + 1) == self@.take(i as int).push(self@[i as int]));
                assert(seen == attr_visits(self@.take(i + 1)));
            }
            i += 1;
        }
        proof {
            assert(self@.take(attrs.len() as int) == self@);
        }
    }
}

impl InnerVisit for TypeDef {
    open spec fn inner_visits(&self) -> Seq<Visit> {
        self.visits()
    }

    fn inner_visit_with<'a, V: Visitor<'a>>(&'a self, visitor: &mut V) {
        let ghost step = |s: V::State, v: Visit| V::after(s, v);
        let ghost start = visitor.state();
        let ghost visits_of = |arg: TypeCtorArg| type_ctor_arg_visits(arg);
        visitor.visit_attr_set_use(self.attrs);
        match self.ctor {
            TypeCtor::SpvInst(_) => {},
        }
        let ghost head = seq![Visit::Use(Use::AttrSet(self.attrs))];
        let ghost mut seen = head;
        let args = self.ctor_args.as_slice();
        proof {
            lemma_fold_one(start, Visit::Use(Use::AttrSet(self.attrs)), step);
            lemma_concat_visits_none(visits_of);
            assert(args@.take(0) == Seq::<TypeCtorArg>::empty());
            assert(seen + Seq::<Visit>::empty() == seen);
        }
        let mut i: usize = 0;
        while i < args.len()
            invariant
                i <= args.len(),
                step == |s: V::State, v: Visit| V::after(s, v),
                visits_of == |arg: TypeCtorArg| type_ctor_arg_visits(arg),
                visitor.state() == fold_visits(start, seen, step),
                seen == head + concat_visits(args@.take(i as int), visits_of),
            decreases args.len() - i,
        {
            let ghost mid = visitor.state();
            let ghost before = seen;
            match args[i] {
                TypeCtorArg::Type(ty) => {
                    visitor.visit_type_use(ty);
                    proof {
                        lemma_fold_then_one(
                            start,
                            seen,
                            mid,
                            Visit::Use(Use::Type(ty)),
                            visitor.state(),
                            step,
                        );
                        seen = seen.push(Visit::Use(Use::Type(ty)));
                    }
                },
                TypeCtorArg::Const(ct) => {
                    visitor.visit_const_use(ct);
                    proof {
                        lemma_fold_then_one(
                            start,
                            seen,
                            mid,
                            Visit::Use(Use::Const(ct)),
                            visitor.state(),
                            step,
                        );
                        seen = seen.push(Visit::Use(Use::Const(ct)));
                    }
                },
                TypeCtorArg::SpvImm(_) => {},
            }
            proof {
                assert(seen == before + type_ctor_arg_visits(args@[i as int]));
                assert(args@.take(i + 1) == args@.take(i as int).push(args@[i as int]));
                lemma_concat_visits_push(args@.take(i as int), args@[i as int], visits_of);
            }
            i += 1;
        }
        proof {
            assert(args@.take(args.len() as int) == args@);
        }
    }
}

impl InnerVisit for ConstDef {
    open spec fn inner_visits(&self) -> Seq<Visit> {
        self.visits()
    }

    fn inner_visit_with<'a, V: Visitor<'a>>(&'a self, visitor: &mut V) {
        let ghost step = |s: V::State, v: Visit| V::after(s, v);
        let ghost start = visitor.state();
        let ghost visits_of = |arg: ConstCtorArg| const_ctor_arg_visits(arg);
        visitor.visit_attr_set_use(self.attrs);
        let ghost mid = visitor.state();
        visitor.visit_type_use(self.ty);
        match self.ctor {
            ConstCtor::SpvInst(_) => {},
        }
        let ghost head = seq![Visit::Use(Use::AttrSet(self.attrs)), Visit::Use(Use::Type(self.ty))];
        let ghost mut seen = head;
        let args = self.ctor_args.as_slice();
        proof {
            lemma_fold_one(start, Visit::Use(Use::AttrSet(self.attrs)), step);
            lemma_fold_then_one(
                start,
                seq![Visit::Use(Use::AttrSet(self.attrs))],
                mid,
                Visit::Use(Use::Type(self.ty)),
                visitor.state(),
                step,
            );
            assert(seq![Visit::Use(Use::AttrSet(self.attrs))].push(Visit::Use(Use::Type(self.ty)))
                == head);
            lemma_concat_visits_none(visits_of);
            assert(args@.take(0) == Seq::<ConstCtorArg>::empty());
            assert(seen + Seq::<Visit>::empty() == seen);
        }
        let mut i: usize = 0;
        while i < args.len()
            invariant
                i <= args.len(),
                step == |s: V::State, v: Visit| V::after(s, v),
                visits_of == |arg: ConstCtorArg| const_ctor_arg_visits(arg),
                visitor.state() == fold_visits(start, seen, step),
                seen == head + concat_visits(args@.take(i as int), visits_of),
            decreases args.len() - i,
        {
            let ghost mid = visitor.state();
            let ghost before = seen;
            match args[i] {
                ConstCtorArg::Const(ct) => {
                    visitor.visit_const_use(ct);
                    proof {
                        lemma_fold_then_one(
                            start,
                            seen,
                            mid,
                            Visit::Use(Use::Const(ct)),
                            visitor.state(),
                            step,
                        );
                        seen = seen.push(Visit::Use(Use::Const(ct)));
                    }
                },
                ConstCtorArg::SpvImm(_) => {},
                ConstCtorArg::SpvUntrackedGlobalVarId(_) => {},
            }
            proof {
                assert(seen == before + const_ctor_arg_visits(args@[i as int]));
                assert(args@.take(i + 1) == args@.take(i as int).push(args@[i as int]));
                lemma_concat_visits_push(args@.take(i as int), args@[i as int], visits_of);
            }
            i += 1;
        }
        proof {
            assert(args@.take(args.len() as int) == args@);
        }
    }
}

impl<D: InnerVisit> InnerVisit for DeclDef<D> {
    /// An entity's import, or the visits in its definition: one or the
    /// other, as the entity is imported or present.
    open spec fn inner_visits(&self) -> Seq<Visit> {
        match *self {
            DeclDef::Imported(import) => seq![Visit::Import(import)],
            DeclDef::Present(def) => def.inner_visits(),
        }
    }

    fn inner_visit_with<'a, V: Visitor<'a>>(&'a self, visitor: &mut V) {
        match self {
            DeclDef::Imported(import) => {
                proof {
                    lemma_fold_one(
                        visitor.state(),
                        Visit::Import(*import),
                        |s: V::State,
                        v: Visit| V::after(s, v),
                    );
                }
                visitor.visit_import(import)
            },
            DeclDef::Present(def) => def.inner_visit_with(visitor),
        }
    }
}

impl InnerVisit for GlobalVarDecl {
    open spec fn inner_visits(&self) -> Seq<Visit> {
        self.visits()
    }

    fn inner_visit_with<'a, V: Visitor<'a>>(&'a self, visitor: &mut V) {
        let ghost step = |s: V::State, v: Visit| V::after(s, v);
        let ghost start = visitor.state();
        visitor.visit_attr_set_use(self.attrs);
        let ghost mid = visitor.state();
        visitor.visit_type_use(self.type_of_ptr_to);
        match self.addr_space {
            AddrSpace::SpvStorageClass(_) => {},
        }
        let ghost first = Visit::Use(Use::AttrSet(self.attrs));
        let ghost second = Visit::Use(Use::Type(self.type_of_ptr_to));
        let ghost head = seq![first, second];
        proof {
            lemma_fold_one(start, first, step);
            lemma_fold_then_one(start, seq![first], mid, second, visitor.state(), step);
            assert(seq![first].push(second) == head);
        }
        let ghost mid = visitor.state();
        self.def.inner_visit_with(visitor);
        proof {
            lemma_fold_then(start, head, mid, self.def.inner_visits(), visitor.state(), step);
        }
    }
}

impl InnerVisit for Global {
    open spec fn inner_visits(&self) -> Seq<Visit> {
        self.visits()
    }

    fn inner_visit_with<'a, V: Visitor<'a>>(&'a self, visitor: &mut V) {
        match self {
            Global::Misc(misc) => visitor.visit_misc(misc),
        }
    }
}

impl InnerVisit for FuncDecl {
    open spec fn inner_visits(&self) -> Seq<Visit> {
        self.visits()
    }

    fn inner_visit_with<'a, V: Visitor<'a>>(&'a self, visitor: &mut V) {
        let ghost step = |s: V::State, v: Visit| V::after(s, v);
        let ghost start = visitor.state();
        visitor.visit_attr_set_use(self.attrs);
        let ghost mid1 = visitor.state();
        visitor.visit_type_use(self.ret_type);
        let ghost mid2 = visitor.state();
        visitor.visit_type_use(self.ty);
        let ghost first = Visit::Use(Use::AttrSet(self.attrs));
        let ghost second = Visit::Use(Use::Type(self.ret_type));
        let ghost third = Visit::Use(Use::Type(self.ty));
        let ghost head = seq![first, second, third];
        proof {
            lemma_fold_one(start, first, step);
            lemma_fold_then_one(start, seq![first], mid1, second, mid2, step);
            lemma_fold_then_one(
                start,
                seq![first].push(second),
                mid2,
                third,
                visitor.state(),
                step,
            );
            assert(seq![first].push(second).push(third) == head);
        }
        let ghost mid = visitor.state();
        self.def.inner_visit_with(visitor);
        proof {
            lemma_fold_then(start, head, mid, self.def.inner_visits(), visitor.state(), step);
        }
    }
}

impl InnerVisit for Func {
    open spec fn inner_visits(&self) -> Seq<Visit> {
        self.visits()
    }

    fn inner_visit_with<'a, V: Visitor<'a>>(&'a self, visitor: &mut V) {
        let ghost step = |s: V::State, v: Visit| V::after(s, v);
        let ghost start = visitor.state();
        let ghost visits_of = |inst: Misc| inst.visits();
        let ghost mut seen = Seq::<Visit>::empty();
        proof {
            lemma_fold_none(start, step);
            lemma_concat_visits_none(visits_of);
            assert(self.insts@.take(0) == Seq::<Misc>::empty());
        }
        let mut i: usize = 0;
        while i < self.insts.len()
            invariant
                i <= self.insts.len(),
                step == |s: V::State, v: Visit| V::after(s, v),
                visits_of == |inst: Misc| inst.visits(),
                visitor.state() == fold_visits(start, seen, step),
                seen == concat_visits(self.insts@.take(i as int), visits_of),
            decreases self.insts.len() - i,
        {
            let ghost mid = visitor.state();
            visitor.visit_misc(&self.insts[i]);
            proof {
                lemma_fold_then(
                    start,
                    seen,
                    mid,
                    self.insts@[i as int].visits(),
                    visitor.state(),
                    step,
                );
                seen = seen + self.insts@[i as int].visits();
                assert(self.insts@.take(i + 1) == self.insts@.take(i as int).push(
                    self.insts@[i as int],
                ));
                lemma_concat_visits_push(
                    self.insts@.take(i as int),
                    self.insts@[i as int],
                    visits_of,
                );
            }
            i += 1;
        }
        proof {
            assert(self.insts@.take(self.insts.len() as int) == self.insts@);
        }
    }
}

impl InnerVisit for Misc {
    open spec fn inner_visits(&self) -> Seq<Visit> {
        self.visits()
    }

    fn inner_visit_with<'a, V: Visitor<'a>>(&'a self, visitor: &mut V) {
        let ghost step = |s: V::State, v: Visit| V::after(s, v);
        let ghost start = visitor.state();
        let ghost visits_of = |input: MiscInput| input.visits();
        visitor.visit_attr_set_use(self.attrs);
        let ghost mid = visitor.state();
        match self.kind {
            MiscKind::SpvInst(_) => {},
        }
        match &self.output {
            Some(output) => {
                visitor.visit_misc_output(output);
            },
            None => {
                proof {
                    lemma_fold_none(mid, step);
                }
            },
        }
        let ghost head = seq![Visit::Use(Use::AttrSet(self.attrs))] + output_visits(self.output);
        let ghost mut seen = head;
        let inputs = self.inputs.as_slice();
        proof {
            lemma_fold_one(start, Visit::Use(Use::AttrSet(self.attrs)), step);
            lemma_fold_then(
                start,
                seq![Visit::Use(Use::AttrSet(self.attrs))],
                mid,
                output_visits(self.output),
                visitor.state(),
                step,
            );
            lemma_concat_visits_none(visits_of);
            assert(inputs@.take(0) == Seq::<MiscInput>::empty());
            assert(seen + Seq::<Visit>::empty() == seen);
        }
        let mut i: usize = 0;
        while i < inputs.len()
            invariant
                i <= inputs.len(),
                step == |s: V::State, v: Visit| V::after(s, v),
                visits_of == |input: MiscInput| input.visits(),
                visitor.state() == fold_visits(start, seen, step),
                seen == head + concat_visits(inputs@.take(i as int), visits_of),
            decreases inputs.len() - i,
        {
            let ghost mid = visitor.state();
            visitor.visit_misc_input(&inputs[i]);
            proof {
                lemma_fold_then(
                    start,
                    seen,
                    mid,
                    inputs@[i as int].visits(),
                    visitor.state(),
                    step,
                );
                seen = seen + inputs@[i as int].visits();
                assert(inputs@.take(i + 1) == inputs@.take(i as int).push(inputs@[i as int]));
                lemma_concat_visits_push(inputs@.take(i as int), inputs@[i as int], visits_of);
            }
            i += 1;
        }
        proof {
            assert(inputs@.take(inputs.len() as int) == inputs@);
        }
    }
}

impl InnerVisit for MiscOutput {
    open spec fn inner_visits(&self) -> Seq<Visit> {
        self.visits()
    }

    fn inner_visit_with<'a, V: Visitor<'a>>(&'a self, visitor: &mut V) {
        let ghost step = |s: V::State, v: Visit| V::after(s, v);
        match *self {
            MiscOutput::SpvResult { result_type: Some(ty), result_id: _ } => {
                proof {
                    lemma_fold_one(visitor.state(), Visit::Use(Use::Type(ty)), step);
                }
                visitor.visit_type_use(ty);
            },
            MiscOutput::SpvResult { result_type: None, result_id: _ } => {
                proof {
                    lemma_fold_none(visitor.state(), step);
                }
            },
        }
    }
}

impl InnerVisit for MiscInput {
    open spec fn inner_visits(&self) -> Seq<Visit> {
        self.visits()
    }

    fn inner_visit_with<'a, V: Visitor<'a>>(&'a self, visitor: &mut V) {
        let ghost step = |s: V::State, v: Visit| V::after(s, v);
        proof {
            lemma_fold_none(visitor.state(), step);
        }
        match *self {
            MiscInput::Type(ty) => {
                proof {
                    lemma_fold_one(visitor.state(), Visit::Use(Use::Type(ty)), step);
                }
                visitor.visit_type_use(ty);
            },
            MiscInput::Const(ct) => {
                proof {
                    lemma_fold_one(visitor.state(), Visit::Use(Use::Const(ct)), step);
                }
                visitor.visit_const_use(ct);
            },
            MiscInput::SpvImm(_)
            | MiscInput::SpvUntrackedId(_)
            | MiscInput::SpvExtInstImport(_) => {},
        }
    }
}

/// The global variables `0` to `count - 1`, in order.
pub open spec fn first_global_vars(count: nat) -> Seq<GlobalVar> {
    Seq::new(count, |i: int| GlobalVar(i as usize))
}

/// The functions `0` to `count - 1`, in order.
pub open spec fn first_funcs(count: nat) -> Seq<FuncRef> {
    Seq::new(count, |i: int| FuncRef(i as usize))
}

/// A visitor that keeps the uses of global variables and of functions that
/// it comes to, in order, and passes over everything else.
#[derive(Debug)]
pub struct EntityUses {
    pub global_vars: Vec<GlobalVar>,
    pub funcs: Vec<FuncRef>,
}

impl EntityUses {
    /// The visitor before it was shown anything.
    pub fn new() -> (visitor: EntityUses)
        ensures
            visitor.global_vars@ == Seq::<GlobalVar>::empty(),
            visitor.funcs@ == Seq::<FuncRef>::empty(),
    {
        EntityUses { global_vars: Vec::new(), funcs: Vec::new() }
    }
}

impl<'a> Visitor<'a> for EntityUses {
    type State = (Seq<GlobalVar>, Seq<FuncRef>);

    open spec fn state(&self) -> (Seq<GlobalVar>, Seq<FuncRef>) {
        (self.global_vars@, self.funcs@)
    }

    open spec fn after(state: (Seq<GlobalVar>, Seq<FuncRef>), visit: Visit) -> (
        Seq<GlobalVar>,
        Seq<FuncRef>,
    ) {
        match visit {
            Visit::Use(Use::GlobalVar(gv)) => (state.0.push(gv), state.1),
            Visit::Use(Use::Func(func)) => (state.0, state.1.push(func)),
            _ => state,
        }
    }

    fn visit_attr_set_use(&mut self, attrs: AttrSet) {
    }

    fn visit_type_use(&mut self, ty: Type) {
    }

    fn visit_const_use(&mut self, ct: Const) {
    }

    fn visit_global_var_use(&mut self, gv: GlobalVar) {
        self.global_vars.push(gv);
    }

    fn visit_func_use(&mut self, func: FuncRef) {
        self.funcs.push(func);
    }

    fn visit_spv_dialect(&mut self, dialect: &spv::Dialect) {
    }

    fn visit_spv_module_debug_info(&mut self, debug_info: &spv::ModuleDebugInfo) {
    }

    fn visit_attr(&mut self, attr: &Attr) {
    }

    fn visit_import(&mut self, import: &Import) {
    }
}

/// A module's own descent comes to its dialect and its debug information,
/// then to a use of each of its global variables, once, then to a use of
/// each of its functions, once, then to what its exports refer to: to
/// `N + M` uses where it has `N` global variables, `M` functions and no
/// export.
pub proof fn lemma_module_visits(module: ModuleView)
    ensures
        module.visits().len() == 2 + module.entity_visits().len(),
        module.entity_visits().len() == module.globals.len() + module.funcs.len() + concat_visits(
            module.exports,
            |export: (ExportKeyView, Exportee)| export_visits(export),
        ).len(),
        forall|i: int|
            0 <= i < module.globals.len() ==> module.entity_visits()[i] == Visit::Use(
                Use::GlobalVar(GlobalVar(i as usize)),
            ),
        forall|j: int|
            module.globals.len() <= j < module.globals.len() + module.funcs.len()
                ==> module.entity_visits()[j] == Visit::Use(
                Use::Func(FuncRef((j - module.globals.len()) as usize)),
            ),
        module.exports.len() == 0 ==> module.entity_visits().len() == module.globals.len()
            + module.funcs.len(),
{
    if module.exports.len() == 0 {
        assert(module.exports == Seq::<(ExportKeyView, Exportee)>::empty());
        lemma_concat_visits_none(|export: (ExportKeyView, Exportee)| export_visits(export));
    }
}

/// An export holds one use for each global variable of its key's interface,
/// and one for what it exports.
pub proof fn lemma_export_visits(export: (ExportKeyView, Exportee))
    ensures
        export_visits(export).len() == 1 + (match export.0 {
            ExportKeyView::LinkName(_) => 0,
            ExportKeyView::SpvEntryPoint { interface_global_vars, .. } => {
                interface_global_vars.len()
            },
        }),
{
}

/// What [`EntityUses`] holds after the uses of the first `count` global
/// variables of a module.
proof fn lemma_entity_uses_of_globals(state: (Seq<GlobalVar>, Seq<FuncRef>), count: nat)
    ensures
        fold_visits(
            state,
            own_global_visits(count),
            |s: (Seq<GlobalVar>, Seq<FuncRef>), v: Visit| EntityUses::after(s, v),
        ) == (state.0 + first_global_vars(count), state.1),
    decreases count,
{
    if count == 0 {
        assert(state.0 + first_global_vars(0) == state.0);
    } else {
        let before = (count - 1) as nat;
        lemma_entity_uses_of_globals(state, before);
        assert(own_global_visits(count).drop_last() == own_global_visits(before));
        assert((state.0 + first_global_vars(before)).push(GlobalVar(before as usize)) == state.0
            + first_global_vars(count));
    }
}

/// What [`EntityUses`] holds after the uses of the first `count` functions
/// of a module.
proof fn lemma_entity_uses_of_funcs(state: (Seq<GlobalVar>, Seq<FuncRef>), count: nat)
    ensures
        fold_visits(
            state,
            own_func_visits(count),
            |s: (Seq<GlobalVar>, Seq<FuncRef>), v: Visit| EntityUses::after(s, v),
        ) == (state.0, state.1 + first_funcs(count)),
    decreases count,
{
    if count == 0 {
        assert(state.1 + first_funcs(0) == state.1);
    } else {
        let before = (count - 1) as nat;
        lemma_entity_uses_of_funcs(state, before);
        assert(own_func_visits(count).drop_last() == own_func_visits(before));
        assert((state.1 + first_funcs(before)).push(FuncRef(before as usize)) == state.1
            + first_funcs(count));
    }
}

/// Shown a module of `N` global variables and `M` functions that exports
/// nothing, [`EntityUses`] ends with `N` global variables and `M` functions:
/// each of the module's own, once, in order.
pub proof fn lemma_entity_uses_of_module(module: ModuleView)
    requires
        module.exports.len() == 0,
    ensures
        fold_visits(
            (Seq::empty(), Seq::empty()),
            module.visits(),
            |s: (Seq<GlobalVar>, Seq<FuncRef>), v: Visit| EntityUses::after(s, v),
        ) == (first_global_vars(module.globals.len()), first_funcs(module.funcs.len())),
        first_global_vars(module.globals.len()).len() + first_funcs(module.funcs.len()).len()
            == module.globals.len() + module.funcs.len(),
{
    let step = |s: (Seq<GlobalVar>, Seq<FuncRef>), v: Visit| EntityUses::after(s, v);
    let start = (Seq::<GlobalVar>::empty(), Seq::<FuncRef>::empty());
    let head = module.dialect.visits() + module.debug_info.visits();
    let globals = own_global_visits(module.globals.len());
    let funcs = own_func_visits(module.funcs.len());
    assert(module.exports == Seq::<(ExportKeyView, Exportee)>::empty());
    lemma_concat_visits_none(|export: (ExportKeyView, Exportee)| export_visits(export));
    assert(module.entity_visits() == globals + funcs);
    assert(fold_visits(start, head, step) == start) by {
        lemma_fold_one(start, module.dialect.visits()[0], step);
        lemma_fold_one(start, module.debug_info.visits()[0], step);
        assert(module.dialect.visits() == seq![module.dialect.visits()[0]]);
        assert(module.debug_info.visits() == seq![module.debug_info.visits()[0]]);
        lemma_fold_concat(start, module.dialect.visits(), module.debug_info.visits(), step);
    }
    lemma_fold_concat(start, head, globals + funcs, step);
    lemma_fold_concat(start, globals, funcs, step);
    lemma_entity_uses_of_globals(start, module.globals.len());
    let mid = fold_visits(start, globals, step);
    assert(mid.0 == first_global_vars(module.globals.len()));
    lemma_entity_uses_of_funcs(mid, module.funcs.len());
    assert(mid.1 + first_funcs(module.funcs.len()) == first_funcs(module.funcs.len()));
}

} // verus!
