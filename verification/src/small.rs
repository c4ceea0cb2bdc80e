//! Short lists, kept in `smallvec::SmallVec` so that the common few items
//! need no allocation.
//!
//! Each list type wraps one `SmallVec`. What a list holds is known to the
//! verifier only through its view, a `Seq` of the items, and the two calls
//! into `smallvec` below each type are taken on trust.

use vstd::prelude::*;
use vstd::std_specs::cmp::PartialEqSpecImpl;
use smallvec::SmallVec;
use crate::spv::{Id, Imm, Operand};
use crate::{ConstCtorArg, GlobalVar, MiscInput, TypeCtorArg};

verus! {

/// Compares two slices item by item, with `same` to compare two items.
pub fn slices_equal<T, F: Fn(&T, &T) -> bool>(a: &[T], b: &[T], same: F) -> (equal: bool)
    requires
        forall|x: &T, y: &T| call_requires(same, (x, y)),
        forall|x: &T, y: &T, r: bool| call_ensures(same, (x, y), r) ==> (r <==> *x == *y),
    ensures
        equal <==> a@ == b@,
{
    if a.len() != b.len() {
        return false;
    }
    let mut i: usize = 0;
    while i < a.len()
        invariant
            forall|x: &T, y: &T| call_requires(same, (x, y)),
            forall|x: &T, y: &T, r: bool| call_ensures(same, (x, y), r) ==> (r <==> *x == *y),
            a.len() == b.len(),
            i <= a.len(),
            a@.take(i as int) == b@.take(i as int),
        decreases a.len() - i,
    {
        if !same(&a[i], &b[i]) {
            return false;
        }
        proof {
            assert(a@.take(i + 1) == a@.take(i as int).push(a@[i as int]));
            assert(b@.take(i + 1) == b@.take(i as int).push(b@[i as int]));
        }
        i += 1;
    }
    proof {
        assert(a@.take(a.len() as int) == a@);
        assert(b@.take(b.len() as int) == b@);
    }
    true
}

/// A list of immediates.
#[verifier::external_body]
#[derive(Debug, Hash)]
pub struct ImmList {
    items: SmallVec<[Imm; 2]>,
}

/// The items of an [`ImmList`], in order.
pub uninterp spec fn imm_list_items(list: ImmList) -> Seq<Imm>;

/// `SmallVec::from_vec`: the list holds the items of `items`, in their order.
#[verifier::external_body]
fn imm_list_from_vec(items: Vec<Imm>) -> (list: ImmList)
    ensures
        imm_list_items(list) == items@,
{
    ImmList { items: SmallVec::from_vec(items) }
}

/// `SmallVec::as_slice`: the slice holds the list's items, in their order.
#[verifier::external_body]
fn imm_list_as_slice(list: &ImmList) -> (items: &[Imm])
    ensures
        items@ == imm_list_items(*list),
{
    list.items.as_slice()
}

impl View for ImmList {
    type V = Seq<Imm>;

    open spec fn view(&self) -> Seq<Imm> {
        imm_list_items(*self)
    }
}

impl ImmList {
    /// The list of the given items.
    pub fn from_vec(items: Vec<Imm>) -> (list: ImmList)
        ensures
            list@ == items@,
    {
        imm_list_from_vec(items)
    }

    /// The items, as a slice.
    pub fn as_slice(&self) -> (items: &[Imm])
        ensures
            items@ == self@,
    {
        imm_list_as_slice(self)
    }
}

impl PartialEq for ImmList {
    fn eq(&self, other: &ImmList) -> (equal: bool) {
        let same = |x: &Imm, y: &Imm| -> (r: bool)
            ensures
                r <==> *x == *y,
            { *x == *y };
        slices_equal(self.as_slice(), other.as_slice(), same)
    }
}

impl PartialEqSpecImpl for ImmList {
    open spec fn obeys_eq_spec() -> bool {
        true
    }

    open spec fn eq_spec(&self, other: &ImmList) -> bool {
        self@ == other@
    }
}

impl Eq for ImmList {
}

/// A list of identifiers.
#[verifier::external_body]
#[derive(Debug, Hash)]
pub struct IdList {
    items: SmallVec<[Id; 4]>,
}

/// The items of an [`IdList`], in order.
pub uninterp spec fn id_list_items(list: IdList) -> Seq<Id>;

/// `SmallVec::from_vec`: the list holds the items of `items`, in their order.
#[verifier::external_body]
fn id_list_from_vec(items: Vec<Id>) -> (list: IdList)
    ensures
        id_list_items(list) == items@,
{
    IdList { items: SmallVec::from_vec(items) }
}

/// `SmallVec::as_slice`: the slice holds the list's items, in their order.
#[verifier::external_body]
fn id_list_as_slice(list: &IdList) -> (items: &[Id])
    ensures
        items@ == id_list_items(*list),
{
    list.items.as_slice()
}

impl View for IdList {
    type V = Seq<Id>;

    open spec fn view(&self) -> Seq<Id> {
        id_list_items(*self)
    }
}

impl IdList {
    /// The list of the given items.
    pub fn from_vec(items: Vec<Id>) -> (list: IdList)
        ensures
            list@ == items@,
    {
        id_list_from_vec(items)
    }

    /// The items, as a slice.
    pub fn as_slice(&self) -> (items: &[Id])
        ensures
            items@ == self@,
    {
        id_list_as_slice(self)
    }
}

impl PartialEq for IdList {
    fn eq(&self, other: &IdList) -> (equal: bool) {
        let same = |x: &Id, y: &Id| -> (r: bool)
            ensures
                r <==> *x == *y,
            { *x == *y };
        slices_equal(self.as_slice(), other.as_slice(), same)
    }
}

impl PartialEqSpecImpl for IdList {
    open spec fn obeys_eq_spec() -> bool {
        true
    }

    open spec fn eq_spec(&self, other: &IdList) -> bool {
        self@ == other@
    }
}

impl Eq for IdList {
}

/// A list of references to global variables.
#[verifier::external_body]
#[derive(Debug, Hash)]
pub struct GlobalVarList {
    items: SmallVec<[GlobalVar; 4]>,
}

/// The items of a [`GlobalVarList`], in order.
pub uninterp spec fn global_var_list_items(list: GlobalVarList) -> Seq<GlobalVar>;

/// `SmallVec::from_vec`: the list holds the items of `items`, in their order.
#[verifier::external_body]
fn global_var_list_from_vec(items: Vec<GlobalVar>) -> (list: GlobalVarList)
    ensures
        global_var_list_items(list) == items@,
{
    GlobalVarList { items: SmallVec::from_vec(items) }
}

/// `SmallVec::as_slice`: the slice holds the list's items, in their order.
#[verifier::external_body]
fn global_var_list_as_slice(list: &GlobalVarList) -> (items: &[GlobalVar])
    ensures
        items@ == global_var_list_items(*list),
{
    list.items.as_slice()
}

impl View for GlobalVarList {
    type V = Seq<GlobalVar>;

    open spec fn view(&self) -> Seq<GlobalVar> {
        global_var_list_items(*self)
    }
}

impl GlobalVarList {
    /// The list of the given items.
    pub fn from_vec(items: Vec<GlobalVar>) -> (list: GlobalVarList)
        ensures
            list@ == items@,
    {
        global_var_list_from_vec(items)
    }

    /// The items, as a slice.
    pub fn as_slice(&self) -> (items: &[GlobalVar])
        ensures
            items@ == self@,
    {
        global_var_list_as_slice(self)
    }
}

impl PartialEq for GlobalVarList {
    fn eq(&self, other: &GlobalVarList) -> (equal: bool) {
        let same = |x: &GlobalVar, y: &GlobalVar| -> (r: bool)
            ensures
                r <==> *x == *y,
            { *x == *y };
        slices_equal(self.as_slice(), other.as_slice(), same)
    }
}

impl PartialEqSpecImpl for GlobalVarList {
    open spec fn obeys_eq_spec() -> bool {
        true
    }

    open spec fn eq_spec(&self, other: &GlobalVarList) -> bool {
        self@ == other@
    }
}

impl Eq for GlobalVarList {
}

/// The arguments of a type constructor.
#[verifier::external_body]
#[derive(Debug, Hash)]
pub struct TypeCtorArgList {
    items: SmallVec<[TypeCtorArg; 2]>,
}

/// The items of a [`TypeCtorArgList`], in order.
pub uninterp spec fn type_ctor_arg_list_items(list: TypeCtorArgList) -> Seq<TypeCtorArg>;

/// `SmallVec::from_vec`: the list holds the items of `items`, in their order.
#[verifier::external_body]
fn type_ctor_arg_list_from_vec(items: Vec<TypeCtorArg>) -> (list: TypeCtorArgList)
    ensures
        type_ctor_arg_list_items(list) == items@,
{
    TypeCtorArgList { items: SmallVec::from_vec(items) }
}

/// `SmallVec::as_slice`: the slice holds the list's items, in their order.
#[verifier::external_body]
fn type_ctor_arg_list_as_slice(list: &TypeCtorArgList) -> (items: &[TypeCtorArg])
    ensures
        items@ == type_ctor_arg_list_items(*list),
{
    list.items.as_slice()
}

impl View for TypeCtorArgList {
    type V = Seq<TypeCtorArg>;

    open spec fn view(&self) -> Seq<TypeCtorArg> {
        type_ctor_arg_list_items(*self)
    }
}

impl TypeCtorArgList {
    /// The list of the given items.
    pub fn from_vec(items: Vec<TypeCtorArg>) -> (list: TypeCtorArgList)
        ensures
            list@ == items@,
    {
        type_ctor_arg_list_from_vec(items)
    }

    /// The items, as a slice.
    pub fn as_slice(&self) -> (items: &[TypeCtorArg])
        ensures
            items@ == self@,
    {
        type_ctor_arg_list_as_slice(self)
    }
}

impl PartialEq for TypeCtorArgList {
    fn eq(&self, other: &TypeCtorArgList) -> (equal: bool) {
        let same = |x: &TypeCtorArg, y: &TypeCtorArg| -> (r: bool)
            ensures
                r <==> *x == *y,
            { *x == *y };
        slices_equal(self.as_slice(), other.as_slice(), same)
    }
}

impl PartialEqSpecImpl for TypeCtorArgList {
    open spec fn obeys_eq_spec() -> bool {
        true
    }

    open spec fn eq_spec(&self, other: &TypeCtorArgList) -> bool {
        self@ == other@
    }
}

impl Eq for TypeCtorArgList {
}

/// The arguments of a constant constructor.
#[verifier::external_body]
#[derive(Debug, Hash)]
pub struct ConstCtorArgList {
    items: SmallVec<[ConstCtorArg; 2]>,
}

/// The items of a [`ConstCtorArgList`], in order.
pub uninterp spec fn const_ctor_arg_list_items(list: ConstCtorArgList) -> Seq<ConstCtorArg>;

/// `SmallVec::from_vec`: the list holds the items of `items`, in their order.
#[verifier::external_body]
fn const_ctor_arg_list_from_vec(items: Vec<ConstCtorArg>) -> (list: ConstCtorArgList)
    ensures
        const_ctor_arg_list_items(list) == items@,
{
    ConstCtorArgList { items: SmallVec::from_vec(items) }
}

/// `SmallVec::as_slice`: the slice holds the list's items, in their order.
#[verifier::external_body]
fn const_ctor_arg_list_as_slice(list: &ConstCtorArgList) -> (items: &[ConstCtorArg])
    ensures
        items@ == const_ctor_arg_list_items(*list),
{
    list.items.as_slice()
}

impl View for ConstCtorArgList {
    type V = Seq<ConstCtorArg>;

    open spec fn view(&self) -> Seq<ConstCtorArg> {
        const_ctor_arg_list_items(*self)
    }
}

impl ConstCtorArgList {
    /// The list of the given items.
    pub fn from_vec(items: Vec<ConstCtorArg>) -> (list: ConstCtorArgList)
        ensures
            list@ == items@,
    {
        const_ctor_arg_list_from_vec(items)
    }

    /// The items, as a slice.
    pub fn as_slice(&self) -> (items: &[ConstCtorArg])
        ensures
            items@ == self@,
    {
        const_ctor_arg_list_as_slice(self)
    }
}

impl PartialEq for ConstCtorArgList {
    fn eq(&self, other: &ConstCtorArgList) -> (equal: bool) {
        let same = |x: &ConstCtorArg, y: &ConstCtorArg| -> (r: bool)
            ensures
                r <==> *x == *y,
            { *x == *y };
        slices_equal(self.as_slice(), other.as_slice(), same)
    }
}

impl PartialEqSpecImpl for ConstCtorArgList {
    open spec fn obeys_eq_spec() -> bool {
        true
    }

    open spec fn eq_spec(&self, other: &ConstCtorArgList) -> bool {
        self@ == other@
    }
}

impl Eq for ConstCtorArgList {
}

/// The inputs of an instruction.
#[verifier::external_body]
#[derive(Debug, Hash)]
pub struct MiscInputList {
    items: SmallVec<[MiscInput; 2]>,
}

/// The items of a [`MiscInputList`], in order.
pub uninterp spec fn misc_input_list_items(list: MiscInputList) -> Seq<MiscInput>;

/// `SmallVec::from_vec`: the list holds the items of `items`, in their order.
#[verifier::external_body]
fn misc_input_list_from_vec(items: Vec<MiscInput>) -> (list: MiscInputList)
    ensures
        misc_input_list_items(list) == items@,
{
    MiscInputList { items: SmallVec::from_vec(items) }
}

/// `SmallVec::as_slice`: the slice holds the list's items, in their order.
#[verifier::external_body]
fn misc_input_list_as_slice(list: &MiscInputList) -> (items: &[MiscInput])
    ensures
        items@ == misc_input_list_items(*list),
{
    list.items.as_slice()
}

impl View for MiscInputList {
    type V = Seq<MiscInput>;

    open spec fn view(&self) -> Seq<MiscInput> {
        misc_input_list_items(*self)
    }
}

impl MiscInputList {
    /// The list of the given items.
    pub fn from_vec(items: Vec<MiscInput>) -> (list: MiscInputList)
        ensures
            list@ == items@,
    {
        misc_input_list_from_vec(items)
    }

    /// The items, as a slice.
    pub fn as_slice(&self) -> (items: &[MiscInput])
        ensures
            items@ == self@,
    {
        misc_input_list_as_slice(self)
    }
}

/// The operands of an instruction of a binary module.
#[verifier::external_body]
#[derive(Debug, Hash)]
pub struct OperandList {
    items: SmallVec<[Operand; 2]>,
}

/// The items of an [`OperandList`], in order.
pub uninterp spec fn operand_list_items(list: OperandList) -> Seq<Operand>;

/// `SmallVec::from_vec`: the list holds the items of `items`, in their order.
#[verifier::external_body]
fn operand_list_from_vec(items: Vec<Operand>) -> (list: OperandList)
    ensures
        operand_list_items(list) == items@,
{
    OperandList { items: SmallVec::from_vec(items) }
}

/// `SmallVec::as_slice`: the slice holds the list's items, in their order.
#[verifier::external_body]
fn operand_list_as_slice(list: &OperandList) -> (items: &[Operand])
    ensures
        items@ == operand_list_items(*list),
{
    list.items.as_slice()
}

impl View for OperandList {
    type V = Seq<Operand>;

    open spec fn view(&self) -> Seq<Operand> {
        operand_list_items(*self)
    }
}

impl OperandList {
    /// The list of the given items.
    pub fn from_vec(items: Vec<Operand>) -> (list: OperandList)
        ensures
            list@ == items@,
    {
        operand_list_from_vec(items)
    }

    /// The items, as a slice.
    pub fn as_slice(&self) -> (items: &[Operand])
        ensures
            items@ == self@,
    {
        operand_list_as_slice(self)
    }
}

} // verus!
