//! The doors to the LLVM bindings. Verus takes each contract here on trust; most of
//! them claim nothing, because what comes back is a handle that the library only
//! passes on.
//!
//! The bindings panic where they are to hand back a value of a type that is no
//! value type, such as what a pointer to a function points to. That cannot happen
//! here: the only functions are those that the backend declares, which take and
//! return bytes, integers and pointers to bytes, and every pointer that it holds
//! points to a byte or to a pointer to a byte. The backend keeps the kind of each
//! value, and hands a request on only where the kinds are those that the request
//! takes.

use inkwell::basic_block::BasicBlock;
use inkwell::builder::{Builder, BuilderError};
use inkwell::context::Context;
use inkwell::module::{Linkage, Module};
use inkwell::types::{FunctionType, IntType, PointerType, VoidType};
use inkwell::values::{
    BasicValue, BasicValueEnum, CallSiteValue, FunctionValue, IntValue, PointerValue,
};
use inkwell::{AddressSpace, IntPredicate};
use vstd::prelude::*;

verus! {

/// `Context` of the bindings, which the library only passes on.
#[verifier::external_type_specification]
#[verifier::external_body]
pub struct ExContext(Context);

/// `Builder` of the bindings, which the library only passes on.
#[verifier::external_type_specification]
#[verifier::external_body]
pub struct ExBuilder<'ctx>(Builder<'ctx>);

/// `BuilderError` of the bindings, which the library only passes on.
#[verifier::external_type_specification]
#[verifier::external_body]
pub struct ExBuilderError(BuilderError);

/// `Module` of the bindings, which the library only passes on.
#[verifier::external_type_specification]
#[verifier::external_body]
pub struct ExModule<'ctx>(Module<'ctx>);

/// `Linkage` of the bindings, which the library only passes on.
#[verifier::external_type_specification]
#[verifier::external_body]
pub struct ExLinkage(Linkage);

/// `AddressSpace` of the bindings, which the library only passes on.
#[verifier::external_type_specification]
#[verifier::external_body]
pub struct ExAddressSpace(AddressSpace);

/// `IntPredicate` of the bindings, which the library only passes on.
#[verifier::external_type_specification]
#[verifier::external_body]
pub struct ExIntPredicate(IntPredicate);

/// `BasicBlock` of the bindings, which the library only passes on.
#[verifier::external_type_specification]
#[verifier::external_body]
pub struct ExBasicBlock<'ctx>(BasicBlock<'ctx>);

/// `FunctionType` of the bindings, which the library only passes on.
#[verifier::external_type_specification]
#[verifier::external_body]
pub struct ExFunctionType<'ctx>(FunctionType<'ctx>);

/// `IntType` of the bindings, which the library only passes on.
#[verifier::external_type_specification]
#[verifier::external_body]
pub struct ExIntType<'ctx>(IntType<'ctx>);

/// `PointerType` of the bindings, which the library only passes on.
#[verifier::external_type_specification]
#[verifier::external_body]
pub struct ExPointerType<'ctx>(PointerType<'ctx>);

/// `VoidType` of the bindings, which the library only passes on.
#[verifier::external_type_specification]
#[verifier::external_body]
pub struct ExVoidType<'ctx>(VoidType<'ctx>);

/// `BasicValueEnum` of the bindings, which the library only passes on.
#[verifier::external_type_specification]
#[verifier::external_body]
pub struct ExBasicValueEnum<'ctx>(BasicValueEnum<'ctx>);

/// `FunctionValue` of the bindings, which the library only passes on.
#[verifier::external_type_specification]
#[verifier::external_body]
pub struct ExFunctionValue<'ctx>(FunctionValue<'ctx>);

/// `IntValue` of the bindings, which the library only passes on.
#[verifier::external_type_specification]
#[verifier::external_body]
pub struct ExIntValue<'ctx>(IntValue<'ctx>);

/// `PointerValue` of the bindings, which the library only passes on.
#[verifier::external_type_specification]
#[verifier::external_body]
pub struct ExPointerValue<'ctx>(PointerValue<'ctx>);

/// `CallSiteValue` of the bindings, which the library only passes on.
#[verifier::external_type_specification]
#[verifier::external_body]
pub struct ExCallSiteValue<'ctx>(CallSiteValue<'ctx>);

/// `ToString::to_string` of a `char`: the string of that one character.
#[verifier::external_body]
pub(crate) fn char_to_string(c: char) -> (name: String)
    ensures
        name@ == seq![c],
{
    c.to_string()
}

/// `Context::create_builder`. Nothing is claimed of the builder.
#[verifier::external_body]
pub(crate) fn create_builder<'a>(ctx: &'a Context) -> Builder<'a> {
    ctx.create_builder()
}

/// `Context::create_module`. Nothing is claimed of the module.
#[verifier::external_body]
pub(crate) fn create_module<'a>(ctx: &'a Context, name: &str) -> Module<'a> {
    ctx.create_module(name)
}

/// `Context::custom_width_int_type`: the type of the integers of `bits` bits, for
/// the three widths that the module uses.
#[verifier::external_body]
pub(crate) fn int_type<'a>(ctx: &'a Context, bits: u32) -> IntType<'a>
    requires
        bits == 8 || bits == 32 || bits == 64,
{
    ctx.custom_width_int_type(bits)
}

/// `Context::void_type`.
#[verifier::external_body]
pub(crate) fn void_type<'a>(ctx: &'a Context) -> VoidType<'a> {
    ctx.void_type()
}

/// `AddressSpace::default`.
#[verifier::external_body]
pub(crate) fn default_address_space() -> AddressSpace {
    AddressSpace::default()
}

/// The predicate `IntPredicate::NE`, "not equal".
#[verifier::external_body]
pub(crate) fn not_equal() -> IntPredicate {
    IntPredicate::NE
}

/// `IntType::ptr_type`.
#[verifier::external_body]
pub(crate) fn pointer_type<'a>(pointee: IntType<'a>, space: AddressSpace) -> PointerType<'a> {
    pointee.ptr_type(space)
}

/// `IntType::fn_type`: the type of a function that takes `params` and returns
/// `ret`.
#[verifier::external_body]
pub(crate) fn int_fn_type<'a>(
    ret: IntType<'a>,
    params: &Vec<IntType<'a>>,
    is_var_args: bool,
) -> FunctionType<'a> {
    let params: Vec<_> = params.iter().map(|p| (*p).into()).collect();
    ret.fn_type(&params, is_var_args)
}

/// `PointerType::fn_type`: the type of a function that takes `params` and returns
/// `ret`.
#[verifier::external_body]
pub(crate) fn pointer_fn_type<'a>(
    ret: PointerType<'a>,
    params: &Vec<IntType<'a>>,
    is_var_args: bool,
) -> FunctionType<'a> {
    let params: Vec<_> = params.iter().map(|p| (*p).into()).collect();
    ret.fn_type(&params, is_var_args)
}

/// `VoidType::fn_type`: the type of a function that takes `param` and returns
/// nothing.
#[verifier::external_body]
pub(crate) fn void_fn_type<'a>(
    ret: VoidType<'a>,
    param: PointerType<'a>,
    is_var_args: bool,
) -> FunctionType<'a> {
    ret.fn_type(&[param.into()], is_var_args)
}

/// `IntType::const_int`.
#[verifier::external_body]
pub(crate) fn const_int<'a>(ty: IntType<'a>, value: u64, sign_extend: bool) -> IntValue<'a> {
    ty.const_int(value, sign_extend)
}

/// `Module::add_function`.
#[verifier::external_body]
pub(crate) fn add_function<'a>(
    module: &Module<'a>,
    name: &str,
    ty: FunctionType<'a>,
    linkage: Option<Linkage>,
) -> FunctionValue<'a> {
    module.add_function(name, ty, linkage)
}

/// `Context::append_basic_block`.
#[verifier::external_body]
pub(crate) fn append_basic_block<'a>(
    ctx: &'a Context,
    function: FunctionValue<'a>,
    name: &str,
) -> BasicBlock<'a> {
    ctx.append_basic_block(function, name)
}

/// `FunctionValue::get_first_param`: `None` if the function takes nothing. The
/// functions of the backend take integers and pointers only.
#[verifier::external_body]
pub(crate) fn first_param<'a>(function: FunctionValue<'a>) -> Option<BasicValueEnum<'a>> {
    function.get_first_param()
}

/// The pointer in a `BasicValueEnum`, if it holds one.
#[verifier::external_body]
pub(crate) fn pointer_of<'a>(value: BasicValueEnum<'a>) -> Option<PointerValue<'a>> {
    match value {
        BasicValueEnum::PointerValue(p) => Some(p),
        _ => None,
    }
}

/// The integer in a `BasicValueEnum`, if it holds one.
#[verifier::external_body]
pub(crate) fn int_of<'a>(value: BasicValueEnum<'a>) -> Option<IntValue<'a>> {
    match value {
        BasicValueEnum::IntValue(i) => Some(i),
        _ => None,
    }
}

/// `BasicValueEnum::from` of a pointer.
#[verifier::external_body]
pub(crate) fn value_of_pointer<'a>(pointer: PointerValue<'a>) -> BasicValueEnum<'a> {
    BasicValueEnum::from(pointer)
}

/// `BasicValueEnum::from` of an integer.
#[verifier::external_body]
pub(crate) fn value_of_int<'a>(value: IntValue<'a>) -> BasicValueEnum<'a> {
    BasicValueEnum::from(value)
}

/// `Builder::position_at_end`.
#[verifier::external_body]
pub(crate) fn position_at_end<'a>(builder: &Builder<'a>, block: BasicBlock<'a>) {
    builder.position_at_end(block)
}

/// `Builder::build_alloca`. It fails if the builder stands nowhere.
#[verifier::external_body]
pub(crate) fn build_alloca<'a>(
    builder: &Builder<'a>,
    ty: PointerType<'a>,
    name: &str,
) -> Result<PointerValue<'a>, BuilderError> {
    builder.build_alloca(ty, name)
}

/// `Builder::build_load`. It fails if the builder stands nowhere. The pointers of
/// the backend point to a byte or to a pointer.
#[verifier::external_body]
pub(crate) fn build_load<'a>(
    builder: &Builder<'a>,
    from: PointerValue<'a>,
    name: &str,
) -> Result<BasicValueEnum<'a>, BuilderError> {
    builder.build_load(from, name)
}

/// `Builder::build_store`. It fails if the builder stands nowhere.
#[verifier::external_body]
pub(crate) fn build_store<'a>(
    builder: &Builder<'a>,
    to: PointerValue<'a>,
    value: BasicValueEnum<'a>,
) -> Result<(), BuilderError> {
    builder.build_store(to, value).map(|_| ())
}

/// `Builder::build_ptr_to_int`. It fails if the builder stands nowhere.
#[verifier::external_body]
pub(crate) fn build_ptr_to_int<'a>(
    builder: &Builder<'a>,
    value: PointerValue<'a>,
    ty: IntType<'a>,
    name: &str,
) -> Result<IntValue<'a>, BuilderError> {
    builder.build_ptr_to_int(value, ty, name)
}

/// `Builder::build_int_to_ptr`. It fails if the builder stands nowhere.
#[verifier::external_body]
pub(crate) fn build_int_to_ptr<'a>(
    builder: &Builder<'a>,
    value: IntValue<'a>,
    ty: PointerType<'a>,
    name: &str,
) -> Result<PointerValue<'a>, BuilderError> {
    builder.build_int_to_ptr(value, ty, name)
}

/// `Builder::build_int_add`. It fails if the builder stands nowhere.
#[verifier::external_body]
pub(crate) fn build_int_add<'a>(
    builder: &Builder<'a>,
    lhs: IntValue<'a>,
    rhs: IntValue<'a>,
    name: &str,
) -> Result<IntValue<'a>, BuilderError> {
    builder.build_int_add(lhs, rhs, name)
}

/// `Builder::build_int_sub`. It fails if the builder stands nowhere.
#[verifier::external_body]
pub(crate) fn build_int_sub<'a>(
    builder: &Builder<'a>,
    lhs: IntValue<'a>,
    rhs: IntValue<'a>,
    name: &str,
) -> Result<IntValue<'a>, BuilderError> {
    builder.build_int_sub(lhs, rhs, name)
}

/// `Builder::build_int_z_extend`. It fails if the builder stands nowhere.
#[verifier::external_body]
pub(crate) fn build_int_z_extend<'a>(
    builder: &Builder<'a>,
    value: IntValue<'a>,
    ty: IntType<'a>,
    name: &str,
) -> Result<IntValue<'a>, BuilderError> {
    builder.build_int_z_extend(value, ty, name)
}

/// `Builder::build_int_compare`. It fails if the builder stands nowhere.
#[verifier::external_body]
pub(crate) fn build_int_compare<'a>(
    builder: &Builder<'a>,
    op: IntPredicate,
    lhs: IntValue<'a>,
    rhs: IntValue<'a>,
    name: &str,
) -> Result<IntValue<'a>, BuilderError> {
    builder.build_int_compare(op, lhs, rhs, name)
}

/// `Builder::build_call`. It fails if the builder stands nowhere.
#[verifier::external_body]
pub(crate) fn build_call<'a>(
    builder: &Builder<'a>,
    callee: FunctionValue<'a>,
    args: &Vec<BasicValueEnum<'a>>,
    name: &str,
) -> Result<CallSiteValue<'a>, BuilderError> {
    let args: Vec<_> = args.iter().map(|a| (*a).into()).collect();
    builder.build_call(callee, &args, name)
}

/// `CallSiteValue::try_as_basic_value`: the value that the call returns, or `None`
/// for a call that returns nothing. The functions of the backend return a byte, a
/// pointer or nothing.
#[verifier::external_body]
pub(crate) fn call_result<'a>(site: CallSiteValue<'a>) -> Option<BasicValueEnum<'a>> {
    site.try_as_basic_value().left()
}

/// `Builder::build_unconditional_branch`. It fails if the builder stands nowhere.
#[verifier::external_body]
pub(crate) fn build_unconditional_branch<'a>(
    builder: &Builder<'a>,
    to: BasicBlock<'a>,
) -> Result<(), BuilderError> {
    builder.build_unconditional_branch(to).map(|_| ())
}

/// `Builder::build_conditional_branch`. It fails if the builder stands nowhere.
#[verifier::external_body]
pub(crate) fn build_conditional_branch<'a>(
    builder: &Builder<'a>,
    on: IntValue<'a>,
    then_block: BasicBlock<'a>,
    else_block: BasicBlock<'a>,
) -> Result<(), BuilderError> {
    builder.build_conditional_branch(on, then_block, else_block).map(|_| ())
}

/// `Builder::build_return`, of `value` or of nothing. It fails if the builder
/// stands nowhere.
#[verifier::external_body]
pub(crate) fn build_return<'a>(
    builder: &Builder<'a>,
    value: Option<IntValue<'a>>,
) -> Result<(), BuilderError> {
    builder.build_return(value.as_ref().map(|v| v as &dyn BasicValue<'a>)).map(|_| ())
}

} // verus!
