use vstd::prelude::*;
use inkwell::basic_block::BasicBlock;
use inkwell::builder::Builder;
use inkwell::context::Context;
use inkwell::module::Module;
use inkwell::targets::{
    CodeModel, FileType, InitializationConfig, RelocMode, Target, TargetMachine, TargetTriple,
};
use inkwell::types::{BasicMetadataTypeEnum, FunctionType, IntType, PointerType, VoidType};
use inkwell::values::{
    BasicMetadataValueEnum, BasicValue, BasicValueEnum, FunctionValue, PointerValue,
};
use inkwell::{AddressSpace, OptimizationLevel};
use crate::codegen::{CodeGen, ModuleView, MAX_INT_WIDTH};
use crate::emission::VerifiedModule;
use crate::ir::{Instr, Linkage, Operand, Terminator, TypeKind, Value};

verus! {

#[verifier::external_type_specification]
#[verifier::external_body]
pub struct ExContext(Context);

#[verifier::external_type_specification]
#[verifier::external_body]
pub struct ExModule<'ctx>(Module<'ctx>);

#[verifier::external_type_specification]
#[verifier::external_body]
pub struct ExBuilder<'ctx>(Builder<'ctx>);

#[verifier::external_type_specification]
#[verifier::external_body]
pub struct ExIntType<'ctx>(IntType<'ctx>);

#[verifier::external_type_specification]
#[verifier::external_body]
pub struct ExPointerType<'ctx>(PointerType<'ctx>);

#[verifier::external_type_specification]
#[verifier::external_body]
pub struct ExVoidType<'ctx>(VoidType<'ctx>);

#[verifier::external_type_specification]
#[verifier::external_body]
pub struct ExFunctionType<'ctx>(FunctionType<'ctx>);

#[verifier::external_type_specification]
#[verifier::external_body]
pub struct ExFunctionValue<'ctx>(FunctionValue<'ctx>);

#[verifier::external_type_specification]
#[verifier::external_body]
pub struct ExBasicBlock<'ctx>(BasicBlock<'ctx>);

#[verifier::external_type_specification]
#[verifier::external_body]
pub struct ExBasicValueEnum<'ctx>(BasicValueEnum<'ctx>);

#[verifier::external_type_specification]
#[verifier::external_body]
pub struct ExPointerValue<'ctx>(PointerValue<'ctx>);

#[verifier::external_type_specification]
#[verifier::external_body]
pub struct ExTarget(Target);

#[verifier::external_type_specification]
#[verifier::external_body]
pub struct ExTargetMachine(TargetMachine);

/// A pointer type whose pointee is an integer or a pointer type. Only
/// `int_ptr_type` and `ptr_ptr_type` make one, so a load through it always
/// yields a value of a basic type.
#[derive(Clone, Copy)]
pub struct BasicPtrType<'ctx> {
    t: PointerType<'ctx>,
}

/// A pointer cast to a `BasicPtrType`; only `cast_pointer` makes one.
#[derive(Clone, Copy)]
pub struct LoadablePtr<'ctx> {
    p: PointerValue<'ctx>,
}

/// A type of the module as the backend knows it.
#[derive(Clone, Copy)]
pub enum LlvmType<'ctx> {
    Void(VoidType<'ctx>),
    Int(IntType<'ctx>),
    Ptr(BasicPtrType<'ctx>),
    Func(FunctionType<'ctx>),
}

/// A type that values, parameters and results can have.
#[derive(Clone, Copy)]
pub enum LlvmValueType<'ctx> {
    Int(IntType<'ctx>),
    Ptr(BasicPtrType<'ctx>),
}

/// Why lowering or emission failed.
#[derive(Clone, Copy, Debug, PartialEq, Eq, Structural)]
pub enum EmitError {
    /// The triple names no target that this backend was built with.
    UnsupportedTarget,
    /// A name or string is not UTF-8 text without zero bytes.
    UnsupportedText,
    /// An operand refers to a value that no earlier block or instruction
    /// defines.
    UnorderedOperand,
    /// The backend refused an instruction, the module or the object.
    Backend,
}

/// Optimization level of the target machine; `Nothing` optimizes nothing.
#[derive(Clone, Copy, Debug, PartialEq, Eq, Structural)]
pub enum OptLevel {
    Nothing,
    Less,
    Default,
    Aggressive,
}

/// Relocation model of the target machine.
#[derive(Clone, Copy, Debug, PartialEq, Eq, Structural)]
pub enum Relocation {
    Default,
    Static,
    Pic,
    DynamicNoPic,
}

/// Code model of the target machine.
#[derive(Clone, Copy, Debug, PartialEq, Eq, Structural)]
pub enum CodeSize {
    Default,
    JitDefault,
    Small,
    Kernel,
    Medium,
    Large,
}

/// A target machine description: triple, processor, features and the
/// settings code is generated with.
#[derive(Clone, Debug)]
pub struct TargetConfig {
    pub triple: String,
    pub cpu: String,
    pub features: String,
    pub opt: OptLevel,
    pub reloc: Relocation,
    pub model: CodeSize,
}

/// Relies on inkwell's Context::create: a fresh backend context.
#[verifier::external_body]
fn new_context() -> (r: Context) {
    Context::create()
}

/// Relies on inkwell's Context::create_module: an empty module.
#[verifier::external_body]
fn new_module<'ctx>(c: &'ctx Context, name: &str) -> (r: Module<'ctx>) {
    c.create_module(name)
}

/// Relies on inkwell's Context::create_builder: a builder with no position.
#[verifier::external_body]
fn new_builder<'ctx>(c: &'ctx Context) -> (r: Builder<'ctx>) {
    c.create_builder()
}

/// Relies on inkwell's Context::void_type.
#[verifier::external_body]
fn void_type_of<'ctx>(c: &'ctx Context) -> (r: VoidType<'ctx>) {
    c.void_type()
}

/// Relies on inkwell's Context::custom_width_int_type, which takes widths
/// from 1 to 2^23 bits.
#[verifier::external_body]
fn int_type_of<'ctx>(c: &'ctx Context, w: u32) -> (r: IntType<'ctx>)
    requires
        1 <= w <= MAX_INT_WIDTH,
{
    c.custom_width_int_type(w)
}

/// Relies on inkwell's IntType::ptr_type: pointer to an integer type.
#[verifier::external_body]
fn int_ptr_type<'ctx>(t: IntType<'ctx>) -> (r: BasicPtrType<'ctx>) {
    BasicPtrType { t: t.ptr_type(AddressSpace::default()) }
}

/// Relies on inkwell's PointerType::ptr_type: pointer to a pointer type.
#[verifier::external_body]
fn ptr_ptr_type<'ctx>(t: BasicPtrType<'ctx>) -> (r: BasicPtrType<'ctx>) {
    BasicPtrType { t: t.t.ptr_type(AddressSpace::default()) }
}

/// Relies on inkwell's VoidType::fn_type: function type without a result.
#[verifier::external_body]
fn void_fn_type<'ctx>(t: VoidType<'ctx>, ps: &Vec<LlvmValueType<'ctx>>, variadic: bool) -> (r:
    FunctionType<'ctx>) {
    let ps: Vec<BasicMetadataTypeEnum<'ctx>> = ps.iter().map(|p| match p {
        LlvmValueType::Int(i) => (*i).into(),
        LlvmValueType::Ptr(q) => q.t.into(),
    }).collect();
    t.fn_type(&ps, variadic)
}

/// Relies on inkwell's IntType::fn_type: function type with an integer result.
#[verifier::external_body]
fn int_fn_type<'ctx>(t: IntType<'ctx>, ps: &Vec<LlvmValueType<'ctx>>, variadic: bool) -> (r:
    FunctionType<'ctx>) {
    let ps: Vec<BasicMetadataTypeEnum<'ctx>> = ps.iter().map(|p| match p {
        LlvmValueType::Int(i) => (*i).into(),
        LlvmValueType::Ptr(q) => q.t.into(),
    }).collect();
    t.fn_type(&ps, variadic)
}

/// Relies on inkwell's PointerType::fn_type: function type with a pointer result.
#[verifier::external_body]
fn ptr_fn_type<'ctx>(t: BasicPtrType<'ctx>, ps: &Vec<LlvmValueType<'ctx>>, variadic: bool) -> (r:
    FunctionType<'ctx>) {
    let ps: Vec<BasicMetadataTypeEnum<'ctx>> = ps.iter().map(|p| match p {
        LlvmValueType::Int(i) => (*i).into(),
        LlvmValueType::Ptr(q) => q.t.into(),
    }).collect();
    t.t.fn_type(&ps, variadic)
}

/// Relies on inkwell's Module::add_function; a declaration only is linked
/// externally.
#[verifier::external_body]
fn add_function_to<'ctx>(m: &Module<'ctx>, name: &str, t: FunctionType<'ctx>, l: Linkage) -> (r:
    FunctionValue<'ctx>) {
    let l = match l {
        Linkage::Internal => None,
        Linkage::External => Some(inkwell::module::Linkage::External),
    };
    m.add_function(name, t, l)
}

/// Relies on inkwell's Context::append_basic_block.
#[verifier::external_body]
fn append_block_to<'ctx>(c: &'ctx Context, f: FunctionValue<'ctx>) -> (r: BasicBlock<'ctx>) {
    c.append_basic_block(f, "")
}

/// Relies on inkwell's Builder::position_at_end.
#[verifier::external_body]
fn position_builder<'ctx>(b: &Builder<'ctx>, bb: BasicBlock<'ctx>) {
    b.position_at_end(bb)
}

/// Relies on inkwell's IntType::const_int, without sign extension.
#[verifier::external_body]
fn const_int_of<'ctx>(t: IntType<'ctx>, v: u64) -> (r: BasicValueEnum<'ctx>) {
    t.const_int(v, false).into()
}

/// Relies on inkwell's FunctionValue::get_nth_param: `None` past the last
/// parameter. It computes `i + 1` first, so `i` stays below `u32::MAX`.
#[verifier::external_body]
fn nth_param<'ctx>(f: FunctionValue<'ctx>, i: u32) -> (r: Option<BasicValueEnum<'ctx>>)
    requires
        i < 0xffff_ffff,
{
    f.get_nth_param(i)
}

/// Relies on inkwell's Builder::build_global_string_ptr: a private constant
/// holding the text and a terminating zero byte, and a pointer to its first
/// byte.
#[verifier::external_body]
fn global_string_ptr<'ctx>(b: &Builder<'ctx>, s: &str) -> (r: Option<BasicValueEnum<'ctx>>) {
    b.build_global_string_ptr(s, "str").ok().map(|g| g.as_pointer_value().into())
}

/// Relies on inkwell's Builder::build_int_add on two integers.
#[verifier::external_body]
fn int_add<'ctx>(b: &Builder<'ctx>, x: BasicValueEnum<'ctx>, y: BasicValueEnum<'ctx>) -> (r:
    Option<BasicValueEnum<'ctx>>) {
    match (x, y) {
        (BasicValueEnum::IntValue(x), BasicValueEnum::IntValue(y)) => {
            b.build_int_add(x, y, "").ok().map(|v| v.into())
        },
        _ => None,
    }
}

/// Relies on inkwell's Builder::build_pointer_cast: `None` unless `p` is a
/// pointer and the builder takes the cast.
#[verifier::external_body]
fn cast_pointer<'ctx>(b: &Builder<'ctx>, p: BasicValueEnum<'ctx>, t: BasicPtrType<'ctx>) -> (r:
    Option<LoadablePtr<'ctx>>) {
    match p {
        BasicValueEnum::PointerValue(p) => b.build_pointer_cast(p, t.t, "").ok().map(|p| LoadablePtr { p }),
        _ => None,
    }
}

/// Relies on inkwell's Builder::build_load (LLVM 14 form); the pointee is a
/// basic type, so the result converts to a basic value.
#[verifier::external_body]
fn load_through<'ctx>(b: &Builder<'ctx>, q: LoadablePtr<'ctx>) -> (r: Option<BasicValueEnum<'ctx>>) {
    b.build_load(q.p, "").ok()
}

/// Relies on inkwell's Builder::build_int_z_extend of an integer.
#[verifier::external_body]
fn zero_extend<'ctx>(b: &Builder<'ctx>, v: BasicValueEnum<'ctx>, t: IntType<'ctx>) -> (r: Option<
    BasicValueEnum<'ctx>,
>) {
    match v {
        BasicValueEnum::IntValue(v) => b.build_int_z_extend(v, t, "").ok().map(|v| v.into()),
        _ => None,
    }
}

/// Relies on inkwell's Builder::build_call: `None` when the builder refuses
/// the call, else the result, if the callee has one.
#[verifier::external_body]
fn call_function<'ctx>(b: &Builder<'ctx>, f: FunctionValue<'ctx>, args: &Vec<BasicValueEnum<'ctx>>) -> (r:
    Option<Option<BasicValueEnum<'ctx>>>) {
    let args: Vec<BasicMetadataValueEnum<'ctx>> = args.iter().map(|a| (*a).into()).collect();
    b.build_call(f, &args, "").ok().map(|c| c.try_as_basic_value().left())
}

/// Relies on inkwell's Builder::build_return: `false` when the builder
/// refuses it.
#[verifier::external_body]
fn return_value<'ctx>(b: &Builder<'ctx>, v: Option<BasicValueEnum<'ctx>>) -> (r: bool) {
    b.build_return(v.as_ref().map(|v| v as &dyn BasicValue<'ctx>)).is_ok()
}

/// Relies on inkwell's Builder::build_unconditional_branch: `false` when the
/// builder refuses it.
#[verifier::external_body]
fn branch_to<'ctx>(b: &Builder<'ctx>, bb: BasicBlock<'ctx>) -> (r: bool) {
    b.build_unconditional_branch(bb).is_ok()
}

/// Relies on String::from_utf8: `None` unless the bytes are UTF-8.
#[verifier::external_body]
fn utf8_text(b: &Vec<u8>) -> (r: Option<String>) {
    String::from_utf8(b.clone()).ok()
}

/// Relies on inkwell's Target::initialize_native: sets up the host's target
/// once for the process; later calls do nothing more.
#[verifier::external_body]
fn initialize_host_target() -> (r: bool) {
    Target::initialize_native(&InitializationConfig::default()).is_ok()
}

/// Relies on inkwell's TargetMachine::get_default_triple: the host's triple.
#[verifier::external_body]
fn host_triple() -> (r: String) {
    TargetMachine::get_default_triple().as_str().to_string_lossy().into_owned()
}

/// Relies on inkwell's Target::from_triple: `None` when no target this
/// backend was built with serves the triple.
#[verifier::external_body]
fn target_for(triple: &str) -> (r: Option<Target>) {
    Target::from_triple(&TargetTriple::create(triple)).ok()
}

#[verifier::external_type_specification]
pub struct ExOptimizationLevel(OptimizationLevel);

#[verifier::external_type_specification]
pub struct ExRelocMode(RelocMode);

#[verifier::external_type_specification]
pub struct ExCodeModel(CodeModel);

fn backend_opt_level(o: OptLevel) -> (r: OptimizationLevel) {
    match o {
        OptLevel::Nothing => OptimizationLevel::None,
        OptLevel::Less => OptimizationLevel::Less,
        OptLevel::Default => OptimizationLevel::Default,
        OptLevel::Aggressive => OptimizationLevel::Aggressive,
    }
}

fn backend_reloc_mode(r: Relocation) -> (m: RelocMode) {
    match r {
        Relocation::Default => RelocMode::Default,
        Relocation::Static => RelocMode::Static,
        Relocation::Pic => RelocMode::PIC,
        Relocation::DynamicNoPic => RelocMode::DynamicNoPic,
    }
}

fn backend_code_model(c: CodeSize) -> (m: CodeModel) {
    match c {
        CodeSize::Default => CodeModel::Default,
        CodeSize::JitDefault => CodeModel::JITDefault,
        CodeSize::Small => CodeModel::Small,
        CodeSize::Kernel => CodeModel::Kernel,
        CodeSize::Medium => CodeModel::Medium,
        CodeSize::Large => CodeModel::Large,
    }
}

/// Relies on inkwell's Target::create_target_machine: `None` when the
/// target refuses the processor or features.
#[verifier::external_body]
fn machine_for(
    t: &Target,
    triple: &str,
    cpu: &str,
    features: &str,
    opt: OptimizationLevel,
    reloc: RelocMode,
    model: CodeModel,
) -> (r: Option<TargetMachine>) {
    t.create_target_machine(&TargetTriple::create(triple), cpu, features, opt, reloc, model)
}

/// Relies on inkwell's Module::set_triple, with the machine's triple.
#[verifier::external_body]
fn set_module_triple<'ctx>(m: &Module<'ctx>, tm: &TargetMachine) {
    m.set_triple(&tm.get_triple())
}

/// Relies on inkwell's Module::set_data_layout, with the machine's layout.
#[verifier::external_body]
fn set_module_layout<'ctx>(m: &Module<'ctx>, tm: &TargetMachine) {
    m.set_data_layout(&tm.get_target_data().get_data_layout())
}

/// Relies on inkwell's Module::verify: `true` when the backend's own checks
/// accept the module.
#[verifier::external_body]
fn backend_accepts<'ctx>(m: &Module<'ctx>) -> (r: bool) {
    m.verify().is_ok()
}

/// Relies on inkwell's TargetMachine::write_to_memory_buffer: the bytes of a
/// relocatable object file.
#[verifier::external_body]
fn object_bytes<'ctx>(tm: &TargetMachine, m: &Module<'ctx>) -> (r: Option<Vec<u8>>) {
    tm.write_to_memory_buffer(m, FileType::Object).ok().map(|b| b.as_slice().to_vec())
}

/// Some byte of `s` is zero.
pub open spec fn has_zero_byte(s: Seq<u8>) -> bool {
    exists|i: int| 0 <= i < s.len() && s[i] == 0
}

/// A function name or an interned string of `m` holds a zero byte, which
/// the backend cannot take.
pub open spec fn names_unlowerable(m: ModuleView) -> bool {
    (exists|f: int| 0 <= f < m.funcs.len() && has_zero_byte(m.funcs[f].name))
}

/// The strings of `m` are lowered, as some function has a body, and one of
/// them holds a zero byte.
pub open spec fn strings_unlowerable(m: ModuleView) -> bool {
    &&& exists|f: int| 0 <= f < m.funcs.len() && m.funcs[f].blocks.len() > 0
    &&& exists|k: int| 0 <= k < m.strings.len() && has_zero_byte(m.strings[k])
}

/// No interned string of `m` holds a zero byte.
pub open spec fn strings_lowerable(m: ModuleView) -> bool {
    forall|k: int| 0 <= k < m.strings.len() ==> !has_zero_byte(#[trigger] m.strings[k])
}

/// Text without zero bytes, as the backend takes names and strings.
fn backend_text(b: &Vec<u8>) -> (r: Result<String, EmitError>)
    ensures
        (exists|i: int| 0 <= i < b@.len() && b@[i] == 0) ==> r == Err::<String, _>(
            EmitError::UnsupportedText,
        ),
        r is Err ==> r == Err::<String, _>(EmitError::UnsupportedText),
        r is Ok ==> !has_zero_byte(b@),
{
    let mut i: usize = 0;
    while i < b.len()
        invariant
            i <= b.len(),
            forall|j: int| 0 <= j < i ==> b@[j] != 0,
        decreases b.len() - i,
    {
        if b[i] == 0 {
            return Err(EmitError::UnsupportedText);
        }
        i = i + 1;
    }
    match utf8_text(b) {
        Some(s) => Ok(s),
        None => Err(EmitError::UnsupportedText),
    }
}

/// Selects the target: `triple` when given, the host's otherwise, with the
/// generic processor, no extra features and default settings. Sets up the
/// host's target first.
pub fn select_target(triple: Option<String>) -> (r: Result<TargetConfig, EmitError>)
    ensures
        r is Ok && triple is Some ==> r->Ok_0.triple == triple->Some_0,
        r is Ok ==> r->Ok_0.cpu@ == "generic"@ && r->Ok_0.features@ == ""@,
        r is Ok ==> r->Ok_0.opt == OptLevel::Default && r->Ok_0.reloc == Relocation::Default
            && r->Ok_0.model == CodeSize::Default,
        r is Err ==> r == Err::<TargetConfig, _>(EmitError::UnsupportedTarget),
{
    if !initialize_host_target() {
        return Err(EmitError::UnsupportedTarget);
    }
    let triple = match triple {
        Some(t) => t,
        None => host_triple(),
    };
    match target_for(triple.as_str()) {
        Some(_) => Ok(
            TargetConfig {
                triple,
                cpu: "generic".to_string(),
                features: "".to_string(),
                opt: OptLevel::Default,
                reloc: Relocation::Default,
                model: CodeSize::Default,
            },
        ),
        None => Err(EmitError::UnsupportedTarget),
    }
}

/// The backend types of the module's type table, in its order. A type may
/// only refer to types before it, as the table is built.
fn lower_types<'ctx>(cg: &CodeGen, c: &'ctx Context) -> (r: Result<Vec<LlvmType<'ctx>>, EmitError>)
    requires
        cg@.wf(),
    ensures
        r is Ok ==> r->Ok_0@.len() == cg@.types.len(),
        r is Err ==> r->Err_0 != EmitError::UnsupportedTarget,
{
    let mut out: Vec<LlvmType<'ctx>> = Vec::new();
    let n = cg.type_count();
    let mut i: usize = 0;
    while i < n
        invariant
            cg@.wf(),
            n == cg@.types.len(),
            i <= n,
            out@.len() == i,
        decreases n - i,
    {
        let k = cg.type_kind(i);
        let lowered = match k {
            Some(TypeKind::Void) => LlvmType::Void(void_type_of(c)),
            Some(TypeKind::Int(w)) => {
                proof {
                    assert(crate::codegen::type_closed(cg@.types[i as int], cg@.types));
                }
                LlvmType::Int(int_type_of(c, w))
            },
            Some(TypeKind::Ptr(e)) => {
                if e >= i {
                    return Err(EmitError::UnorderedOperand);
                }
                match out[e] {
                    LlvmType::Int(t) => LlvmType::Ptr(int_ptr_type(t)),
                    LlvmType::Ptr(t) => LlvmType::Ptr(ptr_ptr_type(t)),
                    _ => return Err(EmitError::Backend),
                }
            },
            Some(TypeKind::Func(ps, ret, variadic)) => {
                let mut params: Vec<LlvmValueType<'ctx>> = Vec::new();
                let mut j: usize = 0;
                while j < ps.len()
                    invariant
                        j <= ps.len(),
                        out@.len() == i,
                    decreases ps.len() - j,
                {
                    if ps[j] >= i {
                        return Err(EmitError::UnorderedOperand);
                    }
                    match out[ps[j]] {
                        LlvmType::Int(t) => params.push(LlvmValueType::Int(t)),
                        LlvmType::Ptr(t) => params.push(LlvmValueType::Ptr(t)),
                        _ => return Err(EmitError::Backend),
                    }
                    j = j + 1;
                }
                if ret >= i {
                    return Err(EmitError::UnorderedOperand);
                }
                match out[ret] {
                    LlvmType::Void(t) => LlvmType::Func(void_fn_type(t, &params, variadic)),
                    LlvmType::Int(t) => LlvmType::Func(int_fn_type(t, &params, variadic)),
                    LlvmType::Ptr(t) => LlvmType::Func(ptr_fn_type(t, &params, variadic)),
                    _ => return Err(EmitError::Backend),
                }
            },
            None => return Err(EmitError::Backend),
        };
        out.push(lowered);
        i = i + 1;
    }
    Ok(out)
}

/// The backend value of operand `v` inside function `f`, whose blocks before
/// the current one are lowered into `done` and whose current block is
/// lowered into `cur` so far.
fn lower_operand<'ctx>(
    v: Value,
    types: &Vec<LlvmType<'ctx>>,
    f: FunctionValue<'ctx>,
    done: &Vec<Vec<Option<BasicValueEnum<'ctx>>>>,
    cur: &Vec<Option<BasicValueEnum<'ctx>>>,
    strs: &Vec<BasicValueEnum<'ctx>>,
) -> (r: Result<BasicValueEnum<'ctx>, EmitError>)
    ensures
        r is Err ==> r->Err_0 != EmitError::UnsupportedTarget,
{
    match v.op {
        Operand::Const(k) => {
            if v.ty >= types.len() {
                return Err(EmitError::Backend);
            }
            match types[v.ty] {
                LlvmType::Int(t) => Ok(const_int_of(t, k)),
                _ => Err(EmitError::Backend),
            }
        },
        Operand::Param(i) => {
            if i >= 0xffff_ffffusize {
                return Err(EmitError::Backend);
            }
            match nth_param(f, i as u32) {
                Some(x) => Ok(x),
                None => Err(EmitError::Backend),
            }
        },
        Operand::Reg(b, i) => {
            let found = if b < done.len() {
                if i < done[b].len() {
                    done[b][i]
                } else {
                    None
                }
            } else if b == done.len() && i < cur.len() {
                cur[i]
            } else {
                None
            };
            match found {
                Some(x) => Ok(x),
                None => Err(EmitError::UnorderedOperand),
            }
        },
        Operand::Str(k) => {
            if k < strs.len() {
                Ok(strs[k])
            } else {
                Err(EmitError::Backend)
            }
        },
    }
}

/// Lowers one instruction at the builder's position; the result is the
/// register it defines, if any.
fn lower_instr<'ctx>(
    i: &Instr,
    b: &Builder<'ctx>,
    types: &Vec<LlvmType<'ctx>>,
    fvals: &Vec<FunctionValue<'ctx>>,
    f: FunctionValue<'ctx>,
    done: &Vec<Vec<Option<BasicValueEnum<'ctx>>>>,
    cur: &Vec<Option<BasicValueEnum<'ctx>>>,
    strs: &Vec<BasicValueEnum<'ctx>>,
) -> (r: Result<Option<BasicValueEnum<'ctx>>, EmitError>)
    ensures
        r is Err ==> r->Err_0 != EmitError::UnsupportedTarget,
{
    match i {
        Instr::Add(x, y) => {
            let x = lower_operand(*x, types, f, done, cur, strs)?;
            let y = lower_operand(*y, types, f, done, cur, strs)?;
            match int_add(b, x, y) {
                Some(v) => Ok(Some(v)),
                None => Err(EmitError::Backend),
            }
        },
        Instr::Load(p, _) => {
            let pty = p.ty;
            let p = lower_operand(*p, types, f, done, cur, strs)?;
            if pty >= types.len() {
                return Err(EmitError::Backend);
            }
            let t = match types[pty] {
                LlvmType::Ptr(t) => t,
                _ => return Err(EmitError::Backend),
            };
            let q = match cast_pointer(b, p, t) {
                Some(q) => q,
                None => return Err(EmitError::Backend),
            };
            match load_through(b, q) {
                Some(v) => Ok(Some(v)),
                None => Err(EmitError::Backend),
            }
        },
        Instr::ZExt(x, t) => {
            let x = lower_operand(*x, types, f, done, cur, strs)?;
            if *t >= types.len() {
                return Err(EmitError::Backend);
            }
            match types[*t] {
                LlvmType::Int(t) => match zero_extend(b, x, t) {
                    Some(v) => Ok(Some(v)),
                    None => Err(EmitError::Backend),
                },
                _ => Err(EmitError::Backend),
            }
        },
        Instr::Call(g, args) => {
            if *g >= fvals.len() {
                return Err(EmitError::Backend);
            }
            let mut vals: Vec<BasicValueEnum<'ctx>> = Vec::new();
            let mut k: usize = 0;
            while k < args.len()
                invariant
                    k <= args.len(),
                decreases args.len() - k,
            {
                let v = lower_operand(args[k], types, f, done, cur, strs)?;
                vals.push(v);
                k = k + 1;
            }
            match call_function(b, fvals[*g], &vals) {
                Some(r) => Ok(r),
                None => Err(EmitError::Backend),
            }
        },
    }
}

/// Every interned string as a private constant ending in a zero byte, in
/// the order of the table. The builder must be positioned in a block.
fn lower_strings<'ctx>(cg: &CodeGen, b: &Builder<'ctx>) -> (r: Result<Vec<BasicValueEnum<'ctx>>, EmitError>)
    ensures
        r is Ok ==> r->Ok_0@.len() == cg@.strings.len(),
        r is Ok ==> strings_lowerable(cg@),
        r is Err ==> r->Err_0 != EmitError::UnsupportedTarget,
{
    let ns = cg.string_count();
    let mut strs: Vec<BasicValueEnum<'ctx>> = Vec::new();
    let mut k: usize = 0;
    while k < ns
        invariant
            ns == cg@.strings.len(),
            k <= ns,
            strs@.len() == k,
            forall|j: int| 0 <= j < k ==> !has_zero_byte(#[trigger] cg@.strings[j]),
        decreases ns - k,
    {
        let text = match cg.string_content(k) {
            Some(t) => backend_text(&t)?,
            None => return Err(EmitError::Backend),
        };
        match global_string_ptr(b, text.as_str()) {
            Some(p) => strs.push(p),
            None => return Err(EmitError::Backend),
        }
        k = k + 1;
    }
    Ok(strs)
}

/// Lowers the body of function `f`: its blocks in order, each with its
/// instructions and its terminator. The strings are made in the first block
/// lowered, when `strs` does not hold them yet.
fn lower_body<'ctx>(
    cg: &CodeGen,
    f: usize,
    c: &'ctx Context,
    b: &Builder<'ctx>,
    types: &Vec<LlvmType<'ctx>>,
    fvals: &Vec<FunctionValue<'ctx>>,
    strs: &mut Vec<BasicValueEnum<'ctx>>,
) -> (r: Result<(), EmitError>)
    requires
        cg@.wf(),
        f < cg@.funcs.len(),
        fvals@.len() == cg@.funcs.len(),
        old(strs)@.len() > 0 ==> strings_lowerable(cg@),
    ensures
        r is Err ==> r->Err_0 != EmitError::UnsupportedTarget,
        final(strs)@.len() > 0 ==> strings_lowerable(cg@),
        r is Ok && cg@.funcs[f as int].blocks.len() > 0 ==> strings_lowerable(cg@),
{
    let fv = fvals[f];
    let nb = cg.block_count(f);
    let mut bbs: Vec<BasicBlock<'ctx>> = Vec::new();
    let mut i: usize = 0;
    while i < nb
        invariant
            i <= nb,
            bbs@.len() == i,
        decreases nb - i,
    {
        bbs.push(append_block_to(c, fv));
        i = i + 1;
    }
    let mut done: Vec<Vec<Option<BasicValueEnum<'ctx>>>> = Vec::new();
    let mut k: usize = 0;
    while k < nb
        invariant
            cg@.wf(),
            f < cg@.funcs.len(),
            nb == cg@.funcs[f as int].blocks.len(),
            bbs@.len() == nb,
            k <= nb,
            strs@.len() > 0 ==> strings_lowerable(cg@),
            k > 0 ==> strings_lowerable(cg@),
        decreases nb - k,
    {
        position_builder(b, bbs[k]);
        if strs.len() == 0 {
            *strs = lower_strings(cg, b)?;
        }
        let blk = cg.block_at(f, k);
        let mut cur: Vec<Option<BasicValueEnum<'ctx>>> = Vec::new();
        let mut j: usize = 0;
        while j < blk.instrs.len()
            invariant
                j <= blk.instrs.len(),
                strings_lowerable(cg@),
            decreases blk.instrs.len() - j,
        {
            let v = lower_instr(&blk.instrs[j], b, types, fvals, fv, &done, &cur, strs)?;
            cur.push(v);
            j = j + 1;
        }
        let ok = match blk.term {
            Some(Terminator::Ret(None)) => return_value(b, None),
            Some(Terminator::Ret(Some(v))) => {
                let x = lower_operand(v, types, fv, &done, &cur, strs)?;
                return_value(b, Some(x))
            },
            Some(Terminator::Br(t)) => {
                if t >= bbs.len() {
                    return Err(EmitError::Backend);
                }
                branch_to(b, bbs[t])
            },
            None => false,
        };
        if !ok {
            return Err(EmitError::Backend);
        }
        done.push(cur);
        k = k + 1;
    }
    Ok(())
}

/// Lowers a verified module into a backend module of context `c`: every
/// function declared with its name, type and linkage, every string as a
/// private constant ending in a zero byte, every body block by block.
pub fn lower_into<'ctx>(vm: &VerifiedModule, c: &'ctx Context) -> (r: Result<Module<'ctx>, EmitError>)
    requires
        vm.inv(),
    ensures
        r is Err ==> r->Err_0 != EmitError::UnsupportedTarget,
        names_unlowerable(vm.module()) ==> r is Err,
        strings_unlowerable(vm.module()) ==> r is Err,
{
    let cg = vm.codegen();
    let types = lower_types(cg, c)?;
    let module = new_module(c, "module");
    let nf = cg.function_count();
    let mut fvals: Vec<FunctionValue<'ctx>> = Vec::new();
    let mut f: usize = 0;
    while f < nf
        invariant
            cg@.wf(),
            nf == cg@.funcs.len(),
            types@.len() == cg@.types.len(),
            f <= nf,
            fvals@.len() == f,
            forall|g: int| 0 <= g < f ==> !has_zero_byte(#[trigger] cg@.funcs[g].name),
        decreases nf - f,
    {
        let func = cg.function_at(f);
        let name = backend_text(&func.name)?;
        if func.ty >= types.len() {
            return Err(EmitError::Backend);
        }
        match types[func.ty] {
            LlvmType::Func(t) => fvals.push(add_function_to(&module, name.as_str(), t, func.linkage)),
            _ => return Err(EmitError::Backend),
        }
        f = f + 1;
    }
    let builder = new_builder(c);
    let mut strs: Vec<BasicValueEnum<'ctx>> = Vec::new();
    let mut f: usize = 0;
    while f < nf
        invariant
            cg@.wf(),
            nf == cg@.funcs.len(),
            fvals@.len() == nf,
            f <= nf,
            strs@.len() > 0 ==> strings_lowerable(cg@),
            (exists|g: int| 0 <= g < f && cg@.funcs[g].blocks.len() > 0) ==> strings_lowerable(cg@),
        decreases nf - f,
    {
        lower_body(cg, f, c, &builder, &types, &fvals, &mut strs)?;
        f = f + 1;
    }
    Ok(module)
}

/// Lowers a verified module and writes it for target `t` as the bytes of a
/// relocatable object file, with the target's triple and data layout in it.
pub fn emit_object(vm: &VerifiedModule, t: &TargetConfig) -> (r: Result<Vec<u8>, EmitError>)
    requires
        vm.inv(),
    ensures
        names_unlowerable(vm.module()) ==> r is Err,
        strings_unlowerable(vm.module()) ==> r is Err,
{
    let target = match target_for(t.triple.as_str()) {
        Some(x) => x,
        None => return Err(EmitError::UnsupportedTarget),
    };
    let machine = match machine_for(
        &target,
        t.triple.as_str(),
        t.cpu.as_str(),
        t.features.as_str(),
        backend_opt_level(t.opt),
        backend_reloc_mode(t.reloc),
        backend_code_model(t.model),
    ) {
        Some(m) => m,
        None => return Err(EmitError::UnsupportedTarget),
    };
    let c = new_context();
    let module = lower_into(vm, &c)?;
    set_module_triple(&module, &machine);
    set_module_layout(&module, &machine);
    if !backend_accepts(&module) {
        return Err(EmitError::Backend);
    }
    match object_bytes(&machine, &module) {
        Some(bytes) => Ok(bytes),
        None => Err(EmitError::Backend),
    }
}

} // verus!
