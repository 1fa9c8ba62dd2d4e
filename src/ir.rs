use vstd::prelude::*;

verus! {

/// Index of a type in a module's type table.
pub type TypeId = usize;

/// Index of a function in a module's function list.
pub type FuncId = usize;

/// The shape of a type. A function type refers to the types of its
/// parameters and of its result by their indices in the same table.
#[derive(Clone, Debug)]
pub enum TypeKind {
    Void,
    Int(u32),
    Ptr(TypeId),
    Func(Vec<TypeId>, TypeId, bool),
}

/// The mathematical shape of a type.
pub ghost enum TypeSpec {
    Void,
    Int(u32),
    Ptr(TypeId),
    Func(Seq<TypeId>, TypeId, bool),
}

impl View for TypeKind {
    type V = TypeSpec;

    open spec fn view(&self) -> TypeSpec {
        match self {
            TypeKind::Void => TypeSpec::Void,
            TypeKind::Int(w) => TypeSpec::Int(*w),
            TypeKind::Ptr(e) => TypeSpec::Ptr(*e),
            TypeKind::Func(ps, r, v) => TypeSpec::Func(ps@, *r, *v),
        }
    }
}

/// Linkage of a function. `Internal`: its body is built in this module (it
/// is still visible to the linker, as an entry point must be). `External`:
/// it is only declared here and resolved when the object is linked.
#[derive(Clone, Copy, Debug, PartialEq, Eq, Structural)]
pub enum Linkage {
    Internal,
    External,
}

/// Where a value comes from.
#[derive(Clone, Copy, Debug, PartialEq, Eq, Structural)]
pub enum Operand {
    /// An integer constant, taken modulo two to the power of its width.
    Const(u64),
    /// The parameter of the enclosing function at this position.
    Param(usize),
    /// The result of the instruction at (block, position) of the enclosing
    /// function.
    Reg(usize, usize),
    /// A pointer to the interned string constant with this index.
    Str(usize),
}

/// A typed value: a constant or a computed register, always with its type.
#[derive(Clone, Copy, Debug, PartialEq, Eq, Structural)]
pub struct Value {
    pub ty: TypeId,
    pub op: Operand,
}

/// One non-terminating instruction.
#[derive(Clone, Debug)]
pub enum Instr {
    /// Wrapping integer addition of two operands of one width.
    Add(Value, Value),
    /// Load of a value of the given type through a pointer.
    Load(Value, TypeId),
    /// Zero extension of an integer to a wider integer type.
    ZExt(Value, TypeId),
    /// Call of a function with the given arguments, after promotion.
    Call(FuncId, Vec<Value>),
}

pub ghost enum InstrSpec {
    Add(Value, Value),
    Load(Value, TypeId),
    ZExt(Value, TypeId),
    Call(FuncId, Seq<Value>),
}

impl View for Instr {
    type V = InstrSpec;

    open spec fn view(&self) -> InstrSpec {
        match self {
            Instr::Add(a, b) => InstrSpec::Add(*a, *b),
            Instr::Load(p, t) => InstrSpec::Load(*p, *t),
            Instr::ZExt(v, t) => InstrSpec::ZExt(*v, *t),
            Instr::Call(f, args) => InstrSpec::Call(*f, args@),
        }
    }
}

/// The instruction that ends a basic block.
#[derive(Clone, Copy, Debug, PartialEq, Eq, Structural)]
pub enum Terminator {
    /// Return, with a value unless the function returns nothing.
    Ret(Option<Value>),
    /// Unconditional branch to a block of the same function.
    Br(usize),
}

/// A straight-line sequence of instructions, with its terminator once the
/// block is finished.
#[derive(Clone, Debug)]
pub struct Block {
    pub instrs: Vec<Instr>,
    pub term: Option<Terminator>,
}

pub ghost struct BlockSpec {
    pub instrs: Seq<InstrSpec>,
    pub term: Option<Terminator>,
}

impl View for Block {
    type V = BlockSpec;

    open spec fn view(&self) -> BlockSpec {
        BlockSpec { instrs: self.instrs@.map_values(|i: Instr| i@), term: self.term }
    }
}

/// A function: its name, its type, its linkage and its blocks, the first of
/// which is the entry.
#[derive(Clone, Debug)]
pub struct Function {
    pub name: Vec<u8>,
    pub ty: TypeId,
    pub linkage: Linkage,
    pub blocks: Vec<Block>,
}

pub ghost struct FunctionSpec {
    pub name: Seq<u8>,
    pub ty: TypeId,
    pub linkage: Linkage,
    pub blocks: Seq<BlockSpec>,
}

impl View for Function {
    type V = FunctionSpec;

    open spec fn view(&self) -> FunctionSpec {
        FunctionSpec {
            name: self.name@,
            ty: self.ty,
            linkage: self.linkage,
            blocks: self.blocks@.map_values(|b: Block| b@),
        }
    }
}

/// Errors raised at the offending construction call.
#[derive(Clone, Copy, Debug, PartialEq, Eq, Structural)]
pub enum ConstructionError {
    /// A name is already declared with another type.
    SignatureConflict,
    /// A call passes the wrong number of arguments.
    Arity,
    /// An operand's type is not the one the instruction needs.
    TypeMismatch,
    /// A type, function, block or value that the module does not hold.
    Unknown,
    /// The builder is not positioned in a block, or its block is finished.
    NoInsertionPoint,
    /// Blocks are added to a function that is only declared here.
    DeclarationOnly,
}

} // verus!
