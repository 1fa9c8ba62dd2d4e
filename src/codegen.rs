use vstd::prelude::*;
use crate::emission::{module_verifies, VerificationError};
use crate::ir::{
    Block, BlockSpec, ConstructionError, FuncId, Function, FunctionSpec, Instr, InstrSpec, Linkage, Operand,
    Terminator, TypeId, TypeKind, TypeSpec, Value,
};

verus! {

/// Largest integer width, in bits, that the backend accepts.
pub const MAX_INT_WIDTH: u32 = 8388608;

/// Integers narrower than this are widened when passed as variadic arguments.
pub const PROMOTED_WIDTH: u32 = 32;

/// The mathematical state of a module under construction.
pub ghost struct ModuleView {
    pub types: Seq<TypeSpec>,
    pub funcs: Seq<FunctionSpec>,
    pub strings: Seq<Seq<u8>>,
    pub cursor: Option<(FuncId, usize)>,
}

/// Types whose values can be passed, returned and held in registers.
pub open spec fn is_value_type(t: TypeSpec) -> bool {
    t is Int || t is Ptr
}

/// Type `t` is well formed against table `types`: integer widths are in
/// range, and every type it refers to is in the table and may be pointed to,
/// passed or returned.
pub open spec fn type_closed(t: TypeSpec, types: Seq<TypeSpec>) -> bool {
    match t {
        TypeSpec::Void => true,
        TypeSpec::Int(w) => 1 <= w <= MAX_INT_WIDTH,
        TypeSpec::Ptr(e) => e < types.len() && is_value_type(types[e as int]),
        TypeSpec::Func(ps, r, _) => r < types.len() && (types[r as int] is Void || is_value_type(
            types[r as int],
        )) && forall|i: int|
            0 <= i < ps.len() ==> (#[trigger] ps[i]) < types.len() && is_value_type(types[ps[i] as int]),
    }
}

/// Every type of the table is well formed, and no type is in it twice, so a
/// type's index is its identity.
pub open spec fn types_wf(types: Seq<TypeSpec>) -> bool {
    &&& forall|i: int| 0 <= i < types.len() ==> type_closed(#[trigger] types[i], types)
    &&& forall|i: int, j: int|
        0 <= i < types.len() && 0 <= j < types.len() && i != j ==> types[i] != types[j]
}

impl ModuleView {
    /// The parameter types, result type and variadic flag of function `f`.
    pub open spec fn sig(self, f: FuncId) -> (Seq<TypeId>, TypeId, bool) {
        match self.types[self.funcs[f as int].ty as int] {
            TypeSpec::Func(ps, r, v) => (ps, r, v),
            _ => (Seq::empty(), 0, false),
        }
    }

    /// `t` is an integer type of the table.
    pub open spec fn is_int(self, t: TypeId) -> bool {
        t < self.types.len() && self.types[t as int] is Int
    }

    /// The type that instruction `i` produces.
    pub open spec fn result_type(self, i: InstrSpec) -> Option<TypeId> {
        match i {
            InstrSpec::Add(a, _) => Some(a.ty),
            InstrSpec::Load(_, t) => Some(t),
            InstrSpec::ZExt(_, t) => Some(t),
            InstrSpec::Call(f, _) => if f < self.funcs.len() {
                Some(self.sig(f).1)
            } else {
                None
            },
        }
    }

    /// Value `v` is known inside function `f` and carries the right type.
    pub open spec fn value_ok(self, f: FuncId, v: Value) -> bool {
        &&& v.ty < self.types.len()
        &&& match v.op {
            Operand::Const(_) => self.types[v.ty as int] is Int,
            Operand::Param(i) => i < self.sig(f).0.len() && self.sig(f).0[i as int] == v.ty,
            Operand::Reg(b, i) => {
                &&& b < self.funcs[f as int].blocks.len()
                &&& i < self.funcs[f as int].blocks[b as int].instrs.len()
                &&& self.result_type(self.funcs[f as int].blocks[b as int].instrs[i as int])
                    == Some(v.ty)
                &&& !(self.types[v.ty as int] is Void)
            },
            Operand::Str(k) => k < self.strings.len() && self.is_char_ptr(v.ty),
        }
    }

    /// `t` is the type of pointers to bytes.
    pub open spec fn is_char_ptr(self, t: TypeId) -> bool {
        &&& t < self.types.len()
        &&& self.types[t as int] is Ptr
        &&& self.types[t as int]->Ptr_0 < self.types.len()
        &&& self.types[self.types[t as int]->Ptr_0 as int] == TypeSpec::Int(8)
    }

    /// Every function has a function type of the table, a declaration only
    /// has no blocks, and names are unique.
    pub open spec fn funcs_wf(self) -> bool {
        &&& forall|f: int|
            0 <= f < self.funcs.len() ==> (#[trigger] self.funcs[f]).ty < self.types.len()
                && self.types[self.funcs[f].ty as int] is Func
                && (self.funcs[f].linkage == Linkage::External ==> self.funcs[f].blocks.len() == 0)
        &&& forall|f: int, g: int|
            0 <= f < self.funcs.len() && 0 <= g < self.funcs.len() && f != g
                ==> self.funcs[f].name != self.funcs[g].name
    }

    /// No content is interned twice.
    pub open spec fn strings_wf(self) -> bool {
        forall|i: int, j: int|
            0 <= i < self.strings.len() && 0 <= j < self.strings.len() && i != j
                ==> self.strings[i] != self.strings[j]
    }

    /// The cursor, when set, is in a block of the module.
    pub open spec fn cursor_wf(self) -> bool {
        match self.cursor {
            Some((f, b)) => f < self.funcs.len() && b < self.funcs[f as int].blocks.len(),
            None => true,
        }
    }

    /// The module's invariant, which every construction call keeps.
    pub open spec fn wf(self) -> bool {
        &&& types_wf(self.types)
        &&& self.funcs_wf()
        &&& self.strings_wf()
        &&& self.cursor_wf()
    }

    /// `self` is `old` with type `t` interned as `r`: the table is unchanged
    /// when it held `t`, and grows by `t` alone otherwise.
    pub open spec fn interned(self, old: ModuleView, t: TypeSpec, r: TypeId) -> bool {
        &&& self.funcs == old.funcs
        &&& self.strings == old.strings
        &&& self.cursor == old.cursor
        &&& r < self.types.len()
        &&& self.types[r as int] == t
        &&& old.types.contains(t) ==> self.types == old.types
        &&& !old.types.contains(t) ==> self.types == old.types.push(t)
    }

    /// `self` differs from `old` only by types added at the end of the table.
    pub open spec fn grows_types(self, old: ModuleView) -> bool {
        &&& self.funcs == old.funcs
        &&& self.strings == old.strings
        &&& self.cursor == old.cursor
        &&& types_prefix(old.types, self.types)
    }

    /// Some function is named `name`.
    pub open spec fn has_name(self, name: Seq<u8>) -> bool {
        exists|f: int| 0 <= f < self.funcs.len() && self.funcs[f].name == name
    }

    /// The block that the cursor is in, while that block is not finished.
    pub open spec fn insertion(self) -> Option<(FuncId, usize)> {
        match self.cursor {
            Some((f, b)) => if f < self.funcs.len() && b < self.funcs[f as int].blocks.len()
                && self.funcs[f as int].blocks[b as int].term is None {
                Some((f, b))
            } else {
                None
            },
            None => None,
        }
    }

    /// Block `b` of function `f`.
    pub open spec fn block(self, f: FuncId, b: usize) -> BlockSpec {
        self.funcs[f as int].blocks[b as int]
    }

    /// `self` with block `b` of function `f` replaced by `blk`.
    pub open spec fn with_block(self, f: FuncId, b: usize, blk: BlockSpec) -> ModuleView {
        ModuleView {
            funcs: self.funcs.update(
                f as int,
                FunctionSpec {
                    blocks: self.funcs[f as int].blocks.update(b as int, blk),
                    ..self.funcs[f as int]
                },
            ),
            ..self
        }
    }

    /// `self` with instruction `i` appended to block `b` of function `f`.
    pub open spec fn with_instr(self, f: FuncId, b: usize, i: InstrSpec) -> ModuleView {
        self.with_block(
            f,
            b,
            BlockSpec { instrs: self.block(f, b).instrs.push(i), term: self.block(f, b).term },
        )
    }

    /// `self` with block `b` of function `f` finished by `t`.
    pub open spec fn with_term(self, f: FuncId, b: usize, t: Terminator) -> ModuleView {
        self.with_block(f, b, BlockSpec { instrs: self.block(f, b).instrs, term: Some(t) })
    }

    /// Integers narrower than the promoted width.
    pub open spec fn is_narrow_int(self, t: TypeId) -> bool {
        t < self.types.len() && self.types[t as int] is Int && self.types[t as int]->Int_0
            < PROMOTED_WIDTH
    }

    /// `p` is `args` after variadic promotion in block `b` of function `f`:
    /// the first `nfixed` arguments stay, and each later narrow integer is
    /// replaced by the result of a zero extension of it to 32 bits.
    pub open spec fn promoted(
        self,
        f: FuncId,
        b: usize,
        args: Seq<Value>,
        p: Seq<Value>,
        nfixed: int,
        k: int,
    ) -> bool {
        &&& 0 <= k <= args.len()
        &&& 0 <= k <= p.len()
        &&& forall|i: int| 0 <= i < k ==> self.promoted_at(f, b, args[i], #[trigger] p[i], i < nfixed)
    }

    /// Argument `a` became `q`: unchanged when it is a fixed one or not a
    /// narrow integer, else the result of its zero extension to 32 bits.
    pub open spec fn promoted_at(self, f: FuncId, b: usize, a: Value, q: Value, fixed: bool) -> bool {
        if !fixed && self.is_narrow_int(a.ty) {
            &&& q.ty < self.types.len()
            &&& self.types[q.ty as int] == TypeSpec::Int(PROMOTED_WIDTH)
            &&& q.op is Reg
            &&& q.op->Reg_0 == b
            &&& q.op->Reg_1 < self.block(f, b).instrs.len()
            &&& self.block(f, b).instrs[q.op->Reg_1 as int] == InstrSpec::ZExt(a, q.ty)
        } else {
            q == a
        }
    }

    /// `self` is `old` with instructions appended to block `b` of function
    /// `f` and types appended to the table, and nothing else changed.
    pub open spec fn extends_block(self, old: ModuleView, f: FuncId, b: usize) -> bool {
        &&& types_prefix(old.types, self.types)
        &&& self.strings == old.strings
        &&& self.cursor == old.cursor
        &&& self.funcs.len() == old.funcs.len()
        &&& f < old.funcs.len()
        &&& b < old.funcs[f as int].blocks.len()
        &&& forall|g: int| 0 <= g < old.funcs.len() && g != f ==> self.funcs[g] == old.funcs[g]
        &&& self.funcs[f as int].name == old.funcs[f as int].name
        &&& self.funcs[f as int].ty == old.funcs[f as int].ty
        &&& self.funcs[f as int].linkage == old.funcs[f as int].linkage
        &&& self.funcs[f as int].blocks.len() == old.funcs[f as int].blocks.len()
        &&& forall|c: int|
            0 <= c < old.funcs[f as int].blocks.len() && c != b ==> self.funcs[f as int].blocks[c]
                == old.funcs[f as int].blocks[c]
        &&& self.block(f, b).term == old.block(f, b).term
        &&& old.block(f, b).instrs.len() <= self.block(f, b).instrs.len()
        &&& self.block(f, b).instrs.subrange(0, old.block(f, b).instrs.len() as int) == old.block(
            f,
            b,
        ).instrs
    }
}

/// What a call of `callee` with `args` at block `b` of function `f` of `m`
/// gives: the error, or the module `n` with the promoted call appended and
/// the register `v` that holds its result.
pub open spec fn call_outcome(
    m: ModuleView,
    f: FuncId,
    b: usize,
    callee: FuncId,
    args: Seq<Value>,
    r: Result<Value, ConstructionError>,
    n: ModuleView,
) -> bool {
    if callee >= m.funcs.len() || exists|i: int| 0 <= i < args.len() && !m.value_ok(f, args[i]) {
        r == Err::<Value, _>(ConstructionError::Unknown)
    } else if (!m.sig(callee).2 && args.len() != m.sig(callee).0.len()) || (m.sig(callee).2
        && args.len() < m.sig(callee).0.len()) {
        r == Err::<Value, _>(ConstructionError::Arity)
    } else if exists|i: int| 0 <= i < m.sig(callee).0.len() && args[i].ty != m.sig(callee).0[i] {
        r == Err::<Value, _>(ConstructionError::TypeMismatch)
    } else {
        let last = n.block(f, b).instrs.last();
        &&& n.wf()
        &&& n.extends_block(m, f, b)
        &&& n.block(f, b).instrs.len() > m.block(f, b).instrs.len()
        &&& r == Ok::<Value, ConstructionError>(
            Value {
                ty: m.sig(callee).1,
                op: Operand::Reg(b, (n.block(f, b).instrs.len() - 1) as usize),
            },
        )
        &&& last is Call
        &&& last->Call_0 == callee
        &&& last->Call_1.len() == args.len()
        &&& n.promoted(f, b, args, last->Call_1, m.sig(callee).0.len() as int, args.len() as int)
    }
}

/// The name of the process entry point, `main`.
pub open spec fn entry_name() -> Seq<u8> {
    seq![109u8, 97u8, 105u8, 110u8]
}

/// Type `t` of `m` is that of a process entry point: a function of a 32-bit
/// argument count and a pointer to pointers to bytes that returns a 32-bit
/// exit status, not variadic.
pub open spec fn is_entry_type(m: ModuleView, t: TypeId) -> bool {
    &&& t < m.types.len()
    &&& m.types[t as int] is Func
    &&& m.types[t as int]->Func_0.len() == 2
    &&& m.types[m.types[t as int]->Func_0[0] as int] == TypeSpec::Int(32)
    &&& m.types[t as int]->Func_0[1] < m.types.len()
    &&& m.types[m.types[t as int]->Func_0[1] as int] is Ptr
    &&& m.is_char_ptr(m.types[m.types[t as int]->Func_0[1] as int]->Ptr_0)
    &&& m.types[t as int]->Func_1 < m.types.len()
    &&& m.types[m.types[t as int]->Func_1 as int] == TypeSpec::Int(32)
    &&& !m.types[t as int]->Func_2
}

/// The name of the C runtime's formatted output function, `printf`.
pub open spec fn printf_name() -> Seq<u8> {
    seq![112u8, 114u8, 105u8, 110u8, 116u8, 102u8]
}

/// Type `t` of `m` is that of `printf`: a variadic function of one pointer
/// to bytes that returns a 32-bit integer.
pub open spec fn is_printf_type(m: ModuleView, t: TypeId) -> bool {
    &&& t < m.types.len()
    &&& m.types[t as int] is Func
    &&& m.types[t as int]->Func_0.len() == 1
    &&& m.is_char_ptr(m.types[t as int]->Func_0[0])
    &&& m.types[t as int]->Func_1 < m.types.len()
    &&& m.types[m.types[t as int]->Func_1 as int] == TypeSpec::Int(32)
    &&& m.types[t as int]->Func_2
}

/// Some function of `m` is named `printf` but is not an external declaration
/// of `printf`'s type.
pub open spec fn printf_conflict(m: ModuleView) -> bool {
    exists|g: int|
        0 <= g < m.funcs.len() && m.funcs[g].name == printf_name() && !(is_printf_type(
            m,
            m.funcs[g].ty,
        ) && m.funcs[g].linkage == Linkage::External)
}

/// `n` is `m` after interning `bytes` as the string that `r` points to: the
/// table holds `bytes` at `r`'s index, and grows by `bytes` alone when it
/// did not hold it before.
pub open spec fn string_interned(m: ModuleView, n: ModuleView, bytes: Seq<u8>, r: Value) -> bool {
    &&& n.funcs == m.funcs
    &&& n.cursor == m.cursor
    &&& types_prefix(m.types, n.types)
    &&& n.is_char_ptr(r.ty)
    &&& r.op is Str
    &&& r.op->Str_0 < n.strings.len()
    &&& n.strings[r.op->Str_0 as int] == bytes
    &&& m.strings.contains(bytes) ==> n.strings == m.strings
    &&& !m.strings.contains(bytes) ==> n.strings == m.strings.push(bytes)
}

/// `n` is `m` after declaring `name` with type `ty` and linkage `l`, with
/// result `r`.
pub open spec fn declared(
    m: ModuleView,
    n: ModuleView,
    name: Seq<u8>,
    ty: TypeId,
    l: Linkage,
    r: Result<FuncId, ConstructionError>,
) -> bool {
    &&& r is Err ==> n == m
    &&& ty >= m.types.len() ==> r == Err::<FuncId, _>(ConstructionError::Unknown)
    &&& ty < m.types.len() && !(m.types[ty as int] is Func) ==> r == Err::<FuncId, _>(
        ConstructionError::TypeMismatch,
    )
    &&& ty < m.types.len() && m.types[ty as int] is Func ==> {
        &&& forall|g: int|
            0 <= g < m.funcs.len() && m.funcs[g].name == name ==> {
                &&& m.funcs[g].ty == ty ==> r is Ok && r->Ok_0 == g && n == m
                &&& m.funcs[g].ty != ty ==> r == Err::<FuncId, _>(
                    ConstructionError::SignatureConflict,
                )
            }
        &&& !m.has_name(name) ==> r is Ok && r->Ok_0 == m.funcs.len() && n == (ModuleView {
            funcs: m.funcs.push(FunctionSpec { name, ty, linkage: l, blocks: Seq::empty() }),
            ..m
        })
    }
}

/// `nm` is `om` after a call of `printf` with format `fmt` and arguments
/// `args`, with result `r`.
pub open spec fn printf_emitted(
    om: ModuleView,
    nm: ModuleView,
    fmt: Seq<u8>,
    args: Seq<Value>,
    r: Result<Value, ConstructionError>,
) -> bool {
    &&& r is Err ==> nm == om
    &&& types_prefix(om.types, nm.types)
    &&& nm.cursor == om.cursor
    &&& nm.insertion() == om.insertion()
    &&& om.funcs.len() <= nm.funcs.len()
    &&& forall|g: int|
        0 <= g < om.funcs.len() ==> (#[trigger] nm.funcs[g]).ty == om.funcs[g].ty
            && nm.funcs[g].name == om.funcs[g].name && nm.funcs[g].linkage == om.funcs[g].linkage
            && nm.funcs[g].blocks.len() == om.funcs[g].blocks.len()
    &&& forall|g: int| om.funcs.len() <= g < nm.funcs.len() ==> (#[trigger] nm.funcs[g]).blocks.len() == 0
    &&& om.insertion() is None ==> r == Err::<Value, _>(ConstructionError::NoInsertionPoint)
    &&& om.insertion() is Some ==> ({
        let (f, b) = om.insertion()->Some_0;
        &&& (exists|i: int| 0 <= i < args.len() && !om.value_ok(f, args[i])) ==> r == Err::<
            Value,
            _,
        >(ConstructionError::Unknown)
        &&& (forall|i: int| 0 <= i < args.len() ==> om.value_ok(f, args[i]))
            && printf_conflict(om) ==> r == Err::<Value, _>(ConstructionError::SignatureConflict)
        &&& (forall|i: int| 0 <= i < args.len() ==> om.value_ok(f, args[i]))
            && !printf_conflict(om) ==> printf_call_added(om, nm, f, b, fmt, args, r)
    })
}

/// `nm` is `om` with a call of `printf` appended to block `b` of function
/// `f`, passing a pointer to the interned `fmt` and then `args` after
/// promotion, and nothing else changed but the declaration of `printf`, the
/// interning of `fmt`, the promotions and types added at the end.
pub open spec fn printf_call_added(
    om: ModuleView,
    nm: ModuleView,
    f: FuncId,
    b: usize,
    fmt: Seq<u8>,
    args: Seq<Value>,
    r: Result<Value, ConstructionError>,
) -> bool {
    let ins = nm.block(f, b).instrs;
    let last = ins.last();
    let g = last->Call_0;
    let p = last->Call_1;
    &&& r is Ok
    &&& ins.len() > om.block(f, b).instrs.len()
    &&& ins.subrange(0, om.block(f, b).instrs.len() as int) == om.block(f, b).instrs
    &&& nm.block(f, b).term == om.block(f, b).term
    &&& forall|c: int|
        0 <= c < om.funcs[f as int].blocks.len() && c != b ==> nm.funcs[f as int].blocks[c]
            == om.funcs[f as int].blocks[c]
    &&& forall|h: int| 0 <= h < om.funcs.len() && h != f ==> nm.funcs[h] == om.funcs[h]
    &&& om.has_name(printf_name()) ==> nm.funcs.len() == om.funcs.len() && g < om.funcs.len()
        && om.funcs[g as int].name == printf_name()
    &&& !om.has_name(printf_name()) ==> nm.funcs.len() == om.funcs.len() + 1 && g == om.funcs.len()
    &&& last is Call
    &&& g < nm.funcs.len()
    &&& nm.funcs[g as int].name == printf_name()
    &&& is_printf_type(nm, nm.funcs[g as int].ty)
    &&& nm.funcs[g as int].linkage == Linkage::External
    &&& nm.funcs[g as int].blocks.len() == 0
    &&& r->Ok_0.op == Operand::Reg(b, (ins.len() - 1) as usize)
    &&& r->Ok_0.ty < nm.types.len()
    &&& nm.types[r->Ok_0.ty as int] == TypeSpec::Int(32)
    &&& p.len() == args.len() + 1
    &&& nm.is_char_ptr(p[0].ty)
    &&& p[0].op is Str
    &&& p[0].op->Str_0 < nm.strings.len()
    &&& nm.strings[p[0].op->Str_0 as int] == fmt
    &&& om.strings.contains(fmt) ==> nm.strings == om.strings
    &&& !om.strings.contains(fmt) ==> nm.strings == om.strings.push(fmt)
    &&& nm.promoted(f, b, seq![p[0]] + args, p, 1, args.len() + 1 as int)
}

/// `n0` is `m` after `get_printf` with result `r`.
pub open spec fn printf_declared(
    m: ModuleView,
    n0: ModuleView,
    r: Result<FuncId, ConstructionError>,
) -> bool {
    &&& r is Err <==> printf_conflict(m)
    &&& r is Err ==> r == Err::<FuncId, _>(ConstructionError::SignatureConflict)
        && n0 == m
    &&& m.has_name(printf_name()) ==> n0 == m
    &&& r is Ok ==> ({
        let n = n0;
        let g = r->Ok_0 as int;
        &&& g < n.funcs.len()
        &&& n.funcs[g].name == printf_name()
        &&& is_printf_type(n, n.funcs[g].ty)
        &&& n.funcs[g].linkage == Linkage::External
        &&& n.funcs[g].blocks.len() == 0
    })
    &&& !m.has_name(printf_name()) ==> ({
        let n = n0;
        &&& r is Ok
        &&& r->Ok_0 == m.funcs.len()
        &&& types_prefix(m.types, n.types)
        &&& n.strings == m.strings
        &&& n.cursor == m.cursor
        &&& n.funcs == m.funcs.push(
            FunctionSpec {
                name: printf_name(),
                ty: n.funcs[r->Ok_0 as int].ty,
                linkage: Linkage::External,
                blocks: Seq::empty(),
            },
        )
    })
}

/// `b` is `a` with types appended at the end.
pub open spec fn types_prefix(a: Seq<TypeSpec>, b: Seq<TypeSpec>) -> bool {
    a.len() <= b.len() && b.subrange(0, a.len() as int) == a
}

/// A module under construction, with its type table, its functions, its
/// interned strings and the builder's cursor.
pub struct CodeGen {
    types: Vec<TypeKind>,
    funcs: Vec<Function>,
    strings: Vec<Vec<u8>>,
    cursor: Option<(FuncId, usize)>,
}

impl View for CodeGen {
    type V = ModuleView;

    closed spec fn view(&self) -> ModuleView {
        ModuleView {
            types: self.types@.map_values(|t: TypeKind| t@),
            funcs: self.funcs@.map_values(|f: Function| f@),
            strings: self.strings@.map_values(|s: Vec<u8>| s@),
            cursor: self.cursor,
        }
    }
}

/// A closed type stays closed when types are added at the end of its table.
proof fn lemma_type_closed_grows(t: TypeSpec, a: Seq<TypeSpec>, b: Seq<TypeSpec>)
    requires
        type_closed(t, a),
        a.len() <= b.len(),
        b.subrange(0, a.len() as int) == a,
    ensures
        type_closed(t, b),
{
    assert forall|i: int| 0 <= i < a.len() implies b[i] == a[i] by {
        assert(b.subrange(0, a.len() as int)[i] == b[i]);
    }
    if let TypeSpec::Func(ps, r, _) = t {
        assert forall|i: int| 0 <= i < ps.len() implies #[trigger] ps[i] < b.len() && is_value_type(
            b[ps[i] as int],
        ) by {
            assert(is_value_type(a[ps[i] as int]));
        }
    }
}

/// Changing what a block holds keeps a module well formed.
proof fn lemma_with_block_wf(m: ModuleView, f: FuncId, b: usize, blk: BlockSpec)
    requires
        m.wf(),
        f < m.funcs.len(),
        b < m.funcs[f as int].blocks.len(),
    ensures
        m.with_block(f, b, blk).wf(),
{
    let n = m.with_block(f, b, blk);
    assert forall|g: int| 0 <= g < n.funcs.len() implies (#[trigger] n.funcs[g]).ty < n.types.len()
        && n.types[n.funcs[g].ty as int] is Func by {
        assert(m.funcs[g].ty < m.types.len());
    }
    assert forall|g: int, h: int|
        0 <= g < n.funcs.len() && 0 <= h < n.funcs.len() && g != h implies n.funcs[g].name
        != n.funcs[h].name by {
        assert(m.funcs[g].name != m.funcs[h].name);
    }
}

/// Appending an instruction extends the block and changes nothing else.
proof fn lemma_with_instr_extends(m: ModuleView, f: FuncId, b: usize, i: InstrSpec)
    requires
        f < m.funcs.len(),
        b < m.funcs[f as int].blocks.len(),
    ensures
        m.with_instr(f, b, i).extends_block(m, f, b),
        m.with_instr(f, b, i).block(f, b).instrs == m.block(f, b).instrs.push(i),
{
    let n = m.with_instr(f, b, i);
    assert(n.types.subrange(0, m.types.len() as int) =~= m.types);
    assert(n.block(f, b).instrs.subrange(0, m.block(f, b).instrs.len() as int) =~= m.block(
        f,
        b,
    ).instrs);
}

/// Extending a block twice extends it once.
proof fn lemma_extends_trans(m1: ModuleView, m2: ModuleView, m3: ModuleView, f: FuncId, b: usize)
    requires
        m2.extends_block(m1, f, b),
        m3.extends_block(m2, f, b),
    ensures
        m3.extends_block(m1, f, b),
{
    assert(m3.types.subrange(0, m1.types.len() as int) =~= m2.types.subrange(
        0,
        m1.types.len() as int,
    ));
    let l1 = m1.block(f, b).instrs.len() as int;
    assert(m3.block(f, b).instrs.subrange(0, l1) =~= m2.block(f, b).instrs.subrange(0, l1));
}

/// A promoted argument stays promoted while the block grows.
proof fn lemma_promoted_at_stable(
    m1: ModuleView,
    m2: ModuleView,
    f: FuncId,
    b: usize,
    a: Value,
    q: Value,
    fixed: bool,
)
    requires
        m2.extends_block(m1, f, b),
        a.ty < m1.types.len(),
        q.ty < m1.types.len(),
        m1.promoted_at(f, b, a, q, fixed),
    ensures
        m2.promoted_at(f, b, a, q, fixed),
{
    assert(m2.types.subrange(0, m1.types.len() as int)[a.ty as int] == m2.types[a.ty as int]);
    assert(m2.types.subrange(0, m1.types.len() as int)[q.ty as int] == m2.types[q.ty as int]);
    if !fixed && m1.is_narrow_int(a.ty) {
        let k = q.op->Reg_1 as int;
        assert(m2.block(f, b).instrs.subrange(0, m1.block(f, b).instrs.len() as int)[k]
            == m2.block(f, b).instrs[k]);
    }
}

/// Whether a type is that of `printf` does not change as the table grows.
proof fn lemma_printf_type_prefix(m0: ModuleView, m: ModuleView, t: TypeId)
    requires
        types_wf(m0.types),
        types_prefix(m0.types, m.types),
        t < m0.types.len(),
    ensures
        is_printf_type(m0, t) <==> is_printf_type(m, t),
{
    let n = m0.types.len() as int;
    assert forall|i: int| 0 <= i < n implies m.types[i] == m0.types[i] by {
        assert(m.types.subrange(0, n)[i] == m.types[i]);
    }
    assert(type_closed(m0.types[t as int], m0.types));
    if m0.types[t as int] is Func && m0.types[t as int]->Func_0.len() == 1 {
        let p0 = m0.types[t as int]->Func_0[0];
        assert(p0 < n);
        assert(type_closed(m0.types[p0 as int], m0.types));
    }
}

/// `m2` holds all that `m1` holds, with more types, strings or functions at
/// the ends of their tables.
pub open spec fn module_grows(m1: ModuleView, m2: ModuleView) -> bool {
    &&& types_prefix(m1.types, m2.types)
    &&& m1.strings.len() <= m2.strings.len()
    &&& m2.strings.subrange(0, m1.strings.len() as int) == m1.strings
    &&& m1.funcs.len() <= m2.funcs.len()
    &&& m2.funcs.subrange(0, m1.funcs.len() as int) == m1.funcs
}

/// A value known in a module stays known as the module grows.
proof fn lemma_value_ok_grows(m1: ModuleView, m2: ModuleView, f: FuncId, v: Value)
    requires
        m1.wf(),
        module_grows(m1, m2),
        f < m1.funcs.len(),
        m1.value_ok(f, v),
    ensures
        m2.value_ok(f, v),
{
    let nt = m1.types.len() as int;
    assert forall|i: int| 0 <= i < nt implies m2.types[i] == m1.types[i] by {
        assert(m2.types.subrange(0, nt)[i] == m2.types[i]);
    }
    assert forall|g: int| 0 <= g < m1.funcs.len() implies m2.funcs[g] == m1.funcs[g] by {
        assert(m2.funcs.subrange(0, m1.funcs.len() as int)[g] == m2.funcs[g]);
    }
    assert(m2.funcs[f as int] == m1.funcs[f as int]);
    assert(m1.funcs[f as int].ty < nt);
    match v.op {
        Operand::Reg(b, i) => {
            let ins = m1.funcs[f as int].blocks[b as int].instrs[i as int];
            if let InstrSpec::Call(g, _) = ins {
                assert(m1.funcs[g as int].ty < nt);
            }
        },
        Operand::Str(k) => {
            let e = m1.types[v.ty as int]->Ptr_0;
            assert(m2.types[e as int] == m1.types[e as int]);
        },
        _ => {},
    }
}

/// A well-formed type table holds at most one pointer to bytes.
proof fn lemma_char_ptr_unique(m: ModuleView, p: TypeId, q: TypeId)
    requires
        types_wf(m.types),
        m.is_char_ptr(p),
        m.is_char_ptr(q),
    ensures
        p == q,
{
    let e = m.types[p as int]->Ptr_0;
    let d = m.types[q as int]->Ptr_0;
    assert(e == d);
    assert(m.types[p as int] == m.types[q as int]);
}

fn ids_eq(a: &Vec<TypeId>, b: &Vec<TypeId>) -> (r: bool)
    ensures
        r == (a@ == b@),
{
    if a.len() != b.len() {
        return false;
    }
    let mut i: usize = 0;
    while i < a.len()
        invariant
            a.len() == b.len(),
            i <= a.len(),
            forall|j: int| 0 <= j < i ==> a@[j] == b@[j],
        decreases a.len() - i,
    {
        if a[i] != b[i] {
            return false;
        }
        i = i + 1;
    }
    assert(a@ =~= b@);
    true
}

/// Content equality of two byte strings.
pub fn bytes_eq(a: &Vec<u8>, b: &Vec<u8>) -> (r: bool)
    ensures
        r == (a@ == b@),
{
    if a.len() != b.len() {
        return false;
    }
    let mut i: usize = 0;
    while i < a.len()
        invariant
            a.len() == b.len(),
            i <= a.len(),
            forall|j: int| 0 <= j < i ==> a@[j] == b@[j],
        decreases a.len() - i,
    {
        if a[i] != b[i] {
            return false;
        }
        i = i + 1;
    }
    assert(a@ =~= b@);
    true
}

fn same_kind(a: &TypeKind, b: &TypeKind) -> (r: bool)
    ensures
        r == (a@ == b@),
{
    match (a, b) {
        (TypeKind::Void, TypeKind::Void) => true,
        (TypeKind::Int(x), TypeKind::Int(y)) => *x == *y,
        (TypeKind::Ptr(x), TypeKind::Ptr(y)) => *x == *y,
        (TypeKind::Func(ps, r, v), TypeKind::Func(qs, s, w)) => {
            *r == *s && *v == *w && ids_eq(ps, qs)
        },
        _ => false,
    }
}

fn copy_kind(k: &TypeKind) -> (r: TypeKind)
    ensures
        r@ == k@,
{
    match k {
        TypeKind::Void => TypeKind::Void,
        TypeKind::Int(w) => TypeKind::Int(*w),
        TypeKind::Ptr(e) => TypeKind::Ptr(*e),
        TypeKind::Func(ps, r, v) => {
            let mut qs: Vec<TypeId> = Vec::new();
            let mut i: usize = 0;
            while i < ps.len()
                invariant
                    i <= ps.len(),
                    qs@ == ps@.subrange(0, i as int),
                decreases ps.len() - i,
            {
                qs.push(ps[i]);
                i = i + 1;
                assert(qs@ =~= ps@.subrange(0, i as int));
            }
            assert(qs@ =~= ps@);
            TypeKind::Func(qs, *r, *v)
        },
    }
}

impl CodeGen {
    /// An empty module: no types, functions or strings, and no cursor.
    pub fn new() -> (r: CodeGen)
        ensures
            r@.wf(),
            r@.types.len() == 0,
            r@.funcs.len() == 0,
            r@.strings.len() == 0,
            r@.cursor is None,
    {
        let r = CodeGen { types: Vec::new(), funcs: Vec::new(), strings: Vec::new(), cursor: None };
        assert(r@.types =~= Seq::empty());
        assert(r@.funcs =~= Seq::empty());
        assert(r@.strings =~= Seq::empty());
        r
    }

    /// The type at index `t`.
    pub fn type_kind(&self, t: TypeId) -> (r: Option<TypeKind>)
        ensures
            t < self@.types.len() <==> r is Some,
            r is Some ==> r->Some_0@ == self@.types[t as int],
    {
        if t < self.types.len() {
            Some(copy_kind(&self.types[t]))
        } else {
            None
        }
    }

    /// Index of the type of shape `k`, if the table holds it.
    fn find_type(&self, k: &TypeKind) -> (r: Option<TypeId>)
        ensures
            r is Some <==> self@.types.contains(k@),
            r is Some ==> r->Some_0 < self@.types.len() && self@.types[r->Some_0 as int] == k@,
    {
        let mut i: usize = 0;
        while i < self.types.len()
            invariant
                i <= self.types.len(),
                forall|j: int| 0 <= j < i ==> self@.types[j] != k@,
            decreases self.types.len() - i,
        {
            proof {
                assert(self@.types[i as int] == self.types@[i as int]@);
            }
            if same_kind(&self.types[i], k) {
                return Some(i);
            }
            i = i + 1;
        }
        proof {
            if self@.types.contains(k@) {
                let j = choose|j: int| 0 <= j < self@.types.len() && self@.types[j] == k@;
                assert(self@.types[j] == k@);
            }
        }
        None
    }

    /// Interns a type whose references point into the table.
    fn intern_type(&mut self, k: TypeKind) -> (r: TypeId)
        requires
            old(self)@.wf(),
            type_closed(k@, old(self)@.types),
        ensures
            final(self)@.wf(),
            final(self)@.interned(old(self)@, k@, r),
    {
        match self.find_type(&k) {
            Some(i) => i,
            None => {
                let ghost old_types = self@.types;
                let ghost kv = k@;
                let n = self.types.len();
                self.types.push(k);
                proof {
                    assert(self@.types =~= old_types.push(kv));
                    assert forall|i: int| 0 <= i < self@.types.len() implies type_closed(
                        #[trigger] self@.types[i],
                        self@.types,
                    ) by {
                        assert(self@.types.subrange(0, old_types.len() as int) =~= old_types);
                        if i < old_types.len() {
                            assert(type_closed(old_types[i], old_types));
                            lemma_type_closed_grows(old_types[i], old_types, self@.types);
                        } else {
                            lemma_type_closed_grows(kv, old_types, self@.types);
                        }
                    }
                    assert forall|f: int| 0 <= f < self@.funcs.len() implies (#[trigger] self@.funcs[f]).ty < self@.types.len()
                        && self@.types[self@.funcs[f].ty as int] is Func by {
                        assert(old_types[self@.funcs[f].ty as int] is Func);
                    }
                    assert(types_wf(self@.types));
                    assert(self@.funcs_wf());
                    assert(self@.strings =~= old(self)@.strings);
                    assert(self@.strings_wf());
                    assert(self@.cursor_wf());
                    assert forall|i: int, j: int|
                        0 <= i < self@.types.len() && 0 <= j < self@.types.len() && i != j
                        implies self@.types[i] != self@.types[j] by {
                        if i == old_types.len() as int {
                            assert(old_types[j] != kv);
                        } else if j == old_types.len() as int {
                            assert(old_types[i] != kv);
                        }
                    }
                }
                n
            },
        }
    }

    /// The type that holds nothing.
    pub fn void_type(&mut self) -> (r: TypeId)
        requires
            old(self)@.wf(),
        ensures
            final(self)@.wf(),
            final(self)@.interned(old(self)@, TypeSpec::Void, r),
    {
        self.intern_type(TypeKind::Void)
    }

    /// The integer type of `width` bits.
    pub fn int_type(&mut self, width: u32) -> (r: TypeId)
        requires
            old(self)@.wf(),
            1 <= width <= MAX_INT_WIDTH,
        ensures
            final(self)@.wf(),
            final(self)@.interned(old(self)@, TypeSpec::Int(width), r),
    {
        self.intern_type(TypeKind::Int(width))
    }

    /// The type of pointers to values of type `elem`.
    pub fn ptr_type(&mut self, elem: TypeId) -> (r: Result<TypeId, ConstructionError>)
        requires
            old(self)@.wf(),
        ensures
            final(self)@.wf(),
            elem >= old(self)@.types.len() ==> r == Err::<TypeId, _>(ConstructionError::Unknown),
            elem < old(self)@.types.len() && !is_value_type(old(self)@.types[elem as int]) ==> r
                == Err::<TypeId, _>(ConstructionError::TypeMismatch),
            r is Err ==> final(self)@ == old(self)@,
            elem < old(self)@.types.len() && is_value_type(old(self)@.types[elem as int]) ==> r is Ok
                && final(self)@.interned(old(self)@, TypeSpec::Ptr(elem), r->Ok_0),
    {
        if elem >= self.types.len() {
            return Err(ConstructionError::Unknown);
        }
        proof {
            assert(self@.types[elem as int] == self.types@[elem as int]@);
        }
        match &self.types[elem] {
            TypeKind::Int(_) | TypeKind::Ptr(_) => {},
            _ => {
                return Err(ConstructionError::TypeMismatch);
            },
        }
        Ok(self.intern_type(TypeKind::Ptr(elem)))
    }

    /// The type of pointers to bytes.
    pub fn char_ptr_type(&mut self) -> (r: TypeId)
        requires
            old(self)@.wf(),
        ensures
            final(self)@.wf(),
            final(self)@.grows_types(old(self)@),
            final(self)@.is_char_ptr(r),
            (exists|t: TypeId| old(self)@.is_char_ptr(t)) ==> final(self)@ == old(self)@,
    {
        let ghost m0 = self@;
        let i8t = self.int_type(8);
        proof {
            if exists|t: TypeId| m0.is_char_ptr(t) {
                let t = choose|t: TypeId| m0.is_char_ptr(t);
                let e = m0.types[t as int]->Ptr_0;
                assert(m0.types[e as int] == TypeSpec::Int(8));
                assert(m0.types.contains(TypeSpec::Int(8)));
                assert(self@ == m0);
                assert(i8t == e);
                assert(m0.types.contains(TypeSpec::Ptr(i8t)));
            }
        }
        let r = self.intern_type(TypeKind::Ptr(i8t));
        proof {
            assert(old(self)@.types.subrange(0, old(self)@.types.len() as int) =~= old(self)@.types);
            assert(self@.types.subrange(0, old(self)@.types.len() as int) =~= old(self)@.types);
        }
        r
    }

    /// The type of functions from `params` to `ret`, variadic or not.
    pub fn fn_type(&mut self, params: &Vec<TypeId>, ret: TypeId, variadic: bool) -> (r: Result<
        TypeId,
        ConstructionError,
    >)
        requires
            old(self)@.wf(),
        ensures
            final(self)@.wf(),
            r is Err ==> final(self)@ == old(self)@,
            r == Err::<TypeId, _>(ConstructionError::Unknown) <==> (ret >= old(self)@.types.len()
                || exists|i: int| 0 <= i < params@.len() && params@[i] >= old(self)@.types.len()),
            r == Err::<TypeId, _>(ConstructionError::TypeMismatch) <==> (ret < old(self)@.types.len()
                && (forall|i: int| 0 <= i < params@.len() ==> params@[i] < old(self)@.types.len())
                && !type_closed(TypeSpec::Func(params@, ret, variadic), old(self)@.types)),
            r is Ok ==> final(self)@.interned(old(self)@, TypeSpec::Func(params@, ret, variadic), r->Ok_0),
            r is Err ==> r == Err::<TypeId, _>(ConstructionError::Unknown) || r == Err::<TypeId, _>(
                ConstructionError::TypeMismatch,
            ),
    {
        let n = self.types.len();
        if ret >= n {
            return Err(ConstructionError::Unknown);
        }
        let mut i: usize = 0;
        while i < params.len()
            invariant
                n == self.types.len(),
                self@ == old(self)@,
                self@.wf(),
                ret < n,
                i <= params.len(),
                forall|j: int| 0 <= j < i ==> params@[j] < n,
            decreases params.len() - i,
        {
            if params[i] >= n {
                return Err(ConstructionError::Unknown);
            }
            i = i + 1;
        }
        proof {
            assert(self@.types[ret as int] == self.types@[ret as int]@);
        }
        let mut mismatch = match &self.types[ret] {
            TypeKind::Void | TypeKind::Int(_) | TypeKind::Ptr(_) => false,
            TypeKind::Func(..) => true,
        };
        let mut i: usize = 0;
        while i < params.len()
            invariant
                n == self.types.len(),
                self@ == old(self)@,
                self@.wf(),
                ret < n,
                i <= params.len(),
                forall|j: int| 0 <= j < params@.len() ==> params@[j] < n,
                mismatch == (!(self@.types[ret as int] is Void || is_value_type(self@.types[ret as int]))
                    || exists|j: int| 0 <= j < i && !is_value_type(self@.types[params@[j] as int])),
            decreases params.len() - i,
        {
            proof {
                assert(self@.types[params@[i as int] as int] == self.types@[params@[i as int] as int]@);
            }
            match &self.types[params[i]] {
                TypeKind::Int(_) | TypeKind::Ptr(_) => {},
                _ => {
                    mismatch = true;
                },
            }
            i = i + 1;
        }
        proof {
            assert(self@.types[ret as int] == self.types@[ret as int]@);
            if !mismatch {
                assert(type_closed(TypeSpec::Func(params@, ret, variadic), self@.types));
            } else if self@.types[ret as int] is Void || is_value_type(self@.types[ret as int]) {
                let j = choose|j: int| 0 <= j < params@.len() && !is_value_type(self@.types[params@[j] as int]);
                assert(params@[j] < self@.types.len());
                assert(0 <= j < params@.len() && !(params@[j] < self@.types.len() && is_value_type(self@.types[params@[j] as int])));
                let t = TypeSpec::Func(params@, ret, variadic);
                if type_closed(t, self@.types) {
                    assert(t->Func_0 == params@);
                    assert(t->Func_0[j] == params@[j]);
                    assert(false);
                }
            }
        }
        if mismatch {
            return Err(ConstructionError::TypeMismatch);
        }
        let k = TypeKind::Func(params.clone(), ret, variadic);
        Ok(self.intern_type(k))
    }

    /// Replaces block `b` of function `f`, handing back the block that was there.
    fn swap_block(&mut self, f: FuncId, b: usize, blk: &mut Block)
        requires
            f < old(self)@.funcs.len(),
            b < old(self)@.funcs[f as int].blocks.len(),
        ensures
            final(self)@ == old(self)@.with_block(f, b, old(blk)@),
            final(blk)@ == old(self)@.block(f, b),
    {
        let ghost oldv = self@;
        let ghost newb = blk@;
        let mut func = Function { name: Vec::new(), ty: 0, linkage: Linkage::Internal, blocks: Vec::new() };
        self.funcs.set_and_swap(f, &mut func);
        proof {
            assert(func@ == oldv.funcs[f as int]);
        }
        func.blocks.set_and_swap(b, blk);
        proof {
            assert(func@.blocks =~= oldv.funcs[f as int].blocks.update(b as int, newb));
        }
        self.funcs.set_and_swap(f, &mut func);
        proof {
            assert(self@.funcs =~= oldv.with_block(f, b, newb).funcs);
            assert(self@.types =~= oldv.types);
            assert(self@.strings =~= oldv.strings);
        }
    }

    fn push_instr(&mut self, f: FuncId, b: usize, i: Instr)
        requires
            f < old(self)@.funcs.len(),
            b < old(self)@.funcs[f as int].blocks.len(),
        ensures
            final(self)@ == old(self)@.with_instr(f, b, i@),
    {
        let ghost iv = i@;
        let mut blk = Block { instrs: Vec::new(), term: None };
        self.swap_block(f, b, &mut blk);
        let ghost before = blk@;
        blk.instrs.push(i);
        proof {
            assert(blk@.instrs =~= before.instrs.push(iv));
        }
        self.swap_block(f, b, &mut blk);
        proof {
            let target = old(self)@.with_instr(f, b, iv);
            assert(self@.funcs[f as int].blocks =~= target.funcs[f as int].blocks);
            assert(self@.funcs =~= target.funcs);
        }
    }

    fn set_term(&mut self, f: FuncId, b: usize, t: Terminator)
        requires
            f < old(self)@.funcs.len(),
            b < old(self)@.funcs[f as int].blocks.len(),
        ensures
            final(self)@ == old(self)@.with_term(f, b, t),
    {
        let mut blk = Block { instrs: Vec::new(), term: None };
        self.swap_block(f, b, &mut blk);
        blk.term = Some(t);
        self.swap_block(f, b, &mut blk);
        proof {
            let target = old(self)@.with_term(f, b, t);
            assert(self@.funcs[f as int].blocks =~= target.funcs[f as int].blocks);
            assert(self@.funcs =~= target.funcs);
        }
    }

    /// Index of the function named `name`, if one is declared.
    fn find_function(&self, name: &Vec<u8>) -> (r: Option<FuncId>)
        ensures
            r is Some <==> self@.has_name(name@),
            r is Some ==> r->Some_0 < self@.funcs.len() && self@.funcs[r->Some_0 as int].name
                == name@,
    {
        let mut i: usize = 0;
        while i < self.funcs.len()
            invariant
                i <= self.funcs.len(),
                forall|j: int| 0 <= j < i ==> self@.funcs[j].name != name@,
            decreases self.funcs.len() - i,
        {
            proof {
                assert(self@.funcs[i as int] == self.funcs@[i as int]@);
            }
            if bytes_eq(&self.funcs[i].name, name) {
                return Some(i);
            }
            i = i + 1;
        }
        None
    }

    /// Declares function `name` of function type `ty`. A new name gives a new
    /// function; a name declared with the same type gives the function
    /// declared before; a name declared with another type is a conflict.
    pub fn declare_function(&mut self, name: &Vec<u8>, ty: TypeId, linkage: Linkage) -> (r: Result<
        FuncId,
        ConstructionError,
    >)
        requires
            old(self)@.wf(),
        ensures
            final(self)@.wf(),
            declared(old(self)@, final(self)@, name@, ty, linkage, r),
    {
        if ty >= self.types.len() {
            return Err(ConstructionError::Unknown);
        }
        proof {
            assert(self@.types[ty as int] == self.types@[ty as int]@);
        }
        if let TypeKind::Func(..) = &self.types[ty] {
        } else {
            return Err(ConstructionError::TypeMismatch);
        }
        match self.find_function(name) {
            Some(g) => {
                proof {
                    assert(self@.funcs[g as int] == self.funcs@[g as int]@);
                    assert forall|h: int|
                        0 <= h < self@.funcs.len() && self@.funcs[h].name == name@ implies h
                        == g by {}
                }
                if self.funcs[g].ty == ty {
                    Ok(g)
                } else {
                    Err(ConstructionError::SignatureConflict)
                }
            },
            None => {
                let ghost oldv = self@;
                let n = self.funcs.len();
                let f = Function { name: name.clone(), ty, linkage, blocks: Vec::new() };
                proof {
                    assert(f@.blocks =~= Seq::<BlockSpec>::empty());
                }
                self.funcs.push(f);
                proof {
                    let target = ModuleView {
                        funcs: oldv.funcs.push(
                            FunctionSpec { name: name@, ty, linkage, blocks: Seq::empty() },
                        ),
                        ..oldv
                    };
                    assert(self@.funcs =~= target.funcs);
                    assert(self@.types =~= target.types);
                    assert(self@.strings =~= target.strings);
                    assert forall|g: int, h: int|
                        0 <= g < self@.funcs.len() && 0 <= h < self@.funcs.len() && g != h
                        implies self@.funcs[g].name != self@.funcs[h].name by {
                        if g < n && h < n {
                            assert(oldv.funcs[g].name != oldv.funcs[h].name);
                        } else if g < n {
                            assert(oldv.funcs[g].name != name@);
                        } else {
                            assert(oldv.funcs[h].name != name@);
                        }
                    }
                }
                Ok(n)
            },
        }
    }

    /// Declares `name` as a function of type `sig` defined outside the module
    /// and resolved when the object is linked.
    pub fn declare_external(&mut self, name: &Vec<u8>, sig: TypeId) -> (r: Result<
        FuncId,
        ConstructionError,
    >)
        requires
            old(self)@.wf(),
        ensures
            final(self)@.wf(),
            declared(old(self)@, final(self)@, name@, sig, Linkage::External, r),
    {
        self.declare_function(name, sig, Linkage::External)
    }

    /// Interns `bytes` as a constant string of the module and returns a
    /// pointer to it. Equal contents give the same string; the table only
    /// grows when the content is new.
    pub fn intern(&mut self, bytes: &Vec<u8>) -> (r: Value)
        requires
            old(self)@.wf(),
        ensures
            final(self)@.wf(),
            string_interned(old(self)@, final(self)@, bytes@, r),
    {
        let ty = self.char_ptr_type();
        let ghost mid = self@;
        let mut i: usize = 0;
        while i < self.strings.len()
            invariant
                self@ == mid,
                mid.wf(),
                mid.grows_types(old(self)@),
                mid.is_char_ptr(ty),
                i <= self.strings.len(),
                forall|j: int| 0 <= j < i ==> self@.strings[j] != bytes@,
            decreases self.strings.len() - i,
        {
            proof {
                assert(self@.strings[i as int] == self.strings@[i as int]@);
            }
            if bytes_eq(&self.strings[i], bytes) {
                return Value { ty, op: Operand::Str(i) };
            }
            i = i + 1;
        }
        let n = self.strings.len();
        self.strings.push(bytes.clone());
        proof {
            assert(self@.strings =~= mid.strings.push(bytes@));
            assert(self@.types =~= mid.types);
            assert(self@.funcs =~= mid.funcs);
            assert(!mid.strings.contains(bytes@));
            assert forall|a: int, c: int|
                0 <= a < self@.strings.len() && 0 <= c < self@.strings.len() && a != c
                implies self@.strings[a] != self@.strings[c] by {
                if a < n && c < n {
                    assert(mid.strings[a] != mid.strings[c]);
                }
            }
        }
        Value { ty, op: Operand::Str(n) }
    }

    /// The content of interned string `k`, without its terminating zero byte.
    pub fn string_content(&self, k: usize) -> (r: Option<Vec<u8>>)
        ensures
            k < self@.strings.len() <==> r is Some,
            r is Some ==> r->Some_0@ == self@.strings[k as int],
    {
        if k < self.strings.len() {
            proof {
                assert(self@.strings[k as int] == self.strings@[k as int]@);
            }
            Some(self.strings[k].clone())
        } else {
            None
        }
    }

    /// Appends an empty block to function `f` and returns its index.
    pub fn append_block(&mut self, f: FuncId) -> (r: Result<usize, ConstructionError>)
        requires
            old(self)@.wf(),
        ensures
            final(self)@.wf(),
            r is Err ==> final(self)@ == old(self)@,
            f >= old(self)@.funcs.len() ==> r == Err::<usize, _>(ConstructionError::Unknown),
            f < old(self)@.funcs.len() && old(self)@.funcs[f as int].linkage == Linkage::External
                ==> r == Err::<usize, _>(ConstructionError::DeclarationOnly),
            f < old(self)@.funcs.len() && old(self)@.funcs[f as int].linkage == Linkage::Internal
                ==> r == Ok::<usize, ConstructionError>(old(self)@.funcs[f as int].blocks.len() as usize)
                && final(self)@ == (ModuleView {
                funcs: old(self)@.funcs.update(
                    f as int,
                    FunctionSpec {
                        blocks: old(self)@.funcs[f as int].blocks.push(
                            BlockSpec { instrs: Seq::empty(), term: None },
                        ),
                        ..old(self)@.funcs[f as int]
                    },
                ),
                ..old(self)@
            }),
    {
        if f >= self.funcs.len() {
            return Err(ConstructionError::Unknown);
        }
        proof {
            assert(self@.funcs[f as int] == self.funcs@[f as int]@);
        }
        if self.funcs[f].linkage == Linkage::External {
            return Err(ConstructionError::DeclarationOnly);
        }
        let ghost oldv = self@;
        let mut func = Function { name: Vec::new(), ty: 0, linkage: Linkage::Internal, blocks: Vec::new() };
        self.funcs.set_and_swap(f, &mut func);
        let n = func.blocks.len();
        let blk = Block { instrs: Vec::new(), term: None };
        proof {
            assert(blk@.instrs =~= Seq::<InstrSpec>::empty());
        }
        func.blocks.push(blk);
        proof {
            assert(func@.blocks =~= oldv.funcs[f as int].blocks.push(
                BlockSpec { instrs: Seq::empty(), term: None },
            ));
        }
        self.funcs.set_and_swap(f, &mut func);
        proof {
            let target = ModuleView {
                funcs: oldv.funcs.update(
                    f as int,
                    FunctionSpec {
                        blocks: oldv.funcs[f as int].blocks.push(
                            BlockSpec { instrs: Seq::empty(), term: None },
                        ),
                        ..oldv.funcs[f as int]
                    },
                ),
                ..oldv
            };
            assert(self@.funcs =~= target.funcs);
            assert(self@.types =~= target.types);
            assert(self@.strings =~= target.strings);
            assert forall|g: int| 0 <= g < self@.funcs.len() implies (#[trigger] self@.funcs[g]).ty
                < self@.types.len() && self@.types[self@.funcs[g].ty as int] is Func by {
                assert(oldv.funcs[g].ty < oldv.types.len());
            }
            assert forall|g: int, h: int|
                0 <= g < self@.funcs.len() && 0 <= h < self@.funcs.len() && g != h
                implies self@.funcs[g].name != self@.funcs[h].name by {
                assert(oldv.funcs[g].name != oldv.funcs[h].name);
            }
        }
        Ok(n)
    }

    /// Puts the cursor at the end of block `b` of function `f`.
    pub fn position_at_end(&mut self, f: FuncId, b: usize) -> (r: Result<(), ConstructionError>)
        requires
            old(self)@.wf(),
        ensures
            final(self)@.wf(),
            r is Ok <==> f < old(self)@.funcs.len() && b < old(self)@.funcs[f as int].blocks.len(),
            r is Err ==> r == Err::<(), _>(ConstructionError::Unknown) && final(self)@ == old(self)@,
            r is Ok ==> final(self)@ == (ModuleView { cursor: Some((f, b)), ..old(self)@ }),
    {
        if f >= self.funcs.len() {
            return Err(ConstructionError::Unknown);
        }
        proof {
            assert(self@.funcs[f as int] == self.funcs@[f as int]@);
        }
        if b >= self.funcs[f].blocks.len() {
            return Err(ConstructionError::Unknown);
        }
        self.cursor = Some((f, b));
        Ok(())
    }

    /// The block that the cursor is in, while it is not finished.
    fn insertion_point(&self) -> (r: Result<(FuncId, usize), ConstructionError>)
        requires
            self@.wf(),
        ensures
            r is Ok <==> self@.insertion() is Some,
            r is Ok ==> self@.insertion() == Some(r->Ok_0),
            r is Err ==> r == Err::<(FuncId, usize), _>(ConstructionError::NoInsertionPoint),
    {
        match self.cursor {
            Some((f, b)) => {
                proof {
                    assert(self@.funcs[f as int] == self.funcs@[f as int]@);
                    assert(self@.funcs[f as int].blocks[b as int] == self.funcs@[f as int].blocks@[b as int]@);
                }
                if self.funcs[f].blocks[b].term.is_none() {
                    Ok((f, b))
                } else {
                    Err(ConstructionError::NoInsertionPoint)
                }
            },
            None => Err(ConstructionError::NoInsertionPoint),
        }
    }

    /// The parameter types, result type and variadic flag of function `g`.
    fn sig_of(&self, g: FuncId) -> (r: (Vec<TypeId>, TypeId, bool))
        requires
            self@.wf(),
            g < self@.funcs.len(),
        ensures
            r.0@ == self@.sig(g).0,
            r.1 == self@.sig(g).1,
            r.2 == self@.sig(g).2,
    {
        proof {
            assert(self@.funcs[g as int] == self.funcs@[g as int]@);
            let t = self@.funcs[g as int].ty as int;
            assert(self@.types[t] == self.types@[t]@);
        }
        match &self.types[self.funcs[g].ty] {
            TypeKind::Func(ps, r, v) => (ps.clone(), *r, *v),
            _ => {
                proof {
                    assert(false);
                }
                (Vec::new(), 0, false)
            },
        }
    }

    /// Whether `v` is known inside function `f` and carries the right type.
    fn check_value(&self, f: FuncId, v: Value) -> (r: bool)
        requires
            self@.wf(),
            f < self@.funcs.len(),
        ensures
            r == self@.value_ok(f, v),
    {
        if v.ty >= self.types.len() {
            return false;
        }
        proof {
            assert(self@.types[v.ty as int] == self.types@[v.ty as int]@);
            assert(self@.funcs[f as int] == self.funcs@[f as int]@);
        }
        match v.op {
            Operand::Const(_) => match &self.types[v.ty] {
                TypeKind::Int(_) => true,
                _ => false,
            },
            Operand::Param(i) => {
                let (ps, _, _) = self.sig_of(f);
                i < ps.len() && ps[i] == v.ty
            },
            Operand::Reg(b, i) => {
                if b >= self.funcs[f].blocks.len() {
                    return false;
                }
                proof {
                    assert(self@.funcs[f as int].blocks[b as int] == self.funcs@[f as int].blocks@[b as int]@);
                }
                if i >= self.funcs[f].blocks[b].instrs.len() {
                    return false;
                }
                proof {
                    assert(self@.funcs[f as int].blocks[b as int].instrs[i as int]
                        == self.funcs@[f as int].blocks@[b as int].instrs@[i as int]@);
                }
                if let TypeKind::Void = &self.types[v.ty] {
                    return false;
                }
                match &self.funcs[f].blocks[b].instrs[i] {
                    Instr::Add(a, _) => a.ty == v.ty,
                    Instr::Load(_, t) => *t == v.ty,
                    Instr::ZExt(_, t) => *t == v.ty,
                    Instr::Call(g, _) => {
                        if *g >= self.funcs.len() {
                            return false;
                        }
                        let (_, rt, _) = self.sig_of(*g);
                        rt == v.ty
                    },
                }
            },
            Operand::Str(k) => {
                if k >= self.strings.len() {
                    return false;
                }
                match &self.types[v.ty] {
                    TypeKind::Ptr(e) => {
                        proof {
                            assert(self@.types[*e as int] == self.types@[*e as int]@);
                        }
                        match &self.types[*e] {
                            TypeKind::Int(w) => *w == 8,
                            _ => false,
                        }
                    },
                    _ => false,
                }
            },
        }
    }

    /// The parameter at position `i` of the function that the cursor is in.
    pub fn param(&self, i: usize) -> (r: Result<Value, ConstructionError>)
        requires
            self@.wf(),
        ensures
            self@.cursor is None ==> r == Err::<Value, _>(ConstructionError::NoInsertionPoint),
            self@.cursor is Some ==> ({
                let f = self@.cursor->Some_0.0;
                &&& i < self@.sig(f).0.len() ==> r == Ok::<Value, ConstructionError>(
                    Value { ty: self@.sig(f).0[i as int], op: Operand::Param(i) },
                )
                &&& i >= self@.sig(f).0.len() ==> r == Err::<Value, _>(ConstructionError::Unknown)
            }),
    {
        match self.cursor {
            None => Err(ConstructionError::NoInsertionPoint),
            Some((f, _)) => {
                let (ps, _, _) = self.sig_of(f);
                if i < ps.len() {
                    Ok(Value { ty: ps[i], op: Operand::Param(i) })
                } else {
                    Err(ConstructionError::Unknown)
                }
            },
        }
    }

    /// The integer constant `v` of integer type `ty`.
    pub fn const_int(&self, ty: TypeId, v: u64) -> (r: Result<Value, ConstructionError>)
        requires
            self@.wf(),
        ensures
            ty >= self@.types.len() ==> r == Err::<Value, _>(ConstructionError::Unknown),
            ty < self@.types.len() && !(self@.types[ty as int] is Int) ==> r == Err::<Value, _>(
                ConstructionError::TypeMismatch,
            ),
            self@.is_int(ty) ==> r == Ok::<Value, ConstructionError>(
                Value { ty, op: Operand::Const(v) },
            ),
    {
        if ty >= self.types.len() {
            return Err(ConstructionError::Unknown);
        }
        proof {
            assert(self@.types[ty as int] == self.types@[ty as int]@);
        }
        match &self.types[ty] {
            TypeKind::Int(_) => Ok(Value { ty, op: Operand::Const(v) }),
            _ => Err(ConstructionError::TypeMismatch),
        }
    }

    /// Appends `instr` at the cursor and returns the register it defines.
    fn append_at(&mut self, f: FuncId, b: usize, instr: Instr, ty: TypeId) -> (r: Value)
        requires
            old(self)@.wf(),
            old(self)@.insertion() == Some((f, b)),
        ensures
            final(self)@.wf(),
            final(self)@ == old(self)@.with_instr(f, b, instr@),
            final(self)@.insertion() == Some((f, b)),
            r == (Value { ty, op: Operand::Reg(b, old(self)@.block(f, b).instrs.len() as usize) }),
            r.op->Reg_1 as int == old(self)@.block(f, b).instrs.len(),
    {
        proof {
            assert(self@.funcs[f as int] == self.funcs@[f as int]@);
            assert(self@.funcs[f as int].blocks[b as int] == self.funcs@[f as int].blocks@[b as int]@);
            lemma_with_block_wf(self@, f, b, BlockSpec {
                instrs: self@.block(f, b).instrs.push(instr@),
                term: self@.block(f, b).term,
            });
        }
        let n = self.funcs[f].blocks[b].instrs.len();
        self.push_instr(f, b, instr);
        Value { ty, op: Operand::Reg(b, n) }
    }

    /// Wrapping addition of two integers of one type.
    pub fn build_add(&mut self, a: Value, x: Value) -> (r: Result<Value, ConstructionError>)
        requires
            old(self)@.wf(),
        ensures
            final(self)@.wf(),
            r is Err ==> final(self)@ == old(self)@,
            old(self)@.insertion() is None ==> r == Err::<Value, _>(
                ConstructionError::NoInsertionPoint,
            ),
            old(self)@.insertion() is Some ==> ({
                let (f, b) = old(self)@.insertion()->Some_0;
                let m = old(self)@;
                &&& !(m.value_ok(f, a) && m.value_ok(f, x)) ==> r == Err::<Value, _>(
                    ConstructionError::Unknown,
                )
                &&& m.value_ok(f, a) && m.value_ok(f, x) && !(m.is_int(a.ty) && a.ty == x.ty) ==> r
                    == Err::<Value, _>(ConstructionError::TypeMismatch)
                &&& m.value_ok(f, a) && m.value_ok(f, x) && m.is_int(a.ty) && a.ty == x.ty ==> r
                    == Ok::<Value, ConstructionError>(
                    Value { ty: a.ty, op: Operand::Reg(b, m.block(f, b).instrs.len() as usize) },
                ) && final(self)@ == m.with_instr(f, b, InstrSpec::Add(a, x))
            }),
    {
        let (f, b) = match self.insertion_point() {
            Ok(p) => p,
            Err(e) => return Err(e),
        };
        if !self.check_value(f, a) || !self.check_value(f, x) {
            return Err(ConstructionError::Unknown);
        }
        proof {
            assert(self@.types[a.ty as int] == self.types@[a.ty as int]@);
        }
        let is_int = match &self.types[a.ty] {
            TypeKind::Int(_) => true,
            _ => false,
        };
        if !is_int || a.ty != x.ty {
            return Err(ConstructionError::TypeMismatch);
        }
        Ok(self.append_at(f, b, Instr::Add(a, x), a.ty))
    }

    /// Load of a value of type `ty` through pointer `p`, whose type must be
    /// the pointer to `ty`.
    pub fn build_load(&mut self, p: Value, ty: TypeId) -> (r: Result<Value, ConstructionError>)
        requires
            old(self)@.wf(),
        ensures
            final(self)@.wf(),
            r is Err ==> final(self)@ == old(self)@,
            old(self)@.insertion() is None ==> r == Err::<Value, _>(
                ConstructionError::NoInsertionPoint,
            ),
            old(self)@.insertion() is Some ==> ({
                let (f, b) = old(self)@.insertion()->Some_0;
                let m = old(self)@;
                &&& !m.value_ok(f, p) ==> r == Err::<Value, _>(ConstructionError::Unknown)
                &&& m.value_ok(f, p) && m.types[p.ty as int] != TypeSpec::Ptr(ty) ==> r == Err::<
                    Value,
                    _,
                >(ConstructionError::TypeMismatch)
                &&& m.value_ok(f, p) && m.types[p.ty as int] == TypeSpec::Ptr(ty) ==> r == Ok::<
                    Value,
                    ConstructionError,
                >(Value { ty, op: Operand::Reg(b, m.block(f, b).instrs.len() as usize) })
                    && final(self)@ == m.with_instr(f, b, InstrSpec::Load(p, ty))
            }),
    {
        let (f, b) = match self.insertion_point() {
            Ok(q) => q,
            Err(e) => return Err(e),
        };
        if !self.check_value(f, p) {
            return Err(ConstructionError::Unknown);
        }
        proof {
            assert(self@.types[p.ty as int] == self.types@[p.ty as int]@);
        }
        let pointee_ok = match &self.types[p.ty] {
            TypeKind::Ptr(e) => *e == ty,
            _ => false,
        };
        if !pointee_ok {
            return Err(ConstructionError::TypeMismatch);
        }
        Ok(self.append_at(f, b, Instr::Load(p, ty), ty))
    }

    /// Finishes the cursor's block with a return of `v`, or of nothing.
    pub fn build_ret(&mut self, v: Option<Value>) -> (r: Result<(), ConstructionError>)
        requires
            old(self)@.wf(),
        ensures
            final(self)@.wf(),
            r is Err ==> final(self)@ == old(self)@,
            old(self)@.insertion() is None ==> r == Err::<(), _>(ConstructionError::NoInsertionPoint),
            old(self)@.insertion() is Some ==> ({
                let (f, b) = old(self)@.insertion()->Some_0;
                let m = old(self)@;
                let rt = m.sig(f).1;
                &&& v is Some && !m.value_ok(f, v->Some_0) ==> r == Err::<(), _>(
                    ConstructionError::Unknown,
                )
                &&& (v is Some && m.value_ok(f, v->Some_0) && v->Some_0.ty != rt) || (v is None
                    && !(m.types[rt as int] is Void)) ==> r == Err::<(), _>(
                    ConstructionError::TypeMismatch,
                )
                &&& (v is Some && m.value_ok(f, v->Some_0) && v->Some_0.ty == rt) || (v is None
                    && m.types[rt as int] is Void) ==> r is Ok && final(self)@ == m.with_term(
                    f,
                    b,
                    Terminator::Ret(v),
                )
            }),
    {
        let (f, b) = match self.insertion_point() {
            Ok(q) => q,
            Err(e) => return Err(e),
        };
        let (_, rt, _) = self.sig_of(f);
        match v {
            Some(x) => {
                if !self.check_value(f, x) {
                    return Err(ConstructionError::Unknown);
                }
                if x.ty != rt {
                    return Err(ConstructionError::TypeMismatch);
                }
            },
            None => {
                proof {
                    assert(self@.types[rt as int] == self.types@[rt as int]@);
                }
                if let TypeKind::Void = &self.types[rt] {
                } else {
                    return Err(ConstructionError::TypeMismatch);
                }
            },
        }
        proof {
            lemma_with_block_wf(self@, f, b, BlockSpec {
                instrs: self@.block(f, b).instrs,
                term: Some(Terminator::Ret(v)),
            });
        }
        self.set_term(f, b, Terminator::Ret(v));
        Ok(())
    }

    /// Finishes the cursor's block with a branch to block `target` of the
    /// same function.
    pub fn build_br(&mut self, target: usize) -> (r: Result<(), ConstructionError>)
        requires
            old(self)@.wf(),
        ensures
            final(self)@.wf(),
            r is Err ==> final(self)@ == old(self)@,
            old(self)@.insertion() is None ==> r == Err::<(), _>(ConstructionError::NoInsertionPoint),
            old(self)@.insertion() is Some ==> ({
                let (f, b) = old(self)@.insertion()->Some_0;
                let m = old(self)@;
                &&& target >= m.funcs[f as int].blocks.len() ==> r == Err::<(), _>(
                    ConstructionError::Unknown,
                )
                &&& target < m.funcs[f as int].blocks.len() ==> r is Ok && final(self)@
                    == m.with_term(f, b, Terminator::Br(target))
            }),
    {
        let (f, b) = match self.insertion_point() {
            Ok(q) => q,
            Err(e) => return Err(e),
        };
        proof {
            assert(self@.funcs[f as int] == self.funcs@[f as int]@);
        }
        if target >= self.funcs[f].blocks.len() {
            return Err(ConstructionError::Unknown);
        }
        proof {
            lemma_with_block_wf(self@, f, b, BlockSpec {
                instrs: self@.block(f, b).instrs,
                term: Some(Terminator::Br(target)),
            });
        }
        self.set_term(f, b, Terminator::Br(target));
        Ok(())
    }

    /// Call of function `callee` with `args`. The arguments must match the
    /// parameters in number and type; a variadic callee takes more, and each
    /// of those that is an integer narrower than 32 bits is first widened to
    /// 32 bits by a zero extension.
    pub fn build_call(&mut self, callee: FuncId, args: &Vec<Value>) -> (r: Result<
        Value,
        ConstructionError,
    >)
        requires
            old(self)@.wf(),
        ensures
            final(self)@.wf(),
            r is Err ==> final(self)@ == old(self)@,
            old(self)@.insertion() is None ==> r == Err::<Value, _>(
                ConstructionError::NoInsertionPoint,
            ),
            old(self)@.insertion() is Some ==> call_outcome(
                old(self)@,
                old(self)@.insertion()->Some_0.0,
                old(self)@.insertion()->Some_0.1,
                callee,
                args@,
                r,
                final(self)@,
            ),
    {
        let (f, b) = match self.insertion_point() {
            Ok(q) => q,
            Err(e) => return Err(e),
        };
        if callee >= self.funcs.len() {
            return Err(ConstructionError::Unknown);
        }
        let mut i: usize = 0;
        while i < args.len()
            invariant
                self@.wf(),
                self@ == old(self)@,
                old(self)@.insertion() == Some((f, b)),
                f < self@.funcs.len(),
                callee < self@.funcs.len(),
                i <= args.len(),
                forall|j: int| 0 <= j < i ==> self@.value_ok(f, args@[j]),
            decreases args.len() - i,
        {
            if !self.check_value(f, args[i]) {
                return Err(ConstructionError::Unknown);
            }
            i = i + 1;
        }
        let (ps, rt, variadic) = self.sig_of(callee);
        if (!variadic && args.len() != ps.len()) || (variadic && args.len() < ps.len()) {
            return Err(ConstructionError::Arity);
        }
        let nfixed = ps.len();
        let mut i: usize = 0;
        while i < nfixed
            invariant
                self@.wf(),
                self@ == old(self)@,
                old(self)@.insertion() == Some((f, b)),
                callee < self@.funcs.len(),
                ps@ == self@.sig(callee).0,
                rt == self@.sig(callee).1,
                variadic == self@.sig(callee).2,
                forall|j: int| 0 <= j < args.len() ==> self@.value_ok(f, args@[j]),
                nfixed == ps.len(),
                nfixed <= args.len(),
                !variadic ==> nfixed == args.len(),
                i <= nfixed,
                forall|j: int| 0 <= j < i ==> args@[j].ty == ps@[j],
            decreases nfixed - i,
        {
            if args[i].ty != ps[i] {
                return Err(ConstructionError::TypeMismatch);
            }
            i = i + 1;
        }
        let ghost m = self@;
        let ghost nf = nfixed as int;
        let mut promoted: Vec<Value> = Vec::new();
        let mut i: usize = 0;
        while i < nfixed
            invariant
                self@ == m,
                nf == nfixed,
                nfixed <= args.len(),
                i <= nfixed,
                promoted@.len() == i,
                self@.promoted(f, b, args@, promoted@, nf, i as int),
            decreases nfixed - i,
        {
            let ghost pv = promoted@;
            promoted.push(args[i]);
            proof {
                assert forall|j: int| 0 <= j < i + 1 implies self@.promoted_at(
                    f,
                    b,
                    args@[j],
                    #[trigger] promoted@[j],
                    j < nf,
                ) by {
                    if j < i {
                        assert(promoted@[j] == pv[j]);
                        assert(self@.promoted_at(f, b, args@[j], pv[j], j < nf));
                    } else {
                        assert(promoted@[j] == args@[j]);
                    }
                }
            }
            i = i + 1;
        }
        proof {
            assert(self@.types.subrange(0, m.types.len() as int) =~= m.types);
            assert(self@.block(f, b).instrs.subrange(0, m.block(f, b).instrs.len() as int) =~= m.block(f, b).instrs);
        }
        if i < args.len() {
            let wide = self.int_type(PROMOTED_WIDTH);
            proof {
                assert(self@.types.subrange(0, m.types.len() as int) =~= m.types);
                assert(self@.block(f, b).instrs.subrange(0, m.block(f, b).instrs.len() as int) =~= m.block(f, b).instrs);
                assert forall|j: int| 0 <= j < i implies self@.promoted_at(
                    f,
                    b,
                    args@[j],
                    #[trigger] promoted@[j],
                    j < nf,
                ) by {
                    assert(m.promoted_at(f, b, args@[j], promoted@[j], j < nf));
                    assert(m.value_ok(f, args@[j]));
                    lemma_promoted_at_stable(m, self@, f, b, args@[j], promoted@[j], j < nf);
                }
                assert forall|j: int| 0 <= j < i implies (#[trigger] promoted@[j]).ty < self@.types.len() by {
                    assert(m.promoted_at(f, b, args@[j], promoted@[j], j < nf));
                    assert(m.value_ok(f, args@[j]));
                }
            }
            while i < args.len()
                invariant
                    self@.wf(),
                    self@.insertion() == Some((f, b)),
                    self@.extends_block(m, f, b),
                    nf <= i <= args.len(),
                    wide < self@.types.len(),
                    self@.types[wide as int] == TypeSpec::Int(PROMOTED_WIDTH),
                    forall|j: int| 0 <= j < args.len() ==> m.value_ok(f, #[trigger] args@[j]),
                    promoted@.len() == i,
                    forall|j: int| 0 <= j < i ==> (#[trigger] promoted@[j]).ty < self@.types.len(),
                    self@.promoted(f, b, args@, promoted@, nf, i as int),
                decreases args.len() - i,
            {
                let a = args[i];
                proof {
                    assert(m.value_ok(f, args@[i as int]));
                    assert(self@.types.subrange(0, m.types.len() as int)[a.ty as int] == self@.types[a.ty as int]);
                    assert(self@.types[a.ty as int] == self.types@[a.ty as int]@);
                }
                let narrow = match &self.types[a.ty] {
                    TypeKind::Int(w) => *w < PROMOTED_WIDTH,
                    _ => false,
                };
                let ghost before = self@;
                let ghost pv = promoted@;
                if narrow {
                    let q = self.append_at(f, b, Instr::ZExt(a, wide), wide);
                    proof {
                        lemma_with_instr_extends(before, f, b, InstrSpec::ZExt(a, wide));
                        lemma_extends_trans(m, before, self@, f, b);
                    }
                    promoted.push(q);
                    proof {
                        let bi = before.block(f, b).instrs;
                        assert(self@.block(f, b).instrs == bi.push(InstrSpec::ZExt(a, wide)));
                        assert(q.op->Reg_1 as int == bi.len());
                        assert(self@.block(f, b).instrs[bi.len() as int] == InstrSpec::ZExt(a, wide));
                        assert(self@.types[a.ty as int] == before.types[a.ty as int]);
                        assert(self@.is_narrow_int(a.ty));
                        assert(self@.promoted_at(f, b, a, q, false));
                    }
                } else {
                    promoted.push(a);
                    proof {
                        assert(!self@.is_narrow_int(a.ty));
                    }
                }
                proof {
                    assert forall|j: int| 0 <= j < i + 1 implies self@.promoted_at(
                        f,
                        b,
                        args@[j],
                        #[trigger] promoted@[j],
                        j < nf,
                    ) by {
                        if j < i {
                            assert(promoted@[j] == pv[j]);
                            assert(before.promoted_at(f, b, args@[j], pv[j], j < nf));
                            assert(m.value_ok(f, args@[j]));
                            if narrow {
                                lemma_promoted_at_stable(before, self@, f, b, args@[j], pv[j], j < nf);
                            }
                        } else {
                            assert(self@.types[a.ty as int] == before.types[a.ty as int]);
                        }
                    }
                    assert forall|j: int| 0 <= j < i + 1 implies (#[trigger] promoted@[j]).ty < self@.types.len() by {
                        if j < i {
                            assert(promoted@[j] == pv[j]);
                        }
                    }
                }
                i = i + 1;
            }
        }
        let ghost before = self@;
        let ghost pv = promoted@;
        let res = self.append_at(f, b, Instr::Call(callee, promoted), rt);
        proof {
            lemma_with_instr_extends(before, f, b, InstrSpec::Call(callee, pv));
            lemma_extends_trans(m, before, self@, f, b);
            assert forall|j: int| 0 <= j < args.len() implies self@.promoted_at(
                f,
                b,
                args@[j],
                #[trigger] pv[j],
                j < nf,
            ) by {
                assert(before.promoted_at(f, b, args@[j], pv[j], j < nf));
                assert(m.value_ok(f, args@[j]));
                lemma_promoted_at_stable(before, self@, f, b, args@[j], pv[j], j < nf);
            }
        }
        Ok(res)
    }

    /// The type of `printf`: a variadic function of one pointer to bytes
    /// that returns a 32-bit integer.
    pub fn printf_type(&mut self) -> (r: TypeId)
        requires
            old(self)@.wf(),
        ensures
            final(self)@.wf(),
            final(self)@.grows_types(old(self)@),
            is_printf_type(final(self)@, r),
            (exists|t: TypeId| is_printf_type(old(self)@, t)) ==> final(self)@ == old(self)@,
    {
        let ghost m0 = self@;
        let ghost had = exists|t: TypeId| is_printf_type(m0, t);
        let cp = self.char_ptr_type();
        proof {
            if had {
                let t = choose|t: TypeId| is_printf_type(m0, t);
                assert(m0.is_char_ptr(m0.types[t as int]->Func_0[0]));
                assert(self@ == m0);
                lemma_char_ptr_unique(m0, cp, m0.types[t as int]->Func_0[0]);
                assert(m0.types.contains(TypeSpec::Int(32)));
            }
        }
        let wide = self.int_type(32);
        let ghost m1 = self@;
        proof {
            if had {
                let t = choose|t: TypeId| is_printf_type(m0, t);
                let ft = m0.types[t as int];
                assert(m1 == m0);
                assert(wide == ft->Func_1);
                assert(ft->Func_0 =~= seq![cp]);
                assert(ft == TypeSpec::Func(seq![cp], wide, true));
                assert(m0.types.contains(TypeSpec::Func(seq![cp], wide, true)));
            }
        }
        let params = vec![cp];
        let ty = self.fn_type(&params, wide, true);
        let ty = match ty {
            Ok(t) => t,
            Err(e) => {
                proof {
                    assert(params@[0] == cp);
                    assert(type_closed(TypeSpec::Func(params@, wide, true), m1.types));
                    assert(false);
                }
                return 0;
            },
        };
        proof {
            assert(params@[0] == cp);
            let n = m1.types.len() as int;
            assert(self@.types.subrange(0, n) =~= m1.types);
            let e = m1.types[cp as int]->Ptr_0;
            assert(self@.types.subrange(0, n)[cp as int] == self@.types[cp as int]);
            assert(self@.types.subrange(0, n)[e as int] == self@.types[e as int]);
            assert(self@.types.subrange(0, n)[wide as int] == self@.types[wide as int]);
            assert(self@.types.subrange(0, old(self)@.types.len() as int) =~= old(self)@.types);
            if had {
                assert(params@ =~= seq![cp]);
            }
        }
        ty
    }

    /// Whether `t` is the type of pointers to bytes.
    fn check_char_ptr(&self, t: TypeId) -> (r: bool)
        requires
            self@.wf(),
        ensures
            r == self@.is_char_ptr(t),
    {
        if t >= self.types.len() {
            return false;
        }
        proof {
            assert(self@.types[t as int] == self.types@[t as int]@);
        }
        match &self.types[t] {
            TypeKind::Ptr(e) => {
                proof {
                    assert(self@.types[*e as int] == self.types@[*e as int]@);
                }
                match &self.types[*e] {
                    TypeKind::Int(w) => *w == 8,
                    _ => false,
                }
            },
            _ => false,
        }
    }

    /// Whether `t` is the type of `printf`.
    fn check_printf_type(&self, t: TypeId) -> (r: bool)
        requires
            self@.wf(),
        ensures
            r == is_printf_type(self@, t),
    {
        if t >= self.types.len() {
            return false;
        }
        proof {
            assert(self@.types[t as int] == self.types@[t as int]@);
        }
        match &self.types[t] {
            TypeKind::Func(ps, rt, v) => {
                if ps.len() != 1 || !*v || !self.check_char_ptr(ps[0]) || *rt >= self.types.len() {
                    return false;
                }
                proof {
                    assert(self@.types[*rt as int] == self.types@[*rt as int]@);
                }
                match &self.types[*rt] {
                    TypeKind::Int(w) => *w == 32,
                    _ => false,
                }
            },
            _ => false,
        }
    }

    /// Declares the C runtime's `printf` as an external function of its
    /// type, or finds it where it is declared so already. Any other function
    /// named `printf` is a conflict, and then nothing changes.
    pub fn get_printf(&mut self) -> (r: Result<FuncId, ConstructionError>)
        requires
            old(self)@.wf(),
        ensures
            final(self)@.wf(),
            printf_declared(old(self)@, final(self)@, r),
    {
        let name: Vec<u8> = vec![112u8, 114u8, 105u8, 110u8, 116u8, 102u8];
        proof {
            assert(name@ =~= printf_name());
        }
        match self.find_function(&name) {
            Some(g) => {
                proof {
                    assert(self@.funcs[g as int] == self.funcs@[g as int]@);
                    assert forall|h: int|
                        0 <= h < self@.funcs.len() && self@.funcs[h].name == printf_name() implies h
                        == g by {}
                }
                if self.funcs[g].linkage == Linkage::External && self.check_printf_type(self.funcs[g].ty) {
                    Ok(g)
                } else {
                    Err(ConstructionError::SignatureConflict)
                }
            },
            None => {
                let ghost m0 = self@;
                let ty = self.printf_type();
                let ghost m2 = self@;
                let r = self.declare_external(&name, ty);
                proof {
                    assert(!m2.has_name(printf_name()));
                    assert(self@.funcs[m2.funcs.len() as int].ty == ty);
                    assert(self@.types == m2.types);
                    assert(!printf_conflict(m0));
                }
                r
            },
        }
    }

    /// Emits a call of `printf` with the interned format string `fmt`
    /// followed by `args`. Whether the format's specifiers fit the arguments
    /// is left to the caller: the runtime reads them, not this builder.
    pub fn printf(&mut self, fmt: &Vec<u8>, args: &Vec<Value>) -> (r: Result<
        Value,
        ConstructionError,
    >)
        requires
            old(self)@.wf(),
        ensures
            final(self)@.wf(),
            printf_emitted(old(self)@, final(self)@, fmt@, args@, r),
    {
        let (f, b) = match self.insertion_point() {
            Ok(q) => q,
            Err(e) => {
                proof {
                    assert(self@.strings.subrange(0, self@.strings.len() as int) =~= self@.strings);
                    assert(self@.funcs.subrange(0, self@.funcs.len() as int) =~= self@.funcs);
                    assert(self@.types.subrange(0, self@.types.len() as int) =~= self@.types);
                }
                return Err(e);
            },
        };
        let mut i: usize = 0;
        while i < args.len()
            invariant
                self@.wf(),
                self@ == old(self)@,
                old(self)@.insertion() == Some((f, b)),
                f < self@.funcs.len(),
                i <= args.len(),
                forall|j: int| 0 <= j < i ==> self@.value_ok(f, args@[j]),
            decreases args.len() - i,
        {
            if !self.check_value(f, args[i]) {
                proof {
                    assert(self@.strings.subrange(0, self@.strings.len() as int) =~= self@.strings);
                    assert(self@.funcs.subrange(0, self@.funcs.len() as int) =~= self@.funcs);
                    assert(self@.types.subrange(0, self@.types.len() as int) =~= self@.types);
                }
                return Err(ConstructionError::Unknown);
            }
            i = i + 1;
        }
        let ghost m0 = self@;
        let g = match self.get_printf() {
            Ok(g) => g,
            Err(e) => {
                proof {
                    assert(self@.types.subrange(0, self@.types.len() as int) =~= self@.types);
                }
                return Err(e);
            },
        };
        let s = self.intern(fmt);
        let ghost m = self@;
        proof {
            assert(m.funcs.subrange(0, m0.funcs.len() as int) =~= m0.funcs);
            assert(m.strings.subrange(0, m0.strings.len() as int) =~= m0.strings);
            assert(m.types.subrange(0, m0.types.len() as int) =~= m0.types);
            assert(module_grows(m0, m));
        }
        let mut all: Vec<Value> = Vec::new();
        all.push(s);
        let mut i: usize = 0;
        while i < args.len()
            invariant
                self@ == m,
                i <= args.len(),
                all@ == seq![s] + args@.subrange(0, i as int),
            decreases args.len() - i,
        {
            all.push(args[i]);
            i = i + 1;
            proof {
                assert(all@ =~= seq![s] + args@.subrange(0, i as int));
            }
        }
        proof {
            assert(all@ =~= seq![s] + args@);
            assert(m.insertion() == Some((f, b)));
            assert forall|j: int| 0 <= j < all@.len() implies m.value_ok(f, all@[j]) by {
                if j > 0 {
                    assert(all@[j] == args@[j - 1]);
                    assert(m0.value_ok(f, args@[j - 1]));
                    lemma_value_ok_grows(m0, m, f, args@[j - 1]);
                }
            }
            let ps = m.sig(g).0;
            assert(ps.len() == 1);
            lemma_char_ptr_unique(m, ps[0], s.ty);
        }
        let ghost m1 = m0;
        let r = self.build_call(g, &all);
        proof {
            let n = self@;
            assert(m.funcs.subrange(0, m0.funcs.len() as int)[f as int] == m.funcs[f as int]);
            assert(m.block(f, b) == m0.block(f, b));
            assert forall|h: int| 0 <= h < m0.funcs.len() implies m.funcs[h] == m0.funcs[h] by {
                assert(m.funcs.subrange(0, m0.funcs.len() as int)[h] == m.funcs[h]);
            }
            assert forall|h: int| 0 <= h < m0.funcs.len() implies (#[trigger] n.funcs[h]).ty
                == m0.funcs[h].ty && n.funcs[h].name == m0.funcs[h].name && n.funcs[h].linkage
                == m0.funcs[h].linkage && n.funcs[h].blocks.len() == m0.funcs[h].blocks.len() by {
                assert(m.funcs[h] == m0.funcs[h]);
            }
            assert(n.funcs[f as int].blocks[b as int].term == m0.funcs[f as int].blocks[b as int].term);
            assert forall|h: int| m0.funcs.len() <= h < n.funcs.len() implies (#[trigger] n.funcs[h]).blocks.len() == 0 by {
                assert(h != f);
                assert(n.funcs[h] == m.funcs[h]);
            }
            assert(n.types.subrange(0, m0.types.len() as int) =~= m.types.subrange(0, m0.types.len() as int));
            assert(m.funcs[f as int].blocks.len() > 0);
            assert(g != f);
            assert(n.funcs[g as int] == m.funcs[g as int]);
            lemma_printf_type_prefix(m, n, m.funcs[g as int].ty);
            let rt = m.sig(g).1;
            assert(n.types.subrange(0, m.types.len() as int)[rt as int] == n.types[rt as int]);
            let e = m.types[s.ty as int]->Ptr_0;
            assert(n.types.subrange(0, m.types.len() as int)[s.ty as int] == n.types[s.ty as int]);
            assert(n.types.subrange(0, m.types.len() as int)[e as int] == n.types[e as int]);
            let last = n.block(f, b).instrs.last();
            assert(last->Call_1[0] == s);
            assert(seq![last->Call_1[0]] + args@ =~= all@);
            assert(printf_call_added(m0, n, f, b, fmt@, args@, r));
        }
        r
    }

    /// Checks that every block is finished by a terminator.
    pub fn verify(&self) -> (r: Result<(), VerificationError>)
        ensures
            r is Ok <==> module_verifies(self@),
            r is Err ==> ({
                let e = r->Err_0;
                &&& e.func < self@.funcs.len()
                &&& e.block < self@.funcs[e.func as int].blocks.len()
                &&& self@.funcs[e.func as int].blocks[e.block as int].term is None
            }),
    {
        let mut f: usize = 0;
        while f < self.funcs.len()
            invariant
                f <= self.funcs.len(),
                self@.funcs.len() == self.funcs@.len(),
                forall|g: int, b: int|
                    0 <= g < f && 0 <= b < self@.funcs[g].blocks.len() ==> (
                    #[trigger] self@.funcs[g].blocks[b]).term is Some,
            decreases self.funcs.len() - f,
        {
            let mut b: usize = 0;
            proof {
                assert(self@.funcs[f as int] == self.funcs@[f as int]@);
            }
            while b < self.funcs[f].blocks.len()
                invariant
                    f < self.funcs.len(),
                    b <= self.funcs@[f as int].blocks.len(),
                    self@.funcs[f as int] == self.funcs@[f as int]@,
                    forall|c: int| 0 <= c < b ==> (#[trigger] self@.funcs[f as int].blocks[c]).term is Some,
                decreases self.funcs@[f as int].blocks.len() - b,
            {
                proof {
                    assert(self@.funcs[f as int].blocks[b as int] == self.funcs@[f as int].blocks@[b as int]@);
                }
                if self.funcs[f].blocks[b].term.is_none() {
                    return Err(VerificationError { func: f, block: b });
                }
                b = b + 1;
            }
            f = f + 1;
        }
        Ok(())
    }

    /// Number of types in the table.
    pub fn type_count(&self) -> (r: usize)
        ensures
            r == self@.types.len(),
    {
        self.types.len()
    }

    /// Number of declared functions.
    pub fn function_count(&self) -> (r: usize)
        ensures
            r == self@.funcs.len(),
    {
        self.funcs.len()
    }

    /// Number of interned strings.
    pub fn string_count(&self) -> (r: usize)
        ensures
            r == self@.strings.len(),
    {
        self.strings.len()
    }

    /// Function `f`.
    pub fn function_at(&self, f: FuncId) -> (r: &Function)
        requires
            f < self@.funcs.len(),
        ensures
            r@ == self@.funcs[f as int],
    {
        &self.funcs[f]
    }

    /// Number of blocks of function `f`.
    pub fn block_count(&self, f: FuncId) -> (r: usize)
        requires
            f < self@.funcs.len(),
        ensures
            r == self@.funcs[f as int].blocks.len(),
    {
        proof {
            assert(self@.funcs[f as int] == self.funcs@[f as int]@);
        }
        self.funcs[f].blocks.len()
    }

    /// Block `b` of function `f`.
    pub fn block_at(&self, f: FuncId, b: usize) -> (r: &Block)
        requires
            f < self@.funcs.len(),
            b < self@.funcs[f as int].blocks.len(),
        ensures
            r@ == self@.funcs[f as int].blocks[b as int],
    {
        proof {
            assert(self@.funcs[f as int] == self.funcs@[f as int]@);
            assert(self@.funcs[f as int].blocks[b as int] == self.funcs@[f as int].blocks@[b as int]@);
        }
        &self.funcs[f].blocks[b]
    }

    /// The type of the process entry point, `(i32, i8**) -> i32`, as the
    /// host's process start calls it.
    pub fn entry_point_type(&mut self) -> (r: TypeId)
        requires
            old(self)@.wf(),
        ensures
            final(self)@.wf(),
            final(self)@.grows_types(old(self)@),
            is_entry_type(final(self)@, r),
            (exists|t: TypeId| is_entry_type(old(self)@, t)) ==> final(self)@ == old(self)@,
    {
        let ghost m0 = self@;
        let ghost had = exists|t: TypeId| is_entry_type(m0, t);
        let cp = self.char_ptr_type();
        proof {
            if had {
                let t = choose|t: TypeId| is_entry_type(m0, t);
                let a = m0.types[t as int]->Func_0[1];
                assert(m0.is_char_ptr(m0.types[a as int]->Ptr_0));
                assert(self@ == m0);
                lemma_char_ptr_unique(m0, cp, m0.types[a as int]->Ptr_0);
                assert(m0.types[a as int] == TypeSpec::Ptr(cp));
                assert(m0.types.contains(TypeSpec::Ptr(cp)));
            }
        }
        let ghost m1 = self@;
        let argv = match self.ptr_type(cp) {
            Ok(t) => t,
            Err(_) => {
                proof {
                    assert(false);
                }
                return 0;
            },
        };
        let ghost m2 = self@;
        proof {
            if had {
                let t = choose|t: TypeId| is_entry_type(m0, t);
                assert(m2 == m0);
                assert(argv == m0.types[t as int]->Func_0[1]);
                assert(m0.types.contains(TypeSpec::Int(32)));
            }
        }
        let wide = self.int_type(32);
        let ghost m3 = self@;
        proof {
            if had {
                let t = choose|t: TypeId| is_entry_type(m0, t);
                let ft = m0.types[t as int];
                assert(m3 == m0);
                assert(wide == ft->Func_1);
                assert(wide == ft->Func_0[0]);
                assert(ft->Func_0 =~= seq![wide, argv]);
                assert(ft == TypeSpec::Func(seq![wide, argv], wide, false));
                assert(m0.types.contains(TypeSpec::Func(seq![wide, argv], wide, false)));
            }
        }
        let params = vec![wide, argv];
        let ty = match self.fn_type(&params, wide, false) {
            Ok(t) => t,
            Err(_) => {
                proof {
                    assert(params@[0] == wide && params@[1] == argv);
                    assert(type_closed(TypeSpec::Func(params@, wide, false), m3.types));
                    assert(false);
                }
                return 0;
            },
        };
        proof {
            assert(params@[0] == wide && params@[1] == argv);
            let n1 = m1.types.len() as int;
            let n2 = m2.types.len() as int;
            let n3 = m3.types.len() as int;
            let e = m1.types[cp as int]->Ptr_0;
            assert(m2.types.subrange(0, n1) =~= m1.types);
            assert(m2.types.subrange(0, n1)[cp as int] == m2.types[cp as int]);
            assert(m2.types.subrange(0, n1)[e as int] == m2.types[e as int]);
            assert(m3.types.subrange(0, n2) =~= m2.types);
            assert(m3.types.subrange(0, n2)[cp as int] == m3.types[cp as int]);
            assert(m3.types.subrange(0, n2)[e as int] == m3.types[e as int]);
            assert(m3.types.subrange(0, n2)[argv as int] == m3.types[argv as int]);
            assert(self@.types.subrange(0, n3) =~= m3.types);
            assert(self@.types.subrange(0, n3)[cp as int] == self@.types[cp as int]);
            assert(self@.types.subrange(0, n3)[e as int] == self@.types[e as int]);
            assert(self@.types.subrange(0, n3)[argv as int] == self@.types[argv as int]);
            assert(self@.types.subrange(0, n3)[wide as int] == self@.types[wide as int]);
            assert(self@.types.subrange(0, old(self)@.types.len() as int) =~= old(self)@.types);
            if had {
                assert(params@ =~= seq![wide, argv]);
            }
        }
        ty
    }

    /// Declares the process entry point `main` with its type. It fails as
    /// `declare_function` does when `main` is declared with another type.
    pub fn declare_entry_point(&mut self) -> (r: Result<FuncId, ConstructionError>)
        requires
            old(self)@.wf(),
        ensures
            final(self)@.wf(),
            r is Ok ==> r->Ok_0 < final(self)@.funcs.len() && final(self)@.funcs[r->Ok_0 as int].name
                == entry_name() && is_entry_type(final(self)@, final(self)@.funcs[r->Ok_0 as int].ty),
            old(self)@.has_name(entry_name()) ==> final(self)@.funcs == old(self)@.funcs
                && (r is Ok ==> old(self)@.funcs[r->Ok_0 as int].name == entry_name())
                && (r is Err ==> r == Err::<FuncId, _>(ConstructionError::SignatureConflict)),
            !old(self)@.has_name(entry_name()) ==> r is Ok && r->Ok_0 == old(self)@.funcs.len()
                && final(self)@.funcs == old(self)@.funcs.push(
                FunctionSpec {
                    name: entry_name(),
                    ty: final(self)@.funcs[r->Ok_0 as int].ty,
                    linkage: Linkage::Internal,
                    blocks: Seq::empty(),
                },
            ),
    {
        let ty = self.entry_point_type();
        let ghost m = self@;
        let name: Vec<u8> = vec![109u8, 97u8, 105u8, 110u8];
        proof {
            assert(name@ =~= entry_name());
        }
        let r = self.declare_function(&name, ty, Linkage::Internal);
        proof {
            assert(self@.types == m.types);
            if !m.has_name(entry_name()) {
                assert(self@.funcs[m.funcs.len() as int].ty == ty);
            } else {
                let g = choose|g: int| 0 <= g < m.funcs.len() && m.funcs[g].name == entry_name();
                if m.funcs[g].ty == ty {
                    assert(r->Ok_0 == g);
                }
            }
        }
        r
    }
}

/// Interning is keyed by content: after interning `s1` and then `s2`, the
/// two handles are equal exactly when the contents are, and each handle
/// still leads to its own content.
pub proof fn intern_handles_follow_content(
    m0: ModuleView,
    m1: ModuleView,
    m2: ModuleView,
    s1: Seq<u8>,
    s2: Seq<u8>,
    h1: Value,
    h2: Value,
)
    requires
        m0.wf(),
        m1.wf(),
        m2.wf(),
        string_interned(m0, m1, s1, h1),
        string_interned(m1, m2, s2, h2),
    ensures
        (h1 == h2) <==> (s1 == s2),
        m2.strings[h1.op->Str_0 as int] == s1,
        m2.strings[h2.op->Str_0 as int] == s2,
{
    let k1 = h1.op->Str_0 as int;
    let k2 = h2.op->Str_0 as int;
    assert(m2.strings[k1] == s1) by {
        if !m1.strings.contains(s2) {
            assert(m2.strings == m1.strings.push(s2));
        }
    }
    let n = m1.types.len() as int;
    let e = m1.types[h1.ty as int]->Ptr_0;
    assert(m2.types.subrange(0, n)[h1.ty as int] == m2.types[h1.ty as int]);
    assert(m2.types.subrange(0, n)[e as int] == m2.types[e as int]);
    lemma_char_ptr_unique(m2, h1.ty, h2.ty);
}

/// Declaring an external symbol again with the same signature gives the
/// same function and changes nothing; with another function type it is a
/// signature conflict.
pub proof fn redeclaring_external_is_stable(
    m0: ModuleView,
    m1: ModuleView,
    m2: ModuleView,
    name: Seq<u8>,
    sig: TypeId,
    sig2: TypeId,
    r1: Result<FuncId, ConstructionError>,
    r2: Result<FuncId, ConstructionError>,
)
    requires
        m0.wf(),
        m1.wf(),
        declared(m0, m1, name, sig, Linkage::External, r1),
        r1 is Ok,
        declared(m1, m2, name, sig2, Linkage::External, r2),
        sig2 < m1.types.len(),
        m1.types[sig2 as int] is Func,
    ensures
        sig2 == sig ==> r2 == r1 && m2 == m1,
        sig2 != sig ==> r2 == Err::<FuncId, ConstructionError>(ConstructionError::SignatureConflict),
{
    let g = r1->Ok_0 as int;
    assert(m1.funcs[g].name == name && m1.funcs[g].ty == sig) by {
        if !m0.has_name(name) {
            assert(m1.funcs[m0.funcs.len() as int].name == name);
        }
    }
}

/// A call of the variadic `printf` is built whatever the format says: with
/// the builder in an open block, known arguments and no other `printf`
/// declared, it succeeds for every format, also one whose specifiers do not
/// fit the arguments.
pub proof fn printf_accepts_any_format(
    m: ModuleView,
    n: ModuleView,
    fmt: Seq<u8>,
    args: Seq<Value>,
    r: Result<Value, ConstructionError>,
)
    requires
        m.wf(),
        printf_emitted(m, n, fmt, args, r),
        m.insertion() is Some,
        forall|i: int| 0 <= i < args.len() ==> m.value_ok(m.insertion()->Some_0.0, args[i]),
        !printf_conflict(m),
    ensures
        r is Ok,
        n.strings[n.block(m.insertion()->Some_0.0, m.insertion()->Some_0.1).instrs.last()->Call_1[0].op->Str_0 as int] == fmt,
{
}

/// Asking for `printf` again gives the same function and changes nothing.
pub proof fn repeated_get_printf_is_stable(
    m0: ModuleView,
    m1: ModuleView,
    m2: ModuleView,
    r1: Result<FuncId, ConstructionError>,
    r2: Result<FuncId, ConstructionError>,
)
    requires
        m0.wf(),
        m1.wf(),
        printf_declared(m0, m1, r1),
        r1 is Ok,
        printf_declared(m1, m2, r2),
    ensures
        r2 == r1,
        m2 == m1,
{
    let g = r1->Ok_0 as int;
    assert(m1.funcs[g].name == printf_name());
    assert(m1.has_name(printf_name()));
    assert(!printf_conflict(m1)) by {
        if printf_conflict(m1) {
            let h = choose|h: int|
                0 <= h < m1.funcs.len() && m1.funcs[h].name == printf_name() && !(is_printf_type(
                    m1,
                    m1.funcs[h].ty,
                ) && m1.funcs[h].linkage == Linkage::External);
            assert(h == g);
        }
    }
    assert(r2->Ok_0 as int == g);
}

} // verus!
