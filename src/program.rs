use vstd::prelude::*;
use crate::codegen::{entry_name, is_entry_type, is_printf_type, printf_name, CodeGen};
use crate::emission::VerifiedModule;
use crate::ir::{ConstructionError, InstrSpec, Linkage, Operand, Terminator, TypeSpec, Value};

verus! {

/// A program whose entry point `main(argc, argv)` prints `greeting` and
/// exits with its argument count. It is always built: the entry point is the
/// module's first function, of the entry type, with one block that ends by
/// returning its first parameter.
pub fn greeting_program(greeting: &Vec<u8>) -> (r: Result<VerifiedModule, ConstructionError>)
    ensures
        r is Ok,
        r->Ok_0.inv(),
        r->Ok_0.module().funcs.len() >= 1,
        r->Ok_0.module().funcs[0].name == entry_name(),
        is_entry_type(r->Ok_0.module(), r->Ok_0.module().funcs[0].ty),
        r->Ok_0.module().funcs[0].blocks.len() == 1,
        r->Ok_0.module().funcs[0].blocks[0].term matches Some(Terminator::Ret(Some(v)))
            && v.op == Operand::Param(0),
        ({
            let m = r->Ok_0.module();
            let ins = m.funcs[0].blocks[0].instrs;
            let c = ins.last();
            &&& ins.len() >= 1
            &&& c is Call
            &&& c->Call_0 < m.funcs.len()
            &&& m.funcs[c->Call_0 as int].name == printf_name()
            &&& m.funcs[c->Call_0 as int].linkage == Linkage::External
            &&& is_printf_type(m, m.funcs[c->Call_0 as int].ty)
            &&& c->Call_1.len() == 1
            &&& c->Call_1[0].op is Str
            &&& c->Call_1[0].op->Str_0 < m.strings.len()
            &&& m.strings[c->Call_1[0].op->Str_0 as int] == greeting@
        }),
{
    let mut cg = CodeGen::new();
    let main = match cg.declare_entry_point() {
        Ok(f) => f,
        Err(e) => return Err(e),
    };
    let entry = match cg.append_block(main) {
        Ok(b) => b,
        Err(e) => return Err(e),
    };
    match cg.position_at_end(main, entry) {
        Ok(()) => {},
        Err(e) => return Err(e),
    }
    let argc = match cg.param(0) {
        Ok(v) => v,
        Err(e) => return Err(e),
    };
    let ghost before = cg@;
    proof {
        assert(cg@.funcs.len() == 1);
        assert(entry_name()[0] != crate::codegen::printf_name()[0]);
        assert(cg@.funcs[0].name != crate::codegen::printf_name());
        assert(!crate::codegen::printf_conflict(cg@));
    }
    match cg.printf(greeting, &Vec::new()) {
        Ok(_) => {},
        Err(e) => return Err(e),
    }
    proof {
        let m = cg@;
        let t = before.funcs[0].ty;
        assert(m.funcs[0].ty == t);
        let n = before.types.len() as int;
        assert(m.types.subrange(0, n)[t as int] == m.types[t as int]);
        let p0 = before.types[t as int]->Func_0[0];
        let rt = before.types[t as int]->Func_1;
        assert(m.types.subrange(0, n)[p0 as int] == m.types[p0 as int]);
        assert(m.types.subrange(0, n)[rt as int] == m.types[rt as int]);
        assert(m.value_ok(0, argc));
        assert(p0 == rt);
        assert(m.funcs[0].blocks.len() == 1);
    }
    let ghost after_printf = cg@;
    match cg.build_ret(Some(argc)) {
        Ok(()) => {},
        Err(e) => return Err(e),
    }
    proof {
        let m = cg@;
        let c = after_printf.funcs[0].blocks[0].instrs.last();
        let g = c->Call_0 as int;
        assert(m.funcs[0].blocks[0].instrs == after_printf.funcs[0].blocks[0].instrs);
        assert(g != 0);
        assert(m.funcs[g] == after_printf.funcs[g]);
        assert(m.types == after_printf.types);
        assert(m.strings == after_printf.strings);
        assert forall|f: int, b: int|
            0 <= f < m.funcs.len() && 0 <= b < m.funcs[f].blocks.len() implies (
            #[trigger] m.funcs[f].blocks[b]).term is Some by {
            if f == 0 {
                assert(b == 0);
            } else {
                assert(m.funcs[f] == after_printf.funcs[f]);
                assert(after_printf.funcs[f].blocks.len() == 0);
            }
        }
    }
    match cg.finish() {
        Ok(vm) => Ok(vm),
        Err(_) => Err(ConstructionError::NoInsertionPoint),
    }
}

/// The name `sum`.
pub open spec fn sum_name() -> Seq<u8> {
    seq![115u8, 117u8, 109u8]
}

/// The function `sum(x, y, z) = x + y + z` over 64-bit integers, whose
/// additions wrap modulo 2^64. It is always built: `sum` is the module's
/// only function, and its one block adds the first two parameters, adds the
/// third to that, and returns the second sum.
pub fn sum_program() -> (r: Result<VerifiedModule, ConstructionError>)
    ensures
        r is Ok,
        r->Ok_0.inv(),
        r->Ok_0.module().funcs.len() == 1,
        r->Ok_0.module().funcs[0].name == sum_name(),
        r->Ok_0.module().funcs[0].blocks.len() == 1,
        ({
            let m = r->Ok_0.module();
            let t = m.types[m.funcs[0].ty as int];
            let w = m.types[t->Func_1 as int];
            let blk = m.funcs[0].blocks[0];
            &&& t is Func
            &&& t->Func_0 == seq![t->Func_1, t->Func_1, t->Func_1]
            &&& w == TypeSpec::Int(64)
            &&& !t->Func_2
            &&& blk.instrs.len() == 2
            &&& blk.instrs[0] == InstrSpec::Add(
                Value { ty: t->Func_1, op: Operand::Param(0) },
                Value { ty: t->Func_1, op: Operand::Param(1) },
            )
            &&& blk.instrs[1] == InstrSpec::Add(
                Value { ty: t->Func_1, op: Operand::Reg(0, 0) },
                Value { ty: t->Func_1, op: Operand::Param(2) },
            )
            &&& blk.term == Some(Terminator::Ret(Some(Value { ty: t->Func_1, op: Operand::Reg(0, 1) })))
        }),
{
    let mut cg = CodeGen::new();
    let wide = cg.int_type(64);
    let params = vec![wide, wide, wide];
    let ghost m0 = cg@;
    let ft = match cg.fn_type(&params, wide, false) {
        Ok(t) => t,
        Err(e) => {
            proof {
                assert(params@[0] == wide && params@[1] == wide && params@[2] == wide);
                assert(crate::codegen::type_closed(TypeSpec::Func(params@, wide, false), m0.types));
            }
            return Err(e);
        },
    };
    proof {
        assert(params@ =~= seq![wide, wide, wide]);
        let n = m0.types.len() as int;
        assert(cg@.types.subrange(0, n)[wide as int] == cg@.types[wide as int]) by {
            if !m0.types.contains(TypeSpec::Func(params@, wide, false)) {
                assert(cg@.types == m0.types.push(TypeSpec::Func(params@, wide, false)));
            }
        }
    }
    let name: Vec<u8> = vec![115u8, 117u8, 109u8];
    proof {
        assert(name@ =~= sum_name());
    }
    let f = match cg.declare_function(&name, ft, Linkage::Internal) {
        Ok(f) => f,
        Err(e) => return Err(e),
    };
    let entry = match cg.append_block(f) {
        Ok(b) => b,
        Err(e) => return Err(e),
    };
    match cg.position_at_end(f, entry) {
        Ok(()) => {},
        Err(e) => return Err(e),
    }
    let x = match cg.param(0) {
        Ok(v) => v,
        Err(e) => return Err(e),
    };
    let y = match cg.param(1) {
        Ok(v) => v,
        Err(e) => return Err(e),
    };
    let z = match cg.param(2) {
        Ok(v) => v,
        Err(e) => return Err(e),
    };
    let s = match cg.build_add(x, y) {
        Ok(v) => v,
        Err(e) => return Err(e),
    };
    proof {
        assert(cg@.value_ok(0, s));
        assert(cg@.value_ok(0, z));
    }
    let s = match cg.build_add(s, z) {
        Ok(v) => v,
        Err(e) => return Err(e),
    };
    proof {
        assert(cg@.value_ok(0, s));
    }
    match cg.build_ret(Some(s)) {
        Ok(()) => {},
        Err(e) => return Err(e),
    }
    proof {
        let m = cg@;
        assert forall|g: int, b: int|
            0 <= g < m.funcs.len() && 0 <= b < m.funcs[g].blocks.len() implies (
            #[trigger] m.funcs[g].blocks[b]).term is Some by {
            assert(g == 0 && b == 0);
        }
    }
    match cg.finish() {
        Ok(vm) => Ok(vm),
        Err(_) => Err(ConstructionError::NoInsertionPoint),
    }
}

} // verus!
