use native_codegen::codegen::CodeGen;
use native_codegen::emission::VerificationError;
use native_codegen::ir::{ConstructionError, Instr, Linkage, Operand, Terminator, TypeKind, Value};

fn name(s: &str) -> Vec<u8> {
    s.as_bytes().to_vec()
}

/// A module with `f(x, y, z) = x + y + z` over 64-bit integers, the cursor
/// still in its entry block.
fn sum_module() -> (CodeGen, usize) {
    let mut cg = CodeGen::new();
    let i64t = cg.int_type(64);
    let ft = cg.fn_type(&vec![i64t, i64t, i64t], i64t, false).unwrap();
    let f = cg.declare_function(&name("sum"), ft, Linkage::Internal).unwrap();
    let entry = cg.append_block(f).unwrap();
    cg.position_at_end(f, entry).unwrap();
    let x = cg.param(0).unwrap();
    let y = cg.param(1).unwrap();
    let z = cg.param(2).unwrap();
    let s = cg.build_add(x, y).unwrap();
    let s = cg.build_add(s, z).unwrap();
    cg.build_ret(Some(s)).unwrap();
    (cg, f)
}

#[test]
fn type_constructors_are_memoized() {
    let mut cg = CodeGen::new();
    let a = cg.int_type(32);
    let b = cg.int_type(32);
    let c = cg.int_type(8);
    assert_eq!(a, b);
    assert_ne!(a, c);
    let p = cg.ptr_type(c).unwrap();
    let q = cg.char_ptr_type();
    assert_eq!(p, q);
    let f1 = cg.fn_type(&vec![q], a, true).unwrap();
    let f2 = cg.fn_type(&vec![q], a, true).unwrap();
    let f3 = cg.fn_type(&vec![q], a, false).unwrap();
    assert_eq!(f1, f2);
    assert_ne!(f1, f3);
    assert_eq!(cg.type_count(), 5);
    assert!(matches!(cg.type_kind(p), Some(TypeKind::Ptr(e)) if e == c));
}

#[test]
fn type_constructors_reject_bad_references() {
    let mut cg = CodeGen::new();
    let v = cg.void_type();
    assert_eq!(cg.ptr_type(v), Err(ConstructionError::TypeMismatch));
    assert_eq!(cg.ptr_type(42), Err(ConstructionError::Unknown));
    assert_eq!(cg.fn_type(&vec![v], v, false), Err(ConstructionError::TypeMismatch));
    assert_eq!(cg.fn_type(&vec![], 42, false), Err(ConstructionError::Unknown));
    let i = cg.int_type(16);
    let ft = cg.fn_type(&vec![i], v, false).unwrap();
    assert_eq!(cg.fn_type(&vec![], ft, false), Err(ConstructionError::TypeMismatch));
}

#[test]
fn intern_equal_content_gives_one_handle() {
    let mut cg = CodeGen::new();
    let a = cg.intern(&name("HI WORLD"));
    let b = cg.intern(&name("HI WORLD"));
    assert_eq!(a, b);
    assert_eq!(cg.string_count(), 1);
}

#[test]
fn intern_distinct_content_gives_distinct_handles() {
    let mut cg = CodeGen::new();
    let a = cg.intern(&name("ARGC %d"));
    let b = cg.intern(&name("ARGC %u"));
    let e = cg.intern(&vec![]);
    assert_ne!(a, b);
    assert_ne!(a, e);
    assert_eq!(cg.string_count(), 3);
    let Operand::Str(ka) = a.op else { panic!("not a string") };
    let Operand::Str(kb) = b.op else { panic!("not a string") };
    assert_eq!(cg.string_content(ka), Some(name("ARGC %d")));
    assert_eq!(cg.string_content(kb), Some(name("ARGC %u")));
    assert_eq!(cg.string_content(7), None);
    let cp = cg.char_ptr_type();
    assert_eq!(a.ty, cp);
}

#[test]
fn declare_external_twice_gives_same_function() {
    let mut cg = CodeGen::new();
    let cp = cg.char_ptr_type();
    let i32t = cg.int_type(32);
    let sig = cg.fn_type(&vec![cp], i32t, true).unwrap();
    let a = cg.declare_external(&name("puts"), sig).unwrap();
    let b = cg.declare_external(&name("puts"), sig).unwrap();
    assert_eq!(a, b);
    assert_eq!(cg.function_count(), 1);
    assert_eq!(cg.function_at(a).linkage, Linkage::External);
}

#[test]
fn declare_external_with_other_signature_conflicts() {
    let mut cg = CodeGen::new();
    let cp = cg.char_ptr_type();
    let i32t = cg.int_type(32);
    let sig = cg.fn_type(&vec![cp], i32t, true).unwrap();
    let other = cg.fn_type(&vec![cp], i32t, false).unwrap();
    cg.declare_external(&name("puts"), sig).unwrap();
    assert_eq!(cg.declare_external(&name("puts"), other), Err(ConstructionError::SignatureConflict));
    assert_eq!(cg.declare_external(&name("puts"), i32t), Err(ConstructionError::TypeMismatch));
    assert_eq!(cg.declare_external(&name("puts"), 99), Err(ConstructionError::Unknown));
    assert_eq!(cg.function_count(), 1);
}

#[test]
fn get_printf_is_idempotent() {
    let mut cg = CodeGen::new();
    let a = cg.get_printf().unwrap();
    let b = cg.get_printf().unwrap();
    assert_eq!(a, b);
    assert_eq!(cg.function_at(a).name, name("printf"));
    let t = cg.printf_type();
    assert_eq!(cg.function_at(a).ty, t);
}

#[test]
fn get_printf_conflicts_with_other_printf() {
    let mut cg = CodeGen::new();
    let v = cg.void_type();
    let ft = cg.fn_type(&vec![], v, false).unwrap();
    cg.declare_function(&name("printf"), ft, Linkage::Internal).unwrap();
    assert_eq!(cg.get_printf(), Err(ConstructionError::SignatureConflict));
}

#[test]
fn add_builds_register_of_operand_type() {
    let (cg, f) = sum_module();
    let blk = cg.block_at(f, 0);
    assert_eq!(blk.instrs.len(), 2);
    assert!(matches!(blk.term, Some(Terminator::Ret(Some(Value { op: Operand::Reg(0, 1), .. })))));
    assert!(cg.verify().is_ok());
}

#[test]
fn add_rejects_mixed_widths() {
    let mut cg = CodeGen::new();
    let i32t = cg.int_type(32);
    let i64t = cg.int_type(64);
    let ft = cg.fn_type(&vec![i32t, i64t], i32t, false).unwrap();
    let f = cg.declare_function(&name("mix"), ft, Linkage::Internal).unwrap();
    let b = cg.append_block(f).unwrap();
    cg.position_at_end(f, b).unwrap();
    let x = cg.param(0).unwrap();
    let y = cg.param(1).unwrap();
    assert_eq!(cg.build_add(x, y), Err(ConstructionError::TypeMismatch));
    assert_eq!(cg.param(2), Err(ConstructionError::Unknown));
    let forged = Value { ty: i32t, op: Operand::Reg(0, 5) };
    assert_eq!(cg.build_add(x, forged), Err(ConstructionError::Unknown));
    let c = cg.const_int(i32t, 7).unwrap();
    let s = cg.build_add(x, c).unwrap();
    assert_eq!(s, Value { ty: i32t, op: Operand::Reg(0, 0) });
}

#[test]
fn const_int_needs_integer_type() {
    let mut cg = CodeGen::new();
    let v = cg.void_type();
    let i8t = cg.int_type(8);
    assert_eq!(cg.const_int(v, 1), Err(ConstructionError::TypeMismatch));
    assert_eq!(cg.const_int(9, 1), Err(ConstructionError::Unknown));
    assert_eq!(cg.const_int(i8t, 300), Ok(Value { ty: i8t, op: Operand::Const(300) }));
}

#[test]
fn builder_needs_an_open_block() {
    let mut cg = CodeGen::new();
    let i32t = cg.int_type(32);
    let c = cg.const_int(i32t, 1).unwrap();
    assert_eq!(cg.build_add(c, c), Err(ConstructionError::NoInsertionPoint));
    assert_eq!(cg.build_ret(None), Err(ConstructionError::NoInsertionPoint));
    assert_eq!(cg.param(0), Err(ConstructionError::NoInsertionPoint));
    let (mut cg, _) = sum_module();
    let i64t = cg.int_type(64);
    let one = cg.const_int(i64t, 1).unwrap();
    assert_eq!(cg.build_add(one, one), Err(ConstructionError::NoInsertionPoint));
}

#[test]
fn ret_checks_the_declared_result() {
    let mut cg = CodeGen::new();
    let i32t = cg.int_type(32);
    let i64t = cg.int_type(64);
    let ft = cg.fn_type(&vec![i64t], i32t, false).unwrap();
    let f = cg.declare_function(&name("g"), ft, Linkage::Internal).unwrap();
    let b = cg.append_block(f).unwrap();
    cg.position_at_end(f, b).unwrap();
    let x = cg.param(0).unwrap();
    assert_eq!(cg.build_ret(Some(x)), Err(ConstructionError::TypeMismatch));
    assert_eq!(cg.build_ret(None), Err(ConstructionError::TypeMismatch));
    let z = cg.const_int(i32t, 0).unwrap();
    assert_eq!(cg.build_ret(Some(z)), Ok(()));
}

#[test]
fn load_needs_pointer_to_the_loaded_type() {
    let mut cg = CodeGen::new();
    let i8t = cg.int_type(8);
    let i32t = cg.int_type(32);
    let cp = cg.char_ptr_type();
    let ft = cg.fn_type(&vec![cp], i8t, false).unwrap();
    let f = cg.declare_function(&name("first"), ft, Linkage::Internal).unwrap();
    let b = cg.append_block(f).unwrap();
    cg.position_at_end(f, b).unwrap();
    let p = cg.param(0).unwrap();
    assert_eq!(cg.build_load(p, i32t), Err(ConstructionError::TypeMismatch));
    let v = cg.build_load(p, i8t).unwrap();
    assert_eq!(v.ty, i8t);
    assert!(matches!(cg.block_at(f, b).instrs[0], Instr::Load(q, t) if q == p && t == i8t));
}

#[test]
fn call_checks_arity_and_types() {
    let mut cg = CodeGen::new();
    let i32t = cg.int_type(32);
    let i64t = cg.int_type(64);
    let ft = cg.fn_type(&vec![i32t], i32t, false).unwrap();
    let callee = cg.declare_external(&name("abs"), ft).unwrap();
    let mt = cg.fn_type(&vec![], i32t, false).unwrap();
    let f = cg.declare_function(&name("caller"), mt, Linkage::Internal).unwrap();
    let b = cg.append_block(f).unwrap();
    cg.position_at_end(f, b).unwrap();
    let a = cg.const_int(i32t, 5).unwrap();
    let wide = cg.const_int(i64t, 5).unwrap();
    assert_eq!(cg.build_call(callee, &vec![]), Err(ConstructionError::Arity));
    assert_eq!(cg.build_call(callee, &vec![a, a]), Err(ConstructionError::Arity));
    assert_eq!(cg.build_call(callee, &vec![wide]), Err(ConstructionError::TypeMismatch));
    assert_eq!(cg.build_call(17, &vec![a]), Err(ConstructionError::Unknown));
    let r = cg.build_call(callee, &vec![a]).unwrap();
    assert_eq!(r, Value { ty: i32t, op: Operand::Reg(0, 0) });
}

#[test]
fn variadic_call_widens_narrow_integers() {
    let mut cg = CodeGen::new();
    let i8t = cg.int_type(8);
    let i32t = cg.int_type(32);
    let i64t = cg.int_type(64);
    let mt = cg.fn_type(&vec![], i32t, false).unwrap();
    let f = cg.declare_function(&name("main"), mt, Linkage::Internal).unwrap();
    let b = cg.append_block(f).unwrap();
    cg.position_at_end(f, b).unwrap();
    let small = cg.const_int(i8t, 65).unwrap();
    let big = cg.const_int(i64t, 1).unwrap();
    let r = cg.printf(&name("%c %ld\n"), &vec![small, big]).unwrap();
    assert_eq!(r.ty, i32t);
    let blk = cg.block_at(f, b);
    assert_eq!(blk.instrs.len(), 2);
    assert!(matches!(blk.instrs[0], Instr::ZExt(v, t) if v == small && t == i32t));
    match &blk.instrs[1] {
        Instr::Call(_, args) => {
            assert_eq!(args.len(), 3);
            assert!(matches!(args[0].op, Operand::Str(_)));
            assert_eq!(args[1], Value { ty: i32t, op: Operand::Reg(0, 0) });
            assert_eq!(args[2], big);
        },
        _ => panic!("not a call"),
    }
}

#[test]
fn printf_ignores_mismatched_specifiers() {
    let mut cg = CodeGen::new();
    let i32t = cg.int_type(32);
    let mt = cg.fn_type(&vec![], i32t, false).unwrap();
    let f = cg.declare_function(&name("main"), mt, Linkage::Internal).unwrap();
    let b = cg.append_block(f).unwrap();
    cg.position_at_end(f, b).unwrap();
    let n = cg.const_int(i32t, 3).unwrap();
    let s = cg.intern(&name("WORLD"));
    assert!(cg.printf(&name("%s %s %f"), &vec![n, s]).is_ok());
    assert!(cg.printf(&name("ARGC %d. ARGV[0]='%s'"), &vec![n, s]).is_ok());
    assert_eq!(cg.function_count(), 2);
}

#[test]
fn branch_targets_must_exist() {
    let mut cg = CodeGen::new();
    let v = cg.void_type();
    let ft = cg.fn_type(&vec![], v, false).unwrap();
    let f = cg.declare_function(&name("my_fn"), ft, Linkage::Internal).unwrap();
    let b0 = cg.append_block(f).unwrap();
    let b1 = cg.append_block(f).unwrap();
    cg.position_at_end(f, b0).unwrap();
    assert_eq!(cg.build_br(5), Err(ConstructionError::Unknown));
    assert_eq!(cg.build_br(b1), Ok(()));
    cg.position_at_end(f, b1).unwrap();
    assert_eq!(cg.build_ret(None), Ok(()));
    assert!(cg.verify().is_ok());
}

#[test]
fn declarations_take_no_blocks() {
    let mut cg = CodeGen::new();
    let p = cg.get_printf().unwrap();
    assert_eq!(cg.append_block(p), Err(ConstructionError::DeclarationOnly));
    assert_eq!(cg.append_block(3), Err(ConstructionError::Unknown));
    assert_eq!(cg.position_at_end(p, 0), Err(ConstructionError::Unknown));
}

#[test]
fn unfinished_block_fails_verification() {
    let mut cg = CodeGen::new();
    let v = cg.void_type();
    let ft = cg.fn_type(&vec![], v, false).unwrap();
    let f = cg.declare_function(&name("my_fn"), ft, Linkage::Internal).unwrap();
    let b0 = cg.append_block(f).unwrap();
    let b1 = cg.append_block(f).unwrap();
    cg.position_at_end(f, b0).unwrap();
    cg.build_br(b1).unwrap();
    assert_eq!(cg.verify(), Err(VerificationError { func: f, block: b1 }));
    match cg.finish() {
        Err(e) => assert_eq!(e, VerificationError { func: f, block: b1 }),
        Ok(_) => panic!("an unfinished block passed verification"),
    }
}

#[test]
fn get_printf_conflict_changes_nothing() {
    let mut cg = CodeGen::new();
    let v = cg.void_type();
    let ft = cg.fn_type(&vec![], v, false).unwrap();
    cg.declare_function(&name("printf"), ft, Linkage::Internal).unwrap();
    let types = cg.type_count();
    assert_eq!(cg.get_printf(), Err(ConstructionError::SignatureConflict));
    assert_eq!(cg.type_count(), types);
    assert_eq!(cg.function_count(), 1);
}

#[test]
fn printf_defined_here_is_a_conflict() {
    let mut cg = CodeGen::new();
    let t = cg.printf_type();
    cg.declare_function(&name("printf"), t, Linkage::Internal).unwrap();
    assert_eq!(cg.get_printf(), Err(ConstructionError::SignatureConflict));
}

#[test]
fn printf_reuses_known_format() {
    let mut cg = CodeGen::new();
    let i32t = cg.int_type(32);
    let mt = cg.fn_type(&vec![], i32t, false).unwrap();
    let f = cg.declare_function(&name("main"), mt, Linkage::Internal).unwrap();
    let b = cg.append_block(f).unwrap();
    cg.position_at_end(f, b).unwrap();
    let r1 = cg.printf(&name("%d\n"), &vec![]).unwrap();
    let r2 = cg.printf(&name("%d\n"), &vec![]).unwrap();
    let r3 = cg.printf(&name("%u\n"), &vec![]).unwrap();
    assert_eq!(cg.string_count(), 2);
    assert_eq!(cg.function_count(), 2);
    assert_eq!(r1.ty, i32t);
    assert_eq!(r1.op, Operand::Reg(0, 0));
    assert_eq!(r2.op, Operand::Reg(0, 1));
    assert_eq!(r3.op, Operand::Reg(0, 2));
    let p = cg.get_printf().unwrap();
    assert_eq!(cg.function_at(p).linkage, Linkage::External);
    assert_eq!(cg.block_count(p), 0);
}

#[test]
fn pointers_to_functions_are_refused() {
    let mut cg = CodeGen::new();
    let v = cg.void_type();
    let ft = cg.fn_type(&vec![], v, false).unwrap();
    assert_eq!(cg.ptr_type(ft), Err(ConstructionError::TypeMismatch));
}
