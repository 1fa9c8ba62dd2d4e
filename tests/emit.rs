use inkwell::context::Context;
use native_codegen::backend::{emit_object, lower_into, select_target, EmitError};
use native_codegen::codegen::CodeGen;
use native_codegen::ir::Linkage;
use native_codegen::program::{greeting_program, sum_program};

fn name(s: &str) -> Vec<u8> {
    s.as_bytes().to_vec()
}

/// An entry point `main(argc, argv)` that prints a greeting and returns its
/// argument count.
fn entry_module() -> CodeGen {
    let mut cg = CodeGen::new();
    let i32t = cg.int_type(32);
    let cp = cg.char_ptr_type();
    let argv = cg.ptr_type(cp).unwrap();
    let mt = cg.fn_type(&vec![i32t, argv], i32t, false).unwrap();
    let main = cg.declare_function(&name("main"), mt, Linkage::Internal).unwrap();
    let entry = cg.append_block(main).unwrap();
    cg.position_at_end(main, entry).unwrap();
    let argc = cg.param(0).unwrap();
    cg.printf(&name("HI WORLD\n"), &vec![]).unwrap();
    cg.build_ret(Some(argc)).unwrap();
    cg
}

#[test]
fn host_target_is_selected() {
    let t = select_target(None).unwrap();
    assert!(!t.triple.is_empty());
    assert_eq!(t.cpu, "generic");
    assert_eq!(t.features, "");
}

#[test]
fn unknown_triple_is_unsupported() {
    let r = select_target(Some("nonexistent-cpu-unknown-nowhere".to_string()));
    assert_eq!(r.err(), Some(EmitError::UnsupportedTarget));
}

#[test]
fn entry_point_emits_an_object() {
    let vm = match entry_module().finish() {
        Ok(vm) => vm,
        Err(e) => panic!("verification failed: {:?}", e),
    };
    let t = select_target(None).unwrap();
    let bytes = emit_object(&vm, &t).unwrap();
    assert!(bytes.len() > 4);
    if t.triple.contains("linux") {
        assert_eq!(&bytes[0..4], &[0x7f, b'E', b'L', b'F']);
    }
}

#[test]
fn lowered_sum_adds_and_returns() {
    let mut cg = CodeGen::new();
    let i64t = cg.int_type(64);
    let ft = cg.fn_type(&vec![i64t, i64t, i64t], i64t, false).unwrap();
    let f = cg.declare_function(&name("sum"), ft, Linkage::Internal).unwrap();
    let entry = cg.append_block(f).unwrap();
    cg.position_at_end(f, entry).unwrap();
    let x = cg.param(0).unwrap();
    let y = cg.param(1).unwrap();
    let z = cg.param(2).unwrap();
    let s = cg.build_add(x, y).unwrap();
    let s = cg.build_add(s, z).unwrap();
    cg.build_ret(Some(s)).unwrap();
    let vm = match cg.finish() {
        Ok(vm) => vm,
        Err(e) => panic!("verification failed: {:?}", e),
    };
    let c = Context::create();
    let m = lower_into(&vm, &c).unwrap();
    assert!(m.verify().is_ok());
    let ir = m.print_to_string().to_string();
    assert!(ir.contains("define i64 @sum(i64 %0, i64 %1, i64 %2)"));
    assert_eq!(ir.matches("add i64").count(), 2);
    assert!(ir.contains("ret i64"));
}

#[test]
fn lowered_strings_end_in_zero_byte() {
    let cg = entry_module();
    let vm = match cg.finish() {
        Ok(vm) => vm,
        Err(e) => panic!("verification failed: {:?}", e),
    };
    let c = Context::create();
    let m = lower_into(&vm, &c).unwrap();
    assert!(m.verify().is_ok());
    let ir = m.print_to_string().to_string();
    assert!(ir.contains("c\"HI WORLD\\0A\\00\""));
    assert!(ir.contains("declare i32 @printf(i8*, ...)"));
    assert!(ir.contains("define i32 @main(i32 %0, i8** %1)"));
}

#[test]
fn zero_byte_in_string_is_refused() {
    let mut cg = CodeGen::new();
    let i32t = cg.int_type(32);
    let mt = cg.fn_type(&vec![], i32t, false).unwrap();
    let main = cg.declare_function(&name("main"), mt, Linkage::Internal).unwrap();
    let entry = cg.append_block(main).unwrap();
    cg.position_at_end(main, entry).unwrap();
    cg.printf(&vec![b'a', 0, b'b'], &vec![]).unwrap();
    let z = cg.const_int(i32t, 0).unwrap();
    cg.build_ret(Some(z)).unwrap();
    let vm = match cg.finish() {
        Ok(vm) => vm,
        Err(e) => panic!("verification failed: {:?}", e),
    };
    let c = Context::create();
    assert_eq!(lower_into(&vm, &c).err(), Some(EmitError::UnsupportedText));
}

#[test]
fn greeting_program_returns_its_argument_count() {
    let vm = match greeting_program(&name("HI WORLD\n")) {
        Ok(vm) => vm,
        Err(e) => panic!("construction failed: {:?}", e),
    };
    let c = Context::create();
    let m = lower_into(&vm, &c).unwrap();
    let ir = m.print_to_string().to_string();
    assert!(ir.contains("define i32 @main(i32 %0, i8** %1)"));
    assert!(ir.contains("ret i32 %0"));
    assert!(ir.contains("call i32 (i8*, ...) @printf("));
    let t = select_target(None).unwrap();
    assert!(emit_object(&vm, &t).unwrap().len() > 4);
}

#[test]
fn sum_program_adds_three_words() {
    let vm = match sum_program() {
        Ok(vm) => vm,
        Err(e) => panic!("construction failed: {:?}", e),
    };
    let c = Context::create();
    let m = lower_into(&vm, &c).unwrap();
    assert!(m.verify().is_ok());
    let ir = m.print_to_string().to_string();
    assert!(ir.contains("define i64 @sum(i64 %0, i64 %1, i64 %2)"));
    assert!(ir.contains("add i64 %0, %1"));
    assert_eq!(ir.matches("add i64").count(), 2);
}

#[test]
fn triple_override_is_kept() {
    let host = select_target(None).unwrap().triple;
    let t = select_target(Some(host.clone())).unwrap();
    assert_eq!(t.triple, host);
}
