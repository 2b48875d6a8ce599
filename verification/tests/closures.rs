use abi_lowering::backend;
use abi_lowering::lower;
use abi_lowering::sig;
use abi_lowering::types::{LookupTable, Ty};
use cranelift::prelude::Configurable;

fn make_module() -> cranelift_object::ObjectModule {
    let mut b = cranelift::prelude::settings::builder();
    b.set("opt_level", "none").unwrap();
    b.enable("is_pic").unwrap();
    let flags = cranelift::prelude::settings::Flags::new(b);
    let isa = cranelift::prelude::isa::lookup_by_name("x86_64-unknown-linux")
        .unwrap()
        .finish(flags)
        .unwrap();
    let builder = cranelift_object::ObjectBuilder::new(
        isa,
        b"closure_test".to_vec(),
        cranelift_module::default_libcall_names(),
    )
    .unwrap();
    cranelift_object::ObjectModule::new(builder)
}

fn declare_body(module: &mut cranelift_object::ObjectModule, name: &str, n_params: usize) -> cranelift_module::FuncId {
    let mut sig = backend::signature_new(module);
    let mut k = 0;
    while k < n_params {
        backend::sig_push_param(&mut sig, 4);
        k += 1;
    }
    backend::sig_push_return(&mut sig, 4);
    backend::declare_function(module, name, false, &sig).unwrap()
}

// Two closures over the same erased signature but different capture sets:
// f0 captures one scalar, f1 captures two. Each gets its own boxed capture
// pointer and its own forwarding function, both are invoked through the
// same call shape, and the whole module compiles and emits.
#[test]
fn two_closures_with_different_captures_compile() {
    let mut module = make_module();
    let ptr_bytes = backend::pointer_bytes(&module);

    let mut t = LookupTable::new(ptr_bytes);
    let main_fn = t.add_function("main".to_string(), Vec::new(), Ty::Int).unwrap();
    let sig_main = sig::create_signature(&t, &module, main_fn);
    let main_id = backend::declare_function(&mut module, "main", true, &sig_main).unwrap();

    // fn f0(a: int, x: int) -> int { a + x + 1 }
    let f0_id = declare_body(&mut module, "f0_real_function", 2);
    // fn f1(a: int, b: int, x: int) -> int { a + x + b }
    let f1_id = declare_body(&mut module, "f1_real_function", 3);

    let mut ctx = backend::context_new();
    let mut fctx = backend::fb_context_new();

    // Define f0.
    {
        let (mut fb, _block, params) =
            sig::function_builder_from_declaration(&module, &mut ctx, &mut fctx, f0_id);
        let n = backend::emit_iadd(&mut fb, params[0], params[1]);
        let one = backend::emit_iconst(&mut fb, 4, 1);
        let n = backend::emit_iadd(&mut fb, n, one);
        backend::emit_return(&mut fb, &vec![n]);
        backend::fb_finalize(fb, &module);
        backend::define_function(&mut module, f0_id, &mut ctx).unwrap();
        backend::context_clear(&mut ctx);
    }

    // Define f1.
    {
        let (mut fb, _block, params) =
            sig::function_builder_from_declaration(&module, &mut ctx, &mut fctx, f1_id);
        let n = backend::emit_iadd(&mut fb, params[0], params[2]);
        let n = backend::emit_iadd(&mut fb, n, params[1]);
        backend::emit_return(&mut fb, &vec![n]);
        backend::fb_finalize(fb, &module);
        backend::define_function(&mut module, f1_id, &mut ctx).unwrap();
        backend::context_clear(&mut ctx);
    }

    // fn main() -> int {
    //   let a = 1; let b = 2; let x = 3;
    //   let f0 = |x| a + x + 1;
    //   let f1 = |x| a + x + b;
    //   return f0(x) + f1(x);   // 5 + 6
    // }
    {
        backend::func_clear(&mut ctx);
        let mut fb = backend::fb_new(&mut ctx, &mut fctx);
        backend::set_signature(&mut fb, &sig_main);
        let (entry, _none, _no_sret) = lower::create_entry_block(&t, &mut fb, &Vec::new());
        backend::switch_to_block(&mut fb, entry);

        let a = lower::int_const(&mut fb, 1).as_scalar();
        let b = lower::int_const(&mut fb, 2).as_scalar();
        let x = lower::int_const(&mut fb, 3).as_scalar();

        let c0 = abi_lowering::closure::construct_closure(
            &mut fb,
            &mut module,
            f0_id,
            0,
            ptr_bytes,
            &vec![4],
            &vec![a],
        )
        .unwrap();
        let c1 = abi_lowering::closure::construct_closure(
            &mut fb,
            &mut module,
            f1_id,
            1,
            ptr_bytes,
            &vec![4, 4],
            &vec![a, b],
        )
        .unwrap();

        let r0 = c0.call(&mut fb, &vec![x]);
        let r1 = c1.call(&mut fb, &vec![x]);
        assert_eq!(r0.len(), 1);
        assert_eq!(r1.len(), 1);
        let sum = backend::emit_iadd(&mut fb, r0[0], r1[0]);
        backend::emit_return(&mut fb, &vec![sum]);
        backend::fb_finalize(fb, &module);
        backend::define_function(&mut module, main_id, &mut ctx).unwrap();
    }

    let bytes = module.finish().emit().unwrap();
    assert!(!bytes.is_empty());
}

// A second closure over the same body function needs its own symbol key:
// two fresh keys give two forwarding functions, while reusing a key lands
// on the already-defined symbol and comes back as an error instead of
// overwriting it.
#[test]
fn forwarding_symbols_come_from_the_key() {
    let mut module = make_module();
    let ptr_bytes = backend::pointer_bytes(&module);
    let f0_id = declare_body(&mut module, "shared_body", 2);

    let first =
        abi_lowering::closure::create_forwarding_func(&mut module, f0_id, ptr_bytes, &vec![4], 7);
    assert!(first.is_ok());
    let fresh =
        abi_lowering::closure::create_forwarding_func(&mut module, f0_id, ptr_bytes, &vec![4], 8);
    assert!(fresh.is_ok());
    let reused =
        abi_lowering::closure::create_forwarding_func(&mut module, f0_id, ptr_bytes, &vec![4], 7);
    assert!(reused.is_err());
}
