use abi_lowering::backend;
use abi_lowering::lower;
use abi_lowering::sig;
use abi_lowering::types::{LookupTable, Ty};
use abi_lowering::union::{self, PayloadKind, UnionDef, VariantDef};
use cranelift::prelude::Configurable;

fn make_module() -> cranelift_object::ObjectModule {
    let mut b = cranelift::prelude::settings::builder();
    b.set("opt_level", "none").unwrap();
    b.enable("is_pic").unwrap();
    let flags = cranelift::prelude::settings::Flags::new(b);
    let isa = cranelift::prelude::isa::lookup_by_name("x86_64-unknown-linux")
        .unwrap()
        .finish(flags)
        .unwrap();
    let builder = cranelift_object::ObjectBuilder::new(
        isa,
        b"union_test".to_vec(),
        cranelift_module::default_libcall_names(),
    )
    .unwrap();
    cranelift_object::ObjectModule::new(builder)
}

#[test]
fn payload_encoding_covers_the_four_cases() {
    // Zero fields: a zero constant keeps every variant the same size.
    assert_eq!(union::payload_kind(8, &Vec::new()), PayloadKind::Zero);
    // One field narrower than a pointer: inlined with a cast.
    assert_eq!(union::payload_kind(8, &vec![4]), PayloadKind::InlineCasted(4));
    assert_eq!(union::payload_kind(8, &vec![2]), PayloadKind::InlineCasted(2));
    // One field exactly pointer-wide: inlined verbatim.
    assert_eq!(union::payload_kind(8, &vec![8]), PayloadKind::Inline);
    // Wider than a pointer, or several fields: behind a stack pointer.
    assert_eq!(union::payload_kind(4, &vec![8]), PayloadKind::StackPointer);
    assert_eq!(union::payload_kind(8, &vec![4, 4, 4]), PayloadKind::StackPointer);
}

#[test]
fn payload_kind_is_rederived_identically() {
    let widths: Vec<u32> = vec![4, 4, 4];
    let at_construction = union::payload_kind(8, &widths);
    let at_match = union::payload_kind(8, &widths);
    assert_eq!(at_construction, at_match);
}

#[test]
fn indirect_payload_offsets_are_cumulative() {
    let widths: Vec<u32> = vec![4, 4, 4];
    assert_eq!(union::payload_offset(&widths, 0), 0);
    assert_eq!(union::payload_offset(&widths, 1), 4);
    assert_eq!(union::payload_offset(&widths, 2), 8);
    assert_eq!(union::payload_offset(&widths, 3), 12);
    let mixed: Vec<u32> = vec![2, 8, 1];
    assert_eq!(union::payload_offset(&mixed, 1), 2);
    assert_eq!(union::payload_offset(&mixed, 2), 10);
    assert_eq!(union::payload_offset(&mixed, 3), 11);
}

// A three-variant union — no payload, an indirect three-field payload, and
// an inline-casted one-field payload — constructed and exhaustively
// dispatched, with each branch reading its payload back via the same
// encoding derived from the same declared variant, compiles and emits.
#[test]
fn tagged_union_match_compiles_end_to_end() {
    let mut module = make_module();
    let ptr_bytes = backend::pointer_bytes(&module);

    let mut t = LookupTable::new(ptr_bytes);
    let main_fn = t.add_function("main".to_string(), Vec::new(), Ty::Int).unwrap();
    let sig_main = sig::create_signature(&t, &module, main_fn);
    let main_id = backend::declare_function(&mut module, "main", true, &sig_main).unwrap();

    let packet = UnionDef {
        name: "Packet".to_string(),
        variants: vec![
            VariantDef { name: "Pending".to_string(), fields: Vec::new() },
            VariantDef { name: "Data".to_string(), fields: vec![4, 4, 4] },
            VariantDef { name: "Failed".to_string(), fields: vec![4] },
        ],
    };

    let mut ctx = backend::context_new();
    let mut fctx = backend::fb_context_new();
    backend::func_clear(&mut ctx);
    let mut fb = backend::fb_new(&mut ctx, &mut fctx);
    backend::set_signature(&mut fb, &sig_main);
    let (entry, _none, _no_sret) = lower::create_entry_block(&t, &mut fb, &Vec::new());
    backend::switch_to_block(&mut fb, entry);

    let ten = lower::int_const(&mut fb, 10).as_scalar();
    let twenty = lower::int_const(&mut fb, 20).as_scalar();
    let thirty = lower::int_const(&mut fb, 30).as_scalar();
    let (tag, payload) =
        union::construct_union_variant(&mut fb, ptr_bytes, &packet, 1, &vec![ten, twenty, thirty]);

    // All variants of one union share the (tag, payload) shape.
    let _pending = union::construct_union_variant(&mut fb, ptr_bytes, &packet, 0, &Vec::new());
    let hundred = lower::int_const(&mut fb, 100).as_scalar();
    let _failed = union::construct_union_variant(&mut fb, ptr_bytes, &packet, 2, &vec![hundred]);

    let (branches, default) = union::lower_union_dispatch(&mut fb, packet.variants.len(), tag);

    // Pending => return 10
    union::switch_to_branch_block(&mut fb, branches[0]);
    let vals = union::read_union_variant(&mut fb, ptr_bytes, &packet, 0, payload);
    assert_eq!(vals.len(), 0);
    let ten2 = lower::int_const(&mut fb, 10).as_scalar();
    backend::emit_return(&mut fb, &vec![ten2]);

    // Data(x, y, z) => return x + y + z
    union::switch_to_branch_block(&mut fb, branches[1]);
    let vals = union::read_union_variant(&mut fb, ptr_bytes, &packet, 1, payload);
    assert_eq!(vals.len(), 3);
    let s1 = backend::emit_iadd(&mut fb, vals[0], vals[1]);
    let s2 = backend::emit_iadd(&mut fb, s1, vals[2]);
    backend::emit_return(&mut fb, &vec![s2]);

    // Failed(code) => return code
    union::switch_to_branch_block(&mut fb, branches[2]);
    let vals = union::read_union_variant(&mut fb, ptr_bytes, &packet, 2, payload);
    assert_eq!(vals.len(), 1);
    backend::emit_return(&mut fb, &vec![vals[0]]);

    // An impossible tag traps.
    union::define_trap_block(&mut fb, default);

    backend::fb_finalize(fb, &module);
    backend::define_function(&mut module, main_id, &mut ctx).unwrap();

    let bytes = module.finish().emit().unwrap();
    assert!(!bytes.is_empty());
}
