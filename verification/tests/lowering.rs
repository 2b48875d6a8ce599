use abi_lowering::backend;
use abi_lowering::lower;
use abi_lowering::sig;
use abi_lowering::types::{FieldDef, LookupTable, Ty};
use abi_lowering::value::VirtualValue;
use cranelift::prelude::Configurable;

fn make_module() -> cranelift_object::ObjectModule {
    let mut b = cranelift::prelude::settings::builder();
    b.set("opt_level", "none").unwrap();
    b.enable("is_pic").unwrap();
    let flags = cranelift::prelude::settings::Flags::new(b);
    let isa = cranelift::prelude::isa::lookup_by_name("x86_64-unknown-linux")
        .unwrap()
        .finish(flags)
        .unwrap();
    let builder = cranelift_object::ObjectBuilder::new(
        isa,
        b"unit_test".to_vec(),
        cranelift_module::default_libcall_names(),
    )
    .unwrap();
    cranelift_object::ObjectModule::new(builder)
}

fn int_field(name: &str) -> FieldDef {
    FieldDef { name: name.to_string(), ty: Ty::Int }
}

fn player_table(ptr_bytes: u32) -> (LookupTable, usize, usize, usize, usize) {
    let mut t = LookupTable::new(ptr_bytes);
    let point = t
        .add_aggregate("Point".to_string(), vec![int_field("x"), int_field("y")])
        .unwrap();
    let player = t
        .add_aggregate(
            "Player".to_string(),
            vec![
                int_field("id"),
                FieldDef { name: "position".to_string(), ty: Ty::Struct(point) },
            ],
        )
        .unwrap();
    let main_fn = t.add_function("main".to_string(), Vec::new(), Ty::Int).unwrap();
    let move_right = t
        .add_function(
            "move_right".to_string(),
            vec![Ty::Struct(player), Ty::Int],
            Ty::Struct(player),
        )
        .unwrap();
    (t, point, player, main_fn, move_right)
}

// The end-to-end scenario: a two-field aggregate nested in another, and a
// function that increments one nested field and copies the rest, invoked
// across a by-pointer call boundary, all lowered through the library and
// handed to the backend, which compiles and emits it.
#[test]
fn move_right_compiles_end_to_end() {
    let mut module = make_module();
    let ptr_bytes = backend::pointer_bytes(&module);
    let (t, point, player, main_fn, move_right) = player_table(ptr_bytes);

    let sig_main = sig::create_signature(&t, &module, main_fn);
    let main_id = backend::declare_function(&mut module, "main", true, &sig_main).unwrap();
    let sig_mr = sig::create_signature(&t, &module, move_right);
    let mr_id = backend::declare_function(&mut module, "move_right", true, &sig_mr).unwrap();
    let declared = lower::DeclaredFuncs { ids: vec![main_id, mr_id] };

    let mut ctx = backend::context_new();
    let mut fctx = backend::fb_context_new();

    // fn move_right(p: Player, by: int) -> Player {
    //   Player { id: p.id, position: Point { x: p.position.x + by, y: p.position.y } }
    // }
    {
        backend::func_clear(&mut ctx);
        let mut fb = backend::fb_new(&mut ctx, &mut fctx);
        backend::set_signature(&mut fb, &sig_mr);
        let (entry, vparams, sret) =
            lower::create_entry_block(&t, &mut fb, &vec![Ty::Struct(player), Ty::Int]);
        backend::switch_to_block(&mut fb, entry);

        let id_val = lower::destruct_field(&t, &mut fb, &vparams[0], 0);
        let pos = lower::destruct_field(&t, &mut fb, &vparams[0], 1);
        let x = lower::destruct_field(&t, &mut fb, &pos, 0);
        let sum = lower::int_add(&mut fb, &x, &vparams[1]);
        let y = lower::destruct_field(&t, &mut fb, &pos, 1);

        let new_pos = lower::construct_struct(
            &t,
            point,
            &vec![("x".to_string(), sum), ("y".to_string(), y)],
        )
        .unwrap();
        let new_player = lower::construct_struct(
            &t,
            player,
            &vec![
                ("position".to_string(), new_pos),
                ("id".to_string(), id_val),
            ],
        )
        .unwrap();
        lower::return_(&t, &mut fb, &new_player, Ty::Struct(player), sret);
        backend::fb_finalize(fb, &module);
        sig::finish_function(&mut module, mr_id, &mut ctx).unwrap();
    }

    // fn main() -> int {
    //   move_right(Player { id: 5, position: Point { x: 10, y: 20 } }, 2);
    //   return 0;
    // }
    {
        backend::func_clear(&mut ctx);
        let mut fb = backend::fb_new(&mut ctx, &mut fctx);
        backend::set_signature(&mut fb, &sig_main);
        let (entry, _none, _no_sret) = lower::create_entry_block(&t, &mut fb, &Vec::new());
        backend::switch_to_block(&mut fb, entry);

        let five = lower::int_const(&mut fb, 5);
        let ten = lower::int_const(&mut fb, 10);
        let twenty = lower::int_const(&mut fb, 20);
        let pos = lower::construct_struct(
            &t,
            point,
            &vec![("x".to_string(), ten), ("y".to_string(), twenty)],
        )
        .unwrap();
        let player_v = lower::construct_struct(
            &t,
            player,
            &vec![("id".to_string(), five), ("position".to_string(), pos)],
        )
        .unwrap();
        let two = lower::int_const(&mut fb, 2);

        let moved = lower::call_func(
            &t,
            &mut fb,
            &mut module,
            &declared,
            move_right,
            &vec![player_v, two],
        )
        .unwrap();
        // A by-pointer return comes back as caller-owned memory.
        assert!(matches!(moved, VirtualValue::StackAggregate { .. }));

        let zero = lower::int_const(&mut fb, 0);
        lower::return_(&t, &mut fb, &zero, Ty::Int, None);
        backend::fb_finalize(fb, &module);
        backend::define_function(&mut module, main_id, &mut ctx).unwrap();
    }

    let product = module.finish();
    let bytes = product.emit().unwrap();
    assert!(!bytes.is_empty());
}

// The lowered signatures really carry what the contracts say: a by-pointer
// return becomes a leading struct-return pointer parameter, a by-pointer
// aggregate parameter becomes one pointer, and a scalar return stays a
// plain return.
#[test]
fn lowered_signatures_match_the_passing_modes() {
    let module = make_module();
    let ptr_bytes = backend::pointer_bytes(&module);
    let (t, _point, _player, main_fn, move_right) = player_table(ptr_bytes);

    let sig_main = sig::create_signature(&t, &module, main_fn);
    assert_eq!(sig_main.params.len(), 0);
    assert_eq!(sig_main.returns.len(), 1);
    assert!(!sig_main.uses_struct_return_param());

    // move_right(Player, int) -> Player: Player passes and returns by
    // pointer, so the backend sees (sret-pointer, pointer, i32) -> ().
    let sig_mr = sig::create_signature(&t, &module, move_right);
    assert_eq!(sig_mr.params.len(), 3);
    assert_eq!(sig_mr.returns.len(), 0);
    assert!(sig_mr.uses_struct_return_param());
    assert_eq!(
        sig_mr.params[0].purpose,
        cranelift::codegen::ir::ArgumentPurpose::StructReturn
    );
    assert_eq!(sig_mr.params[0].value_type.bytes(), ptr_bytes);
    assert_eq!(sig_mr.params[1].value_type.bytes(), ptr_bytes);
    assert_eq!(sig_mr.params[2].value_type.bytes(), 4);
}

// Destructuring an uncommitted aggregate hands the bound values back.
#[test]
fn construct_then_destruct_round_trips() {
    let mut module = make_module();
    let ptr_bytes = backend::pointer_bytes(&module);
    let (t, point, _player, main_fn, _mr) = player_table(ptr_bytes);

    let sig_main = sig::create_signature(&t, &module, main_fn);
    let main_id = backend::declare_function(&mut module, "main", true, &sig_main).unwrap();

    let mut ctx = backend::context_new();
    let mut fctx = backend::fb_context_new();
    backend::func_clear(&mut ctx);
    let mut fb = backend::fb_new(&mut ctx, &mut fctx);
    backend::set_signature(&mut fb, &sig_main);
    let (entry, _none, _no_sret) = lower::create_entry_block(&t, &mut fb, &Vec::new());
    backend::switch_to_block(&mut fb, entry);

    let ten = lower::int_const(&mut fb, 10);
    let twenty = lower::int_const(&mut fb, 20);
    let ten_scalar = ten.as_scalar();
    let twenty_scalar = twenty.as_scalar();
    let pos = lower::construct_struct(
        &t,
        point,
        &vec![("y".to_string(), twenty), ("x".to_string(), ten)],
    )
    .unwrap();
    // Order-independent lookup by name: field 0 is x, field 1 is y.
    let x_back = lower::destruct_field(&t, &mut fb, &pos, 0);
    let y_back = lower::destruct_field(&t, &mut fb, &pos, 1);
    assert_eq!(x_back.as_scalar(), ten_scalar);
    assert_eq!(y_back.as_scalar(), twenty_scalar);

    // A missing field refuses construction.
    assert!(lower::construct_struct(&t, point, &vec![("x".to_string(), x_back)]).is_none());

    let zero = lower::int_const(&mut fb, 0);
    lower::return_(&t, &mut fb, &zero, Ty::Int, None);
    backend::fb_finalize(fb, &module);
    backend::define_function(&mut module, main_id, &mut ctx).unwrap();
}
