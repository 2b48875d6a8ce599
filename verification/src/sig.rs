//! Signature lowering: how a declared function's parameter and return
//! types become the backend's primitive parameter and return lists. A
//! by-pointer return becomes an implicit leading pointer parameter marked
//! as the struct-return argument; a by-pointer parameter becomes a single
//! pointer parameter; everything else is flattened, one primitive per leaf
//! scalar.

use vstd::prelude::*;
use crate::types::{
    LookupTable, Mode, Ty, flat_widths, lemma_flat_widths_int, spec_mode, table_wf, ty_valid,
    valid_width, INT_BYTES,
};
use crate::backend::{
    append_entry_params, create_block, declare_function, fb_complete, fb_emittable, fb_new,
    fb_params, fb_ready, fbctx_clean, func_clear, func_id_index, module_decl_name,
    module_decl_params, module_decl_returns, module_func_count, module_preserved, seal_block,
    set_signature, sig_params_model, sig_push_param, sig_push_return, sig_push_sret_param,
    sig_returns_model, signature_from_decl, signature_new, switch_to_block, valid_func_id,
};

verus! {

/// A width list as ordinary (non-struct-return) parameter entries.
pub open spec fn widths_as_params(ws: Seq<u32>, k: int) -> Seq<(u32, bool)>
    decreases ws.len() - k,
{
    if 0 <= k < ws.len() {
        seq![(ws[k], false)] + widths_as_params(ws, k + 1)
    } else {
        seq![]
    }
}

/// The lowered parameter entries of one declared parameter type: its
/// flattened scalars, or one pointer when the aggregate passes by pointer.
pub open spec fn lowered_param(t: LookupTable, ty: Ty) -> Seq<(u32, bool)> {
    match ty {
        Ty::Unit => seq![],
        Ty::Int => seq![(INT_BYTES, false)],
        Ty::Struct(s) => {
            if spec_mode(t, s) == Mode::ByPointer {
                seq![(t.ptr_bytes, false)]
            } else {
                widths_as_params(flat_widths(t, ty), 0)
            }
        },
    }
}

/// The lowered entries of the declared parameters `k..`.
pub open spec fn lowered_params(t: LookupTable, ps: Seq<Ty>, k: int) -> Seq<(u32, bool)>
    decreases ps.len() - k,
{
    if 0 <= k < ps.len() {
        lowered_param(t, ps[k]) + lowered_params(t, ps, k + 1)
    } else {
        seq![]
    }
}

/// Whether the declared return type needs the struct-return convention: an
/// aggregate too large for the return registers is written through a
/// pointer the caller supplies as a distinguished leading parameter.
pub open spec fn lowered_ret_sret(t: LookupTable, ret: Ty) -> bool {
    ret is Struct && spec_mode(t, ret->Struct_0) == Mode::ByPointer
}

/// The lowered return widths of the declared return type: nothing when the
/// struct-return convention applies.
pub open spec fn lowered_returns(t: LookupTable, ret: Ty) -> Seq<u32> {
    match ret {
        Ty::Unit => seq![],
        Ty::Int => seq![INT_BYTES],
        Ty::Struct(s) => {
            if spec_mode(t, s) == Mode::ByPointer {
                seq![]
            } else {
                flat_widths(t, ret)
            }
        },
    }
}

/// The whole lowered parameter list: the struct-return pointer first, when
/// the return type demands one, then each declared parameter in order.
pub open spec fn spec_lowered_sig_params(t: LookupTable, ps: Seq<Ty>, ret: Ty) -> Seq<(u32, bool)> {
    let lead = if lowered_ret_sret(t, ret) {
        seq![(t.ptr_bytes, true)]
    } else {
        seq![]
    };
    lead + lowered_params(t, ps, 0)
}

/// Push one width list as ordinary parameters.
fn push_widths_as_params(sig: &mut cranelift::prelude::Signature, ws: &Vec<u32>)
    requires
        forall|j: int| 0 <= j < ws@.len() ==> valid_width(#[trigger] ws@[j]),
    ensures
        sig_params_model(*final(sig)) == sig_params_model(*old(sig)) + widths_as_params(ws@, 0),
        sig_returns_model(*final(sig)) == sig_returns_model(*old(sig)),
{
    let n = ws.len();
    let mut k: usize = 0;
    let ghost base = sig_params_model(*sig);
    while k < n
        invariant
            forall|j: int| 0 <= j < ws@.len() ==> valid_width(#[trigger] ws@[j]),
            n == ws@.len(),
            k <= n,
            sig_returns_model(*sig) == sig_returns_model(*old(sig)),
            sig_params_model(*sig) + widths_as_params(ws@, k as int) == base + widths_as_params(
                ws@,
                0,
            ),
        decreases n - k,
    {
        let ghost before = sig_params_model(*sig);
        sig_push_param(sig, ws[k]);
        proof {
            assert(widths_as_params(ws@, k as int) == seq![(ws@[k as int], false)]
                + widths_as_params(ws@, k as int + 1));
            assert(sig_params_model(*sig) + widths_as_params(ws@, k as int + 1) =~= before
                + widths_as_params(ws@, k as int));
        }
        k = k + 1;
    }
    proof {
        assert(widths_as_params(ws@, n as int) =~= Seq::<(u32, bool)>::empty());
        assert(sig_params_model(*sig) =~= sig_params_model(*sig) + widths_as_params(
            ws@,
            n as int,
        ));
    }
}

/// Push one width list as returns.
fn push_widths_as_returns(sig: &mut cranelift::prelude::Signature, ws: &Vec<u32>)
    requires
        forall|j: int| 0 <= j < ws@.len() ==> valid_width(#[trigger] ws@[j]),
    ensures
        sig_returns_model(*final(sig)) == sig_returns_model(*old(sig)) + ws@,
        sig_params_model(*final(sig)) == sig_params_model(*old(sig)),
{
    let n = ws.len();
    let mut k: usize = 0;
    let ghost base = sig_returns_model(*sig);
    while k < n
        invariant
            forall|j: int| 0 <= j < ws@.len() ==> valid_width(#[trigger] ws@[j]),
            n == ws@.len(),
            k <= n,
            sig_params_model(*sig) == sig_params_model(*old(sig)),
            sig_returns_model(*sig) == base + ws@.take(k as int),
        decreases n - k,
    {
        let ghost before = sig_returns_model(*sig);
        sig_push_return(sig, ws[k]);
        proof {
            assert(ws@.take(k as int).push(ws@[k as int]) =~= ws@.take(k as int + 1));
            assert(sig_returns_model(*sig) =~= base + ws@.take(k as int + 1));
        }
        k = k + 1;
    }
    proof {
        assert(ws@.take(n as int) =~= ws@);
    }
}

/// The lowered parameter entries of one declared type.
fn push_lowered_param(t: &LookupTable, sig: &mut cranelift::prelude::Signature, ty: Ty)
    requires
        table_wf(*t),
        ty_valid(*t, ty),
    ensures
        sig_params_model(*final(sig)) == sig_params_model(*old(sig)) + lowered_param(*t, ty),
        sig_returns_model(*final(sig)) == sig_returns_model(*old(sig)),
{
    match ty {
        Ty::Unit => {
            proof {
                assert(sig_params_model(*sig) =~= sig_params_model(*sig) + lowered_param(*t, ty));
            }
        },
        Ty::Int => {
            let ghost before = sig_params_model(*sig);
            sig_push_param(sig, INT_BYTES);
            proof {
                assert(sig_params_model(*sig) =~= before + lowered_param(*t, ty));
            }
        },
        Ty::Struct(s) => {
            if t.passing_mode(s) == Mode::ByPointer {
                let ghost before = sig_params_model(*sig);
                sig_push_param(sig, t.ptr_bytes);
                proof {
                    assert(sig_params_model(*sig) =~= before + lowered_param(*t, ty));
                }
            } else {
                let ws = t.flat_widths_of(ty);
                proof {
                    lemma_flat_widths_int(*t, ty);
                }
                push_widths_as_params(sig, &ws);
            }
        },
    }
}

/// Lower a declared function's signature to the backend's: a by-pointer
/// return becomes the distinguished leading struct-return pointer
/// parameter; each parameter is flattened into one primitive per leaf
/// scalar, or becomes one pointer when its aggregate passes by pointer.
pub fn create_signature(
    t: &LookupTable,
    module: &cranelift_object::ObjectModule,
    func: usize,
) -> (r: cranelift::prelude::Signature)
    requires
        table_wf(*t),
        func < t.functions@.len(),
    ensures
        sig_params_model(r) == spec_lowered_sig_params(
            *t,
            t.functions@[func as int].params@,
            t.functions@[func as int].ret,
        ),
        sig_returns_model(r) == lowered_returns(*t, t.functions@[func as int].ret),
{
    let ret = t.functions[func].ret;
    let ghost ps = t.functions@[func as int].params@;
    proof {
        assert(crate::types::fn_wf(*t, func as int));
    }
    let mut sig = signature_new(module);

    match ret {
        Ty::Unit => {
            proof {
                assert(sig_returns_model(sig) =~= lowered_returns(*t, ret));
            }
        },
        Ty::Int => {
            sig_push_return(&mut sig, INT_BYTES);
            proof {
                assert(sig_returns_model(sig) =~= lowered_returns(*t, ret));
            }
        },
        Ty::Struct(s) => {
            if t.passing_mode(s) == Mode::ByPointer {
                sig_push_sret_param(&mut sig, t.ptr_bytes);
                proof {
                    assert(sig_returns_model(sig) =~= lowered_returns(*t, ret));
                }
            } else {
                let ws = t.flat_widths_of(ret);
                proof {
                    lemma_flat_widths_int(*t, ret);
                }
                push_widths_as_returns(&mut sig, &ws);
                proof {
                    assert(sig_returns_model(sig) =~= lowered_returns(*t, ret));
                }
            }
        },
    }
    let ghost lead: Seq<(u32, bool)> = if lowered_ret_sret(*t, ret) {
        seq![(t.ptr_bytes, true)]
    } else {
        Seq::empty()
    };
    proof {
        assert(sig_params_model(sig) =~= lead);
    }

    let n = t.functions[func].params.len();
    let mut k: usize = 0;
    while k < n
        invariant
            table_wf(*t),
            func < t.functions@.len(),
            ps == t.functions@[func as int].params@,
            n == ps.len(),
            k <= n,
            sig_returns_model(sig) == lowered_returns(*t, t.functions@[func as int].ret),
            sig_params_model(sig) + lowered_params(*t, ps, k as int) == lead + lowered_params(
                *t,
                ps,
                0,
            ),
        decreases n - k,
    {
        let pty = t.functions[func].params[k];
        proof {
            assert(crate::types::fn_wf(*t, func as int));
            assert(crate::types::ty_valid_below(
                t.functions@[func as int].params@[k as int],
                t.aggregates@.len() as int,
            ));
        }
        let ghost before = sig_params_model(sig);
        push_lowered_param(t, &mut sig, pty);
        proof {
            assert(lowered_params(*t, ps, k as int) == lowered_param(*t, ps[k as int])
                + lowered_params(*t, ps, k as int + 1));
            assert(sig_params_model(sig) + lowered_params(*t, ps, k as int + 1) =~= before
                + lowered_params(*t, ps, k as int));
        }
        k = k + 1;
    }
    proof {
        assert(lowered_params(*t, ps, n as int) =~= Seq::<(u32, bool)>::empty());
        assert(sig_params_model(sig) =~= sig_params_model(sig) + lowered_params(*t, ps, n as int));
        assert(sig_params_model(sig) =~= spec_lowered_sig_params(*t, ps, ret));
    }
    sig
}


/// A fresh resolver table for the module's target: its pointer width is
/// taken from the selected instruction-set architecture. A target whose
/// pointers are neither 4 nor 8 bytes wide is not supported here.
pub fn table_for_module(module: &cranelift_object::ObjectModule) -> (r: Option<LookupTable>)
    ensures
        match r {
            Some(t) => table_wf(t) && t.aggregates@.len() == 1 && t.functions@.len() == 0,
            None => true,
        },
{
    let ptr_bytes = crate::backend::pointer_bytes(module);
    if ptr_bytes == 4 || ptr_bytes == 8 {
        Some(LookupTable::new(ptr_bytes))
    } else {
        None
    }
}

/// Hand a finished function body over to the module — which leaves every
/// declaration as it was, and marks the function defined exactly on
/// success — and reset the context so the next body can be built in it.
pub fn finish_function(
    module: &mut cranelift_object::ObjectModule,
    id: cranelift_module::FuncId,
    ctx: &mut cranelift::codegen::Context,
) -> (r: Result<(), cranelift_module::ModuleError>)
    requires
        valid_func_id(*old(module), id),
    ensures
        module_preserved(*old(module), *final(module)),
        crate::backend::ctx_func_empty(*final(ctx)),
        match r {
            Ok(_) => !crate::backend::module_defined(*old(module)).contains(func_id_index(id))
                && crate::backend::module_defined(*final(module)) == crate::backend::module_defined(
                *old(module),
            ).insert(func_id_index(id)),
            Err(_) => crate::backend::module_defined(*final(module))
                == crate::backend::module_defined(*old(module)),
        },
{
    let r = crate::backend::define_function(module, id, ctx);
    crate::backend::context_clear(ctx);
    r
}

/// Declare the program's entry point: `main`, exported, taking nothing and
/// returning one integer exit code. Declaring into a module where no
/// declaration uses that name succeeds; a redeclaration onto a function
/// already named `main` merges onto that function's handle, so a second
/// declaration returns the first one's handle rather than adding a second
/// function. On success the handle indexes a declaration recorded under
/// that name with exactly that signature.
pub fn declare_main(module: &mut cranelift_object::ObjectModule) -> (r: Result<
    cranelift_module::FuncId,
    cranelift_module::ModuleError,
>)
    ensures
        crate::backend::module_grows(*old(module), *final(module)),
        crate::backend::module_name_free(*old(module), "main"@) ==> r is Ok,
        match r {
            Ok(id) => {
                &&& valid_func_id(*final(module), id)
                &&& module_decl_name(*final(module), func_id_index(id)) == "main"@
                &&& module_decl_params(*final(module), func_id_index(id)) == Seq::<
                    (u32, bool),
                >::empty()
                &&& module_decl_returns(*final(module), func_id_index(id)) == seq![INT_BYTES]
                &&& (forall|i: int|
                    0 <= i < module_func_count(*old(module)) && module_decl_name(
                        *old(module),
                        i,
                    ) == "main"@ ==> func_id_index(id) == i)
                &&& (forall|id2: cranelift_module::FuncId|
                    func_id_index(id2) == func_id_index(id) ==> id2 == id)
            },
            Err(_) => true,
        },
{
    let mut sig = signature_new(module);
    sig_push_return(&mut sig, INT_BYTES);
    proof {
        assert(Seq::<u32>::empty().push(INT_BYTES) =~= seq![INT_BYTES]);
        reveal_strlit("main");
        assert(!("main")@.contains('\0')) by {
            assert(("main")@.len() == 4);
            assert(("main")@[0] != '\0');
            assert(("main")@[1] != '\0');
            assert(("main")@[2] != '\0');
            assert(("main")@[3] != '\0');
        }
    }
    declare_function(module, "main", true, &sig)
}

/// Begin defining a declared function: clear the context's function, build
/// a fresh builder over it, give it the signature the function was
/// declared with — so its declared parameter model is exactly the stored
/// declaration's — and create, seal and enter an entry block carrying one
/// block parameter per declared parameter.
pub fn function_builder_from_declaration<'a>(
    module: &cranelift_object::ObjectModule,
    ctx: &'a mut cranelift::codegen::Context,
    fctx: &'a mut cranelift::prelude::FunctionBuilderContext,
    func_id: cranelift_module::FuncId,
) -> (r: (cranelift::prelude::FunctionBuilder<'a>, cranelift::prelude::Block, Vec<
    cranelift::prelude::Value,
>))
    requires
        fbctx_clean(*old(fctx)),
        valid_func_id(*module, func_id),
    ensures
        crate::backend::emitted(r.0) == Seq::<crate::backend::Inst>::empty(),
        fb_emittable(r.0),
        fb_complete(r.0),
        fb_params(r.0) == module_decl_params(*module, func_id_index(func_id)),
        crate::backend::fb_is_current(r.0, r.1),
        crate::backend::fb_sealed(r.0, r.1),
        crate::backend::fb_block_widths(r.0, r.1) == crate::backend::param_widths(
            module_decl_params(*module, func_id_index(func_id)),
        ),
        r.2@.len() == crate::backend::fb_block_widths(r.0, r.1).len(),
{
    func_clear(ctx);
    let mut fb = fb_new(ctx, fctx);
    let sig = signature_from_decl(module, func_id);
    set_signature(&mut fb, &sig);
    let (block, params) = create_entry_block(&mut fb);
    switch_to_block(&mut fb, block);
    proof {
        assert(Seq::<u32>::empty() + crate::backend::param_widths(fb_params(fb))
            =~= crate::backend::param_widths(fb_params(fb)));
    }
    (fb, block, params)
}

/// Create and seal a block with one parameter per declared function
/// parameter: the entry block of a function whose signature is already
/// set. The insertion point is not moved — the caller enters the block.
pub fn create_entry_block(fb: &mut cranelift::prelude::FunctionBuilder) -> (r: (
    cranelift::prelude::Block,
    Vec<cranelift::prelude::Value>,
))
    ensures
        crate::backend::emitted(*final(fb)) == crate::backend::emitted(*old(fb)),
        fb_emittable(*final(fb)) == fb_emittable(*old(fb)),
        fb_ready(*final(fb)) == fb_ready(*old(fb)),
        fb_complete(*final(fb)) == fb_complete(*old(fb)),
        fb_params(*final(fb)) == fb_params(*old(fb)),
        crate::backend::fb_virgin(*final(fb), r.0),
        crate::backend::fb_sealed(*final(fb), r.0),
        !crate::backend::fb_is_current(*final(fb), r.0),
        forall|blk: cranelift::prelude::Block|
            blk != r.0 ==> crate::backend::fb_is_current(*final(fb), blk)
                == crate::backend::fb_is_current(*old(fb), blk),
        forall|blk: cranelift::prelude::Block|
            blk != r.0 ==> crate::backend::fb_virgin(*final(fb), blk)
                == crate::backend::fb_virgin(*old(fb), blk),
        forall|blk: cranelift::prelude::Block|
            blk != r.0 ==> crate::backend::fb_sealed(*final(fb), blk)
                == crate::backend::fb_sealed(*old(fb), blk),
        crate::backend::fb_block_widths(*final(fb), r.0) == Seq::<u32>::empty()
            + crate::backend::param_widths(fb_params(*old(fb))),
        r.1@.len() == crate::backend::fb_block_widths(*final(fb), r.0).len(),
{
    let block = create_block(fb);
    seal_block(fb, block);
    let params = append_entry_params(fb, block);
    (block, params)
}

/// Redeclaring `main` merges: when a module already holds a function
/// declared under that name, a further successful declaration of it comes
/// back with the very same handle — the module never grows a second
/// function of one name. The premises are exactly what `declare_main`'s
/// contract gives for the earlier and the later call.
pub proof fn lemma_redeclared_main_is_merged(
    m: cranelift_object::ObjectModule,
    id0: cranelift_module::FuncId,
    id1: cranelift_module::FuncId,
)
    requires
        valid_func_id(m, id0),
        module_decl_name(m, func_id_index(id0)) == "main"@,
        forall|i: int|
            0 <= i < module_func_count(m) && module_decl_name(m, i) == "main"@
                ==> func_id_index(id1) == i,
        forall|id2: cranelift_module::FuncId|
            func_id_index(id2) == func_id_index(id1) ==> id2 == id1,
    ensures
        id1 == id0,
{
    assert(func_id_index(id1) == func_id_index(id0));
}

/// Two consultations of one stored declaration agree: the declaration
/// store is written only by `declare_function` — which preserves every
/// earlier entry — so any two signatures looked up for one handle within
/// one compilation carry identical parameter and return models.
pub proof fn lemma_signature_lookup_deterministic(
    m: cranelift_object::ObjectModule,
    id: cranelift_module::FuncId,
    s1: cranelift::prelude::Signature,
    s2: cranelift::prelude::Signature,
)
    requires
        sig_params_model(s1) == module_decl_params(m, func_id_index(id)),
        sig_returns_model(s1) == module_decl_returns(m, func_id_index(id)),
        sig_params_model(s2) == module_decl_params(m, func_id_index(id)),
        sig_returns_model(s2) == module_decl_returns(m, func_id_index(id)),
    ensures
        sig_params_model(s1) == sig_params_model(s2),
        sig_returns_model(s1) == sig_returns_model(s2),
{
}

/// Parameter entries of a width list, one per width.
pub proof fn lemma_widths_as_params_len(ws: Seq<u32>, k: int)
    requires
        0 <= k <= ws.len(),
    ensures
        widths_as_params(ws, k).len() == ws.len() - k,
    decreases ws.len() - k,
{
    if k < ws.len() {
        lemma_widths_as_params_len(ws, k + 1);
    }
}

/// One declared parameter becomes exactly as many lowered signature
/// entries as the marshalling of a value of its type pushes call
/// arguments.
pub proof fn lemma_lowered_param_count(t: LookupTable, ty: Ty)
    requires
        table_wf(t),
        ty_valid(t, ty),
    ensures
        lowered_param(t, ty).len() == crate::lower::marshal_count(t, ty),
{
    match ty {
        Ty::Unit => {},
        Ty::Int => {},
        Ty::Struct(s) => {
            if spec_mode(t, s) == Mode::ByPointer {
            } else {
                lemma_widths_as_params_len(flat_widths(t, ty), 0);
            }
        },
    }
}

/// The declared parameters `k..` become exactly as many lowered entries as
/// their marshalled call arguments.
pub proof fn lemma_lowered_params_count(t: LookupTable, ps: Seq<Ty>, k: int)
    requires
        table_wf(t),
        forall|i: int| 0 <= i < ps.len() ==> ty_valid(t, #[trigger] ps[i]),
        0 <= k <= ps.len(),
    ensures
        lowered_params(t, ps, k).len() == crate::lower::args_marshal_count(t, ps, k),
    decreases ps.len() - k,
{
    if k < ps.len() {
        lemma_lowered_param_count(t, ps[k]);
        lemma_lowered_params_count(t, ps, k + 1);
    }
}

/// Call/signature coherence: lowering a call site passes exactly as many
/// backend arguments — the struct-return pointer included — as the lowered
/// signature of the callee declares parameters. The call instruction that
/// `call_func` emits therefore always matches the signature that
/// `create_signature` declared for the same parameter and return types.
pub proof fn lemma_call_matches_signature(t: LookupTable, ps: Seq<Ty>, ret: Ty)
    requires
        table_wf(t),
        forall|i: int| 0 <= i < ps.len() ==> ty_valid(t, #[trigger] ps[i]),
    ensures
        spec_lowered_sig_params(t, ps, ret).len() == (if crate::lower::ret_by_pointer(t, ret) {
            1int
        } else {
            0int
        }) + crate::lower::args_marshal_count(t, ps, 0),
{
    assert(lowered_ret_sret(t, ret) == crate::lower::ret_by_pointer(t, ret));
    lemma_lowered_params_count(t, ps, 0);
}

} // verus!
