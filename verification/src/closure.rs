//! Closure lowering: capture boxing and forwarding-function synthesis for
//! type-erased closures. Closures over the same parameter/return signature
//! but different capture sets must share one runtime representation, so a
//! closure value is one (data pointer, code pointer) pair: the captures
//! are spilled to memory behind an opaque pointer — with the same
//! no-padding layout an indirect union payload uses — and the code pointer
//! names a synthesized forwarding function that loads each capture back at
//! exactly the offset it was stored, then tail-calls the real body
//! function with the captures ahead of the forwarded parameters.

use vstd::prelude::*;
use crate::types::valid_width;
use crate::backend::{
    Inst, append_entry_params, context_new, create_block, declare_func_in_func, declare_function,
    define_function, emit_call, emit_call_indirect, emit_func_addr, emit_load, emit_return,
    emit_stack_addr, emit_store, emitted, fb_addrs, fb_context_new, fb_emittable, fb_finalize,
    fb_new, forward_symbol, func_id_index, import_signature, module_decl_name,
    module_decl_params, module_decl_returns,
    module_grows, seal_block, set_signature, sig_copy_param, sig_copy_return, sig_param_count,
    sig_params_model, sig_push_param, sig_return_count, sig_returns_model, signature_from_decl,
    signature_new, switch_to_block, symbol_of, valid_func_id,
};
use crate::lower::{
    fb_emits, lemma_emits_nothing, lemma_emits_one, lemma_emits_quiet, lemma_emits_trans,
};
use crate::union::{
    lemma_indirect_round_trip_offsets, lemma_payload_offset_mono, payload_load_insts,
    payload_offset, payload_store_insts, payload_wf, spec_payload_offset,
};

verus! {

/// A type-erased closure value: the opaque pointer to its boxed captures,
/// the address of its forwarding function, and the forwarding function's
/// signature, kept for the indirect call.
pub struct Closure {
    pub data: cranelift::prelude::Value,
    pub func: cranelift::prelude::Value,
    pub sig: cranelift::prelude::Signature,
}

/// Spill the captures to a fresh stack allocation sized to their summed
/// widths, each capture at its cumulative offset, and take its address:
/// the closure's opaque data pointer.
pub fn stack_alloc_captures(
    fb: &mut cranelift::prelude::FunctionBuilder,
    ptr_bytes: u32,
    widths: &Vec<u32>,
    captures: &Vec<cranelift::prelude::Value>,
) -> (r: cranelift::prelude::Value)
    requires
        valid_width(ptr_bytes),
        payload_wf(widths@),
        captures@.len() == widths@.len(),
        fb_emittable(*old(fb)),
    ensures
        fb_emits(
            *old(fb),
            *final(fb),
            seq![
                (Inst::StackAddr {
                    width: ptr_bytes,
                    size: spec_payload_offset(widths@, widths@.len() as int) as u32,
                }),
            ] + payload_store_insts(widths@, 0),
        ),
        !fb_addrs(*old(fb)).contains(r),
        fb_addrs(*final(fb)).contains(r),
{
    let ghost fb0 = *old(fb);
    let n = widths.len();
    let size = payload_offset(widths, n);
    let ptr = emit_stack_addr(fb, ptr_bytes, size);
    let ghost fb_alloc = *fb;
    let ghost mut pre: Seq<Inst> = seq![];
    let mut k: usize = 0;
    proof {
        lemma_emits_one(fb0, *fb, (Inst::StackAddr { width: ptr_bytes, size }));
        lemma_emits_nothing(*fb);
    }
    while k < n
        invariant
            payload_wf(widths@),
            captures@.len() == widths@.len(),
            n == widths@.len(),
            k <= n,
            fb_emits(fb_alloc, *fb, pre),
            pre + payload_store_insts(widths@, k as int) == payload_store_insts(widths@, 0),
        decreases n - k,
    {
        let off = payload_offset(widths, k);
        proof {
            lemma_payload_offset_mono(widths@, k as int, widths@.len() as int);
            lemma_payload_offset_mono(widths@, 0, k as int);
        }
        let ghost fb1 = *fb;
        let ghost pre_old = pre;
        emit_store(fb, captures[k], ptr, off);
        proof {
            lemma_emits_one(fb1, *fb, (Inst::Store { offset: off }));
            lemma_emits_trans(fb_alloc, fb1, *fb, pre, seq![(Inst::Store { offset: off })]);
            pre = pre + seq![(Inst::Store { offset: off })];
            assert(payload_store_insts(widths@, k as int) == seq![
                (Inst::Store { offset: off }),
            ] + payload_store_insts(widths@, k as int + 1));
            assert(pre + payload_store_insts(widths@, k as int + 1) =~= pre_old
                + payload_store_insts(widths@, k as int));
        }
        k = k + 1;
    }
    proof {
        assert(payload_store_insts(widths@, n as int) =~= Seq::<Inst>::empty());
        assert(pre =~= pre + payload_store_insts(widths@, n as int));
        lemma_emits_trans(
            fb0,
            fb_alloc,
            *fb,
            seq![(Inst::StackAddr { width: ptr_bytes, size })],
            payload_store_insts(widths@, 0),
        );
    }
    ptr
}

/// Synthesize the forwarding function for a closure over `body_fn`: its
/// signature is the real function's with the leading capture parameters
/// replaced by one opaque pointer, and its body loads each capture back
/// from that pointer — at exactly the cumulative offset the boxing stored
/// it — then calls the real function with the captures followed by the
/// forwarded parameters, returning whatever it returns. The symbol is
/// derived from `key`, which the caller must keep unique per construction
/// site: one body function may back many closures.
///
/// On success the new function's handle and signature come back, together
/// with the instruction stream of the synthesized body: the capture loads
/// in declaration order, one call, one return.
pub fn create_forwarding_func(
    module: &mut cranelift_object::ObjectModule,
    body_fn: cranelift_module::FuncId,
    ptr_bytes: u32,
    capture_widths: &Vec<u32>,
    key: u64,
) -> (r: Result<
    (cranelift_module::FuncId, cranelift::prelude::Signature, Ghost<Seq<Inst>>),
    cranelift_module::ModuleError,
>)
    requires
        valid_width(ptr_bytes),
        payload_wf(capture_widths@),
        valid_func_id(*old(module), body_fn),
    ensures
        module_grows(*old(module), *final(module)),
        match r {
            Ok(ok) => {
                &&& valid_func_id(*final(module), ok.0)
                &&& module_decl_name(*final(module), func_id_index(ok.0)) == symbol_of(key)
                &&& sig_params_model(ok.1).len() >= 1
                &&& sig_params_model(ok.1)[0] == (ptr_bytes, false)
                &&& sig_returns_model(ok.1) == module_decl_returns(
                    *old(module),
                    func_id_index(body_fn),
                )
                &&& (capture_widths@.len() <= module_decl_params(
                    *old(module),
                    func_id_index(body_fn),
                ).len() ==> sig_params_model(ok.1) == seq![(ptr_bytes, false)]
                    + module_decl_params(*old(module), func_id_index(body_fn)).skip(
                    capture_widths@.len() as int,
                ))
                &&& ok.2@.len() == capture_widths@.len() + 2
                &&& ok.2@.subrange(0, capture_widths@.len() as int) == payload_load_insts(
                    capture_widths@,
                    0,
                )
                &&& ok.2@[capture_widths@.len() as int] is Call
                &&& ok.2@[capture_widths@.len() as int + 1] is Return
            },
            Err(_) => true,
        },
{
    let nc = capture_widths.len();
    let real_sig = signature_from_decl(module, body_fn);
    let ghost dparams = sig_params_model(real_sig);
    let ghost dreturns = sig_returns_model(real_sig);

    let mut sig = signature_new(module);
    sig_push_param(&mut sig, ptr_bytes);
    let np = sig_param_count(&real_sig);
    let start: usize = if nc < np {
        nc
    } else {
        np
    };
    let mut k: usize = start;
    proof {
        assert(sig_params_model(sig) =~= seq![(ptr_bytes, false)] + dparams.subrange(
            start as int,
            start as int,
        ));
    }
    while k < np
        invariant
            np == dparams.len(),
            dparams == sig_params_model(real_sig),
            start <= k <= np,
            sig_params_model(sig) == seq![(ptr_bytes, false)] + dparams.subrange(
                start as int,
                k as int,
            ),
            sig_returns_model(sig).len() == 0,
        decreases np - k,
    {
        sig_copy_param(&mut sig, &real_sig, k);
        proof {
            assert(sig_params_model(sig) =~= seq![(ptr_bytes, false)] + dparams.subrange(
                start as int,
                k as int + 1,
            ));
        }
        k = k + 1;
    }
    let nr = sig_return_count(&real_sig);
    let mut k2: usize = 0;
    proof {
        assert(sig_returns_model(sig) =~= dreturns.take(0));
    }
    while k2 < nr
        invariant
            nr == dreturns.len(),
            dreturns == sig_returns_model(real_sig),
            k2 <= nr,
            sig_params_model(sig) == seq![(ptr_bytes, false)] + dparams.subrange(
                start as int,
                np as int,
            ),
            np == dparams.len(),
            start <= np,
            sig_returns_model(sig) == dreturns.take(k2 as int),
        decreases nr - k2,
    {
        sig_copy_return(&mut sig, &real_sig, k2);
        proof {
            assert(dreturns.take(k2 as int).push(dreturns[k2 as int]) =~= dreturns.take(
                k2 as int + 1,
            ));
        }
        k2 = k2 + 1;
    }
    proof {
        assert(dreturns.take(nr as int) =~= dreturns);
        if nc <= np {
            assert(dparams.subrange(start as int, np as int) =~= dparams.skip(nc as int));
        }
    }

    let symbol = forward_symbol(key);
    let func_id = match declare_function(module, symbol.as_str(), false, &sig) {
        Ok(id) => id,
        Err(e) => {
            return Err(e);
        },
    };

    let mut ctx = context_new();
    let mut fctx = fb_context_new();
    let mut fb = fb_new(&mut ctx, &mut fctx);
    set_signature(&mut fb, &sig);
    let block = create_block(&mut fb);
    seal_block(&mut fb, block);
    let params = append_entry_params(&mut fb, block);
    switch_to_block(&mut fb, block);
    let data_ptr = params[0];

    let ghost fb0 = fb;
    let mut real_args: Vec<cranelift::prelude::Value> = Vec::new();
    let ghost mut pre: Seq<Inst> = seq![];
    let mut k3: usize = 0;
    proof {
        lemma_emits_nothing(fb);
    }
    while k3 < nc
        invariant
            payload_wf(capture_widths@),
            nc == capture_widths@.len(),
            k3 <= nc,
            fb_emits(fb0, fb, pre),
            pre + payload_load_insts(capture_widths@, k3 as int) == payload_load_insts(
                capture_widths@,
                0,
            ),
        decreases nc - k3,
    {
        let off = payload_offset(capture_widths, k3);
        let w = capture_widths[k3];
        proof {
            assert(valid_width(capture_widths@[k3 as int]));
            lemma_payload_offset_mono(capture_widths@, k3 as int, capture_widths@.len() as int);
            lemma_payload_offset_mono(capture_widths@, 0, k3 as int);
        }
        let ghost fb1 = fb;
        let ghost pre_old = pre;
        let v = emit_load(&mut fb, w, data_ptr, off);
        real_args.push(v);
        proof {
            lemma_emits_one(fb1, fb, (Inst::Load { width: w, offset: off }));
            lemma_emits_trans(fb0, fb1, fb, pre, seq![(Inst::Load { width: w, offset: off })]);
            pre = pre + seq![(Inst::Load { width: w, offset: off })];
            assert(payload_load_insts(capture_widths@, k3 as int) == seq![
                (Inst::Load { width: w, offset: off }),
            ] + payload_load_insts(capture_widths@, k3 as int + 1));
            assert(pre + payload_load_insts(capture_widths@, k3 as int + 1) =~= pre_old
                + payload_load_insts(capture_widths@, k3 as int));
        }
        k3 = k3 + 1;
    }
    proof {
        assert(payload_load_insts(capture_widths@, nc as int) =~= Seq::<Inst>::empty());
        assert(pre =~= pre + payload_load_insts(capture_widths@, nc as int));
    }

    let mut k4: usize = 1;
    let ghost fb_loads = fb;
    while k4 < params.len()
        invariant
            fb_emits(fb0, fb, payload_load_insts(capture_widths@, 0)),
            fb == fb_loads,
            1 <= k4,
        decreases params@.len() - k4,
    {
        real_args.push(params[k4]);
        k4 = k4 + 1;
    }

    let ghost fb2 = fb;
    let fref = declare_func_in_func(module, body_fn, &mut fb);
    proof {
        lemma_emits_quiet(fb2, fb);
        lemma_emits_trans(fb0, fb2, fb, payload_load_insts(capture_widths@, 0), seq![]);
        assert(payload_load_insts(capture_widths@, 0) + Seq::<Inst>::empty()
            =~= payload_load_insts(capture_widths@, 0));
    }
    let ghost fb3 = fb;
    let results = emit_call(&mut fb, fref, &real_args);
    proof {
        lemma_emits_one(fb3, fb, (Inst::Call { args: real_args@.len() as usize }));
        lemma_emits_trans(
            fb0,
            fb3,
            fb,
            payload_load_insts(capture_widths@, 0),
            seq![(Inst::Call { args: real_args@.len() as usize })],
        );
    }
    let ghost fb4 = fb;
    emit_return(&mut fb, &results);
    let ghost body: Seq<Inst> = emitted(fb);
    proof {
        assert(body == (payload_load_insts(capture_widths@, 0) + seq![
            (Inst::Call { args: real_args@.len() as usize }),
        ]).push((Inst::Return { vals: results@.len() as usize })));
        assert(emitted(fb0) == Seq::<Inst>::empty());
        assert(body =~= payload_load_insts(capture_widths@, 0) + seq![
            (Inst::Call { args: real_args@.len() as usize }),
            (Inst::Return { vals: results@.len() as usize }),
        ]);
        crate::union::lemma_payload_insts_index(capture_widths@, 0);
        assert(body.subrange(0, capture_widths@.len() as int) =~= payload_load_insts(
            capture_widths@,
            0,
        ));
    }
    fb_finalize(fb, module);
    match define_function(module, func_id, &mut ctx) {
        Ok(_) => Ok((func_id, sig, Ghost(body))),
        Err(e) => Err(e),
    }
}

/// Construct a type-erased closure over the body function `body_fn`: box the
/// captures behind an opaque pointer, synthesize the forwarding function,
/// and take its address as the code pointer. `key` must be unique per
/// construction site, since many closures may share one body function.
pub fn construct_closure(
    fb: &mut cranelift::prelude::FunctionBuilder,
    module: &mut cranelift_object::ObjectModule,
    body_fn: cranelift_module::FuncId,
    key: u64,
    ptr_bytes: u32,
    capture_widths: &Vec<u32>,
    captures: &Vec<cranelift::prelude::Value>,
) -> (r: Result<Closure, cranelift_module::ModuleError>)
    requires
        valid_width(ptr_bytes),
        payload_wf(capture_widths@),
        captures@.len() == capture_widths@.len(),
        valid_func_id(*old(module), body_fn),
        fb_emittable(*old(fb)),
    ensures
        module_grows(*old(module), *final(module)),
        match r {
            Ok(c) => {
                &&& fb_emits(
                    *old(fb),
                    *final(fb),
                    (seq![
                        (Inst::StackAddr {
                            width: ptr_bytes,
                            size: spec_payload_offset(
                                capture_widths@,
                                capture_widths@.len() as int,
                            ) as u32,
                        }),
                    ] + payload_store_insts(capture_widths@, 0)).push(Inst::FuncAddr),
                )
                &&& !fb_addrs(*old(fb)).contains(c.data)
                &&& fb_addrs(*final(fb)).contains(c.data)
                &&& sig_params_model(c.sig).len() >= 1
                &&& sig_params_model(c.sig)[0] == (ptr_bytes, false)
                &&& sig_returns_model(c.sig) == module_decl_returns(
                    *old(module),
                    func_id_index(body_fn),
                )
                &&& (capture_widths@.len() <= module_decl_params(
                    *old(module),
                    func_id_index(body_fn),
                ).len() ==> sig_params_model(c.sig) == seq![(ptr_bytes, false)]
                    + module_decl_params(*old(module), func_id_index(body_fn)).skip(
                    capture_widths@.len() as int,
                ))
            },
            Err(_) => emitted(*final(fb)) == emitted(*old(fb)),
        },
{
    let fwd = match create_forwarding_func(module, body_fn, ptr_bytes, capture_widths, key) {
        Ok(ok) => ok,
        Err(e) => {
            return Err(e);
        },
    };
    let boxed = stack_alloc_captures(fb, ptr_bytes, capture_widths, captures);
    let ghost fb1 = *fb;
    let fref = declare_func_in_func(module, fwd.0, fb);
    proof {
        lemma_emits_quiet(fb1, *fb);
        lemma_emits_trans(
            *old(fb),
            fb1,
            *fb,
            seq![
                (Inst::StackAddr {
                    width: ptr_bytes,
                    size: spec_payload_offset(capture_widths@, capture_widths@.len() as int)
                        as u32,
                }),
            ] + payload_store_insts(capture_widths@, 0),
            seq![],
        );
        assert((seq![
            (Inst::StackAddr {
                width: ptr_bytes,
                size: spec_payload_offset(capture_widths@, capture_widths@.len() as int) as u32,
            }),
        ] + payload_store_insts(capture_widths@, 0)) + Seq::<Inst>::empty() =~= seq![
            (Inst::StackAddr {
                width: ptr_bytes,
                size: spec_payload_offset(capture_widths@, capture_widths@.len() as int) as u32,
            }),
        ] + payload_store_insts(capture_widths@, 0));
    }
    let ghost fb2 = *fb;
    let faddr = emit_func_addr(fb, ptr_bytes, fref);
    proof {
        lemma_emits_one(fb2, *fb, Inst::FuncAddr);
        lemma_emits_trans(
            *old(fb),
            fb2,
            *fb,
            seq![
                (Inst::StackAddr {
                    width: ptr_bytes,
                    size: spec_payload_offset(capture_widths@, capture_widths@.len() as int)
                        as u32,
                }),
            ] + payload_store_insts(capture_widths@, 0),
            seq![Inst::FuncAddr],
        );
        assert((seq![
            (Inst::StackAddr {
                width: ptr_bytes,
                size: spec_payload_offset(capture_widths@, capture_widths@.len() as int) as u32,
            }),
        ] + payload_store_insts(capture_widths@, 0)) + seq![Inst::FuncAddr] =~= (seq![
            (Inst::StackAddr {
                width: ptr_bytes,
                size: spec_payload_offset(capture_widths@, capture_widths@.len() as int) as u32,
            }),
        ] + payload_store_insts(capture_widths@, 0)).push(Inst::FuncAddr));
    }
    Ok(Closure { data: boxed, func: faddr, sig: fwd.1 })
}

impl Closure {
    /// Invoke the closure: an indirect call through its own code pointer,
    /// passing its own data pointer as the implicit leading argument
    /// followed by the explicit arguments. Each closure therefore hands
    /// its own boxed captures — never another closure's — to its
    /// forwarding function.
    pub fn call(
        &self,
        fb: &mut cranelift::prelude::FunctionBuilder,
        args: &Vec<cranelift::prelude::Value>,
    ) -> (r: Vec<cranelift::prelude::Value>)
        requires
            fb_emittable(*old(fb)),
        ensures
            fb_emits(
                *old(fb),
                *final(fb),
                seq![
                    (Inst::CallIndirect {
                        callee: self.func,
                        passed: seq![self.data] + args@,
                    }),
                ],
            ),
    {
        let mut real_args: Vec<cranelift::prelude::Value> = Vec::new();
        real_args.push(self.data);
        let mut k: usize = 0;
        while k < args.len()
            invariant
                k <= args@.len(),
                real_args@ == seq![self.data] + args@.take(k as int),
            decreases args@.len() - k,
        {
            real_args.push(args[k]);
            proof {
                assert(real_args@ =~= seq![self.data] + args@.take(k as int + 1));
            }
            k = k + 1;
        }
        proof {
            assert(args@.take(args@.len() as int) =~= args@);
        }
        let ghost fb0 = *old(fb);
        let sigref = import_signature(fb, &self.sig);
        proof {
            lemma_emits_quiet(fb0, *fb);
        }
        let ghost fb1 = *fb;
        let r = emit_call_indirect(fb, sigref, self.func, &real_args);
        proof {
            lemma_emits_one(
                fb1,
                *fb,
                (Inst::CallIndirect { callee: self.func, passed: real_args@ }),
            );
            lemma_emits_trans(
                fb0,
                fb1,
                *fb,
                seq![],
                seq![(Inst::CallIndirect { callee: self.func, passed: real_args@ })],
            );
            assert(real_args@ =~= seq![self.data] + args@);
            assert(Seq::<Inst>::empty() + seq![
                (Inst::CallIndirect { callee: self.func, passed: real_args@ }),
            ] =~= seq![(Inst::CallIndirect { callee: self.func, passed: seq![self.data] + args@ })]);
        }
        r
    }
}

/// Capture-box isolation: two closures constructed one after the other own
/// distinct capture boxes. The first box's pointer is a stack address the
/// builder had already produced by the time the second was allocated, and
/// the second comes back fresh — so the two data pointers differ, and by
/// `Closure::call`'s contract each invocation leads with its own.
pub proof fn lemma_distinct_capture_boxes(
    first: cranelift::prelude::Value,
    second: cranelift::prelude::Value,
    addrs_between: Set<cranelift::prelude::Value>,
)
    requires
        addrs_between.contains(first),
        !addrs_between.contains(second),
    ensures
        first != second,
{
}

/// Closure-capture round trip: for every capture of a closure, the load
/// the forwarding function performs reads at exactly the offset at which
/// `construct_closure` stored that capture, and at the capture's own
/// width. Together with `Closure::call`'s contract — each invocation
/// passes the closure's own data pointer — two closures over the same body
/// function but different captures each observe their own captures.
pub proof fn lemma_closure_captures_round_trip(ws: Seq<u32>, i: int)
    requires
        0 <= i < ws.len(),
    ensures
        payload_store_insts(ws, 0)[i] == (Inst::Store {
            offset: spec_payload_offset(ws, i) as u32,
        }),
        payload_load_insts(ws, 0)[i] == (Inst::Load {
            width: ws[i],
            offset: spec_payload_offset(ws, i) as u32,
        }),
{
    lemma_indirect_round_trip_offsets(ws, i);
}

} // verus!
