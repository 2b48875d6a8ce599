//! Aggregate lowering: construction, field access, materialization, and
//! call/return marshalling for aggregates, driven by the resolver's
//! passing-mode decisions.
//!
//! Every function that emits instructions states exactly which ones, as a
//! sequence over the backend model: which constants, which loads and
//! stores, and at which byte offsets. The offsets all come from the
//! resolver's layout, which is how the round-trip guarantees are proved.

use vstd::prelude::*;
use crate::types::{
    LookupTable, Mode, Ty, agg_field_len, agg_wf, field_name, field_ty, flat_widths,
    lemma_offset_bounds, lemma_size_is_field_sum, lemma_width_sum_nonneg, spec_agg_size,
    spec_mode, spec_offset_of, spec_size_of, table_wf, ty_rank, ty_valid, INT_BYTES,
    MAX_AGGREGATE_SIZE,
};
use crate::value::{
    ValueModel, VirtualValue, binding_for, lemma_vv_fields_wf_at, lemma_vv_fields_wf_build,
    lemma_vv_models_index, vv_field, vv_fields_wf, vv_is_unit, vv_models, vv_type_id, vv_wf,
};
use crate::backend::{
    Inst, append_block_param, create_block, emit_iadd, emit_iconst, emit_load, emit_return,
    emit_stack_addr, emit_store, emitted, fb_addrs, fb_after_emit, fb_after_terminator,
    fb_block_count, fb_block_widths, fb_complete, fb_emittable, fb_frame, fb_is_current,
    fb_params, fb_quiet, fb_ready, fb_sealed, fb_untargeted, fb_virgin, seal_block,
    uses_struct_return_param,
};

verus! {

/// What reaching the data at `offset` past a base pointer emits: nothing
/// when the offset is zero (the base is used as is), one pointer-wide
/// offset constant and one add otherwise.
pub open spec fn addr_insts(ptr_bytes: u32, offset: u32) -> Seq<Inst> {
    if offset == 0 {
        seq![]
    } else {
        seq![(Inst::Const { width: ptr_bytes, bits: offset as i64 }), Inst::Add]
    }
}

/// The loads that recover every flattened scalar of a value of type `ty`
/// sitting `base` bytes past a pointer, in declaration order.
pub open spec fn load_insts(t: LookupTable, ty: Ty, base: int) -> Seq<Inst>
    decreases ty_rank(ty), 1int, 0int,
{
    match ty {
        Ty::Unit => seq![],
        Ty::Int => seq![(Inst::Load { width: INT_BYTES, offset: base as u32 })],
        Ty::Struct(s) => {
            if s < t.aggregates@.len() {
                fields_load_insts(t, s as int, 0, base)
            } else {
                seq![]
            }
        },
    }
}

/// The loads for fields `k..` of aggregate `s` at `base`.
pub open spec fn fields_load_insts(t: LookupTable, s: int, k: int, base: int) -> Seq<Inst>
    decreases s + 1, 0int, agg_field_len(t, s) - k,
{
    if 0 <= s < t.aggregates@.len() && 0 <= k < agg_field_len(t, s) {
        let fty = field_ty(t, s, k);
        let head = if ty_rank(fty) <= s {
            load_insts(t, fty, base + spec_offset_of(t, s, k))
        } else {
            seq![]
        };
        head + fields_load_insts(t, s, k + 1, base)
    } else {
        seq![]
    }
}

/// The load/store pairs that copy a value of type `ty` from `src` bytes
/// past one pointer to `dst` bytes past another, leaf by leaf.
pub open spec fn copy_insts(t: LookupTable, ty: Ty, src: int, dst: int) -> Seq<Inst>
    decreases ty_rank(ty), 1int, 0int,
{
    match ty {
        Ty::Unit => seq![],
        Ty::Int => seq![
            (Inst::Load { width: INT_BYTES, offset: src as u32 }),
            (Inst::Store { offset: dst as u32 }),
        ],
        Ty::Struct(s) => {
            if s < t.aggregates@.len() {
                fields_copy_insts(t, s as int, 0, src, dst)
            } else {
                seq![]
            }
        },
    }
}

/// The copies for fields `k..` of aggregate `s`.
pub open spec fn fields_copy_insts(t: LookupTable, s: int, k: int, src: int, dst: int) -> Seq<Inst>
    decreases s + 1, 0int, agg_field_len(t, s) - k,
{
    if 0 <= s < t.aggregates@.len() && 0 <= k < agg_field_len(t, s) {
        let fty = field_ty(t, s, k);
        let off = spec_offset_of(t, s, k);
        let head = if ty_rank(fty) <= s {
            copy_insts(t, fty, src + off, dst + off)
        } else {
            seq![]
        };
        head + fields_copy_insts(t, s, k + 1, src, dst)
    } else {
        seq![]
    }
}

/// The stores (or copies) that commit a virtual value of type `ty` to
/// memory at `dst` bytes past a pointer: a scalar is stored; an
/// uncommitted aggregate is written field by field at the resolver's
/// offsets; a memory-resident aggregate is copied leaf by leaf.
pub open spec fn write_insts(t: LookupTable, m: ValueModel, ty: Ty, dst: int) -> Seq<Inst>
    decreases ty_rank(ty), 1int, 0int,
{
    match ty {
        Ty::Unit => seq![],
        Ty::Int => seq![(Inst::Store { offset: dst as u32 })],
        Ty::Struct(s) => {
            if s < t.aggregates@.len() {
                match m {
                    ValueModel::Scalar(_) => seq![],
                    ValueModel::Stack { type_id, base, offset } => copy_insts(
                        t,
                        ty,
                        offset as int,
                        dst,
                    ),
                    ValueModel::Unstable { type_id, fields } => fields_write_insts(
                        t,
                        fields,
                        s as int,
                        0,
                        dst,
                    ),
                }
            } else {
                seq![]
            }
        },
    }
}

/// The stores for fields `k..` of an uncommitted aggregate of type `s`.
pub open spec fn fields_write_insts(
    t: LookupTable,
    fields: Seq<ValueModel>,
    s: int,
    k: int,
    dst: int,
) -> Seq<Inst>
    decreases s + 1, 0int, agg_field_len(t, s) - k,
{
    if 0 <= s < t.aggregates@.len() && 0 <= k < agg_field_len(t, s) {
        let fty = field_ty(t, s, k);
        let head = if ty_rank(fty) <= s {
            write_insts(t, fields[k], fty, dst + spec_offset_of(t, s, k))
        } else {
            seq![]
        };
        head + fields_write_insts(t, fields, s, k + 1, dst)
    } else {
        seq![]
    }
}

/// A virtual value that holds no memory-resident part: flattening it needs
/// no loads.
pub open spec fn vv_all_unstable(m: ValueModel) -> bool
    decreases m, 0int,
{
    match m {
        ValueModel::Scalar(_) => true,
        ValueModel::Stack { .. } => false,
        ValueModel::Unstable { fields, .. } => all_unstable_fields(fields, 0),
    }
}

/// Whether the fields `k..` are all free of memory-resident parts.
pub open spec fn all_unstable_fields(fields: Seq<ValueModel>, k: int) -> bool
    decreases fields, fields.len() - k + 1int,
{
    if 0 <= k < fields.len() {
        vv_all_unstable(fields[k]) && all_unstable_fields(fields, k + 1)
    } else {
        true
    }
}

/// The flattened scalars of a virtual value, in declaration order
/// (memory-resident parts contribute nothing; they need loads instead).
pub open spec fn vv_scalars(m: ValueModel) -> Seq<cranelift::prelude::Value>
    decreases m, 0int,
{
    match m {
        ValueModel::Scalar(v) => seq![v],
        ValueModel::Stack { .. } => seq![],
        ValueModel::Unstable { fields, .. } => fields_scalars(fields, 0),
    }
}

/// The flattened scalars of the fields `k..`.
pub open spec fn fields_scalars(fields: Seq<ValueModel>, k: int) -> Seq<cranelift::prelude::Value>
    decreases fields, fields.len() - k + 1int,
{
    if 0 <= k < fields.len() {
        vv_scalars(fields[k]) + fields_scalars(fields, k + 1)
    } else {
        seq![]
    }
}

/// A run of ordinary emissions: the builder gained exactly `insts`, stayed
/// on the same open block, and kept its bookkeeping.
pub open spec fn fb_emits(
    a: cranelift::prelude::FunctionBuilder,
    b: cranelift::prelude::FunctionBuilder,
    insts: Seq<Inst>,
) -> bool {
    &&& emitted(b) == emitted(a) + insts
    &&& fb_frame(a, b)
    &&& fb_emittable(b)
    &&& fb_complete(b) == fb_complete(a)
}

/// An emission run of nothing.
pub proof fn lemma_emits_nothing(a: cranelift::prelude::FunctionBuilder)
    requires
        fb_emittable(a),
    ensures
        fb_emits(a, a, seq![]),
{
    assert(emitted(a) + Seq::<Inst>::empty() =~= emitted(a));
}

/// One appended instruction is an emission run of one.
pub proof fn lemma_emits_one(
    a: cranelift::prelude::FunctionBuilder,
    b: cranelift::prelude::FunctionBuilder,
    inst: Inst,
)
    requires
        fb_after_emit(a, b, inst),
    ensures
        fb_emits(a, b, seq![inst]),
{
    assert(emitted(a).push(inst) =~= emitted(a) + seq![inst]);
}

/// Emission runs compose.
pub proof fn lemma_emits_trans(
    a: cranelift::prelude::FunctionBuilder,
    b: cranelift::prelude::FunctionBuilder,
    c: cranelift::prelude::FunctionBuilder,
    s1: Seq<Inst>,
    s2: Seq<Inst>,
)
    requires
        fb_emits(a, b, s1),
        fb_emits(b, c, s2),
    ensures
        fb_emits(a, c, s1 + s2),
{
    assert((emitted(a) + s1) + s2 =~= emitted(a) + (s1 + s2));
}

/// A quiet builder operation extends any emission run by nothing.
pub proof fn lemma_emits_quiet(
    a: cranelift::prelude::FunctionBuilder,
    b: cranelift::prelude::FunctionBuilder,
)
    requires
        fb_quiet(a, b),
        fb_emittable(a),
    ensures
        fb_emits(a, b, seq![]),
{
    assert(emitted(a) + Seq::<Inst>::empty() =~= emitted(a));
}

/// An integer constant of the source language's scalar type.
pub fn int_const(fb: &mut cranelift::prelude::FunctionBuilder, n: i64) -> (r: VirtualValue)
    requires
        fb_emittable(*old(fb)),
    ensures
        fb_emits(*old(fb), *final(fb), seq![(Inst::Const { width: INT_BYTES, bits: n })]),
        r@ is Scalar,
{
    let v = emit_iconst(fb, INT_BYTES, n);
    proof {
        lemma_emits_one(*old(fb), *fb, (Inst::Const { width: INT_BYTES, bits: n }));
    }
    VirtualValue::Scalar(v)
}


/// Source-level integer addition: one add instruction over two scalar
/// values.
pub fn int_add(
    fb: &mut cranelift::prelude::FunctionBuilder,
    a: &VirtualValue,
    b: &VirtualValue,
) -> (r: VirtualValue)
    requires
        a@ is Scalar,
        b@ is Scalar,
        fb_emittable(*old(fb)),
    ensures
        fb_emits(*old(fb), *final(fb), seq![Inst::Add]),
        r@ is Scalar,
{
    let v = emit_iadd(fb, a.as_scalar(), b.as_scalar());
    proof {
        lemma_emits_one(*old(fb), *fb, Inst::Add);
    }
    VirtualValue::Scalar(v)
}

/// The pointer to the data `offset` bytes past `base`: the base itself
/// when the offset is zero, a pointer-wide offset constant and an add
/// otherwise.
pub fn pointer_value(
    fb: &mut cranelift::prelude::FunctionBuilder,
    ptr_bytes: u32,
    base: cranelift::prelude::Value,
    offset: u32,
) -> (r: cranelift::prelude::Value)
    requires
        crate::types::valid_width(ptr_bytes),
        fb_emittable(*old(fb)),
    ensures
        fb_emits(*old(fb), *final(fb), addr_insts(ptr_bytes, offset)),
{
    if offset == 0 {
        proof {
            lemma_emits_nothing(*fb);
        }
        base
    } else {
        let c = emit_iconst(fb, ptr_bytes, offset as i64);
        let ghost fb1 = *fb;
        let r = emit_iadd(fb, base, c);
        proof {
            lemma_emits_one(
                *old(fb),
                fb1,
                (Inst::Const { width: ptr_bytes, bits: offset as i64 }),
            );
            lemma_emits_one(fb1, *fb, Inst::Add);
            lemma_emits_trans(
                *old(fb),
                fb1,
                *fb,
                seq![(Inst::Const { width: ptr_bytes, bits: offset as i64 })],
                seq![Inst::Add],
            );
            assert(seq![(Inst::Const { width: ptr_bytes, bits: offset as i64 })] + seq![
                Inst::Add,
            ] =~= addr_insts(ptr_bytes, offset));
        }
        r
    }
}

/// Reserve stack space for one aggregate and take its address — a fresh
/// pointer, distinct from every stack address produced before: where an
/// uncommitted aggregate is materialized.
pub fn stack_alloc_struct(
    t: &LookupTable,
    fb: &mut cranelift::prelude::FunctionBuilder,
    s: usize,
) -> (r: cranelift::prelude::Value)
    requires
        table_wf(*t),
        s < t.aggregates@.len(),
        fb_emittable(*old(fb)),
    ensures
        fb_emits(
            *old(fb),
            *final(fb),
            seq![(Inst::StackAddr { width: t.ptr_bytes, size: spec_agg_size(*t, s) as u32 })],
        ),
        !fb_addrs(*old(fb)).contains(r),
        fb_addrs(*final(fb)) == fb_addrs(*old(fb)).insert(r),
{
    let size = t.size_of(Ty::Struct(s));
    let r = emit_stack_addr(fb, t.ptr_bytes, size);
    proof {
        lemma_emits_one(*old(fb), *fb, (Inst::StackAddr { width: t.ptr_bytes, size }));
    }
    r
}

/// Load every flattened scalar of a value of type `ty` sitting `at` bytes
/// past `src`, pushing the loaded scalars onto `buf` in declaration order:
/// how a memory-resident aggregate is recovered into registers.
pub fn deref_fields(
    t: &LookupTable,
    fb: &mut cranelift::prelude::FunctionBuilder,
    ty: Ty,
    src: cranelift::prelude::Value,
    at: u32,
    buf: &mut Vec<cranelift::prelude::Value>,
)
    requires
        table_wf(*t),
        ty_valid(*t, ty),
        at + spec_size_of(*t, ty) <= MAX_AGGREGATE_SIZE,
        fb_emittable(*old(fb)),
    ensures
        fb_emits(*old(fb), *final(fb), load_insts(*t, ty, at as int)),
        final(buf)@.len() == old(buf)@.len() + flat_widths(*t, ty).len(),
    decreases ty_rank(ty),
{
    match ty {
        Ty::Unit => {
            proof {
                lemma_emits_nothing(*fb);
                assert(load_insts(*t, ty, at as int) =~= Seq::<Inst>::empty());
                assert(flat_widths(*t, ty).len() == 0);
            }
        },
        Ty::Int => {
            proof {
                lemma_width_sum_nonneg(flat_widths(*t, ty).drop_first());
                assert(flat_widths(*t, ty) == seq![INT_BYTES]);
            }
            let v = emit_load(fb, INT_BYTES, src, at);
            buf.push(v);
            proof {
                lemma_emits_one(
                    *old(fb),
                    *fb,
                    (Inst::Load { width: INT_BYTES, offset: at }),
                );
                assert(load_insts(*t, ty, at as int) =~= seq![
                    (Inst::Load { width: INT_BYTES, offset: at }),
                ]);
            }
        },
        Ty::Struct(s) => {
            let flen = t.field_count(s);
            let ghost fb0 = *old(fb);
            let ghost mut pre: Seq<Inst> = seq![];
            let ghost buf0 = buf@;
            let mut k: usize = 0;
            proof {
                lemma_emits_nothing(*fb);
                lemma_size_is_field_sum(*t, s);
            }
            while k < flen
                invariant
                    table_wf(*t),
                    ty == Ty::Struct(s),
                    s < t.aggregates@.len(),
                    flen == agg_field_len(*t, s as int),
                    k <= flen,
                    at + spec_agg_size(*t, s) <= MAX_AGGREGATE_SIZE,
                    fb_emits(fb0, *fb, pre),
                    pre + fields_load_insts(*t, s as int, k as int, at as int)
                        == fields_load_insts(*t, s as int, 0, at as int),
                    buf@.len() == buf0.len() + fields_load_counts(*t, s as int, k as int),
                decreases flen - k,
            {
                let fty = t.type_of_field(s, k);
                let off = t.offset_of(s, k);
                proof {
                    lemma_offset_bounds(*t, s, k as int);
                    lemma_width_sum_nonneg(flat_widths(*t, fty));
                }
                let ghost fb1 = *fb;
                let ghost pre_old = pre;
                deref_fields(t, fb, fty, src, at + off, buf);
                proof {
                    lemma_emits_trans(
                        fb0,
                        fb1,
                        *fb,
                        pre,
                        load_insts(*t, fty, at as int + off),
                    );
                    pre = pre + load_insts(*t, fty, at as int + off);
                    assert(fields_load_insts(*t, s as int, k as int, at as int) == load_insts(
                        *t,
                        fty,
                        at as int + off,
                    ) + fields_load_insts(*t, s as int, k as int + 1, at as int));
                    assert(pre + fields_load_insts(*t, s as int, k as int + 1, at as int)
                        =~= pre_old + fields_load_insts(*t, s as int, k as int, at as int));
                }
                k = k + 1;
            }
            proof {
                assert(fields_load_insts(*t, s as int, flen as int, at as int) =~= Seq::<
                    Inst,
                >::empty());
                assert(pre =~= pre + fields_load_insts(*t, s as int, flen as int, at as int));
                assert(load_insts(*t, ty, at as int) == fields_load_insts(
                    *t,
                    s as int,
                    0,
                    at as int,
                ));
                lemma_load_counts_total(*t, s, flen as int);
                assert(fields_load_counts(*t, s as int, flen as int) == flat_widths(
                    *t,
                    Ty::Struct(s),
                ).len());
            }
        },
    }
}

/// Copy a value of type `ty` leaf by leaf from `src_at` bytes past `src`
/// to `dst_at` bytes past `dst`, loading and storing each scalar at the
/// same relative offset on both sides.
pub fn copy_struct_fields(
    t: &LookupTable,
    fb: &mut cranelift::prelude::FunctionBuilder,
    ty: Ty,
    src: cranelift::prelude::Value,
    src_at: u32,
    dst: cranelift::prelude::Value,
    dst_at: u32,
)
    requires
        table_wf(*t),
        ty_valid(*t, ty),
        src_at + spec_size_of(*t, ty) <= MAX_AGGREGATE_SIZE,
        dst_at + spec_size_of(*t, ty) <= MAX_AGGREGATE_SIZE,
        fb_emittable(*old(fb)),
    ensures
        fb_emits(*old(fb), *final(fb), copy_insts(*t, ty, src_at as int, dst_at as int)),
    decreases ty_rank(ty),
{
    match ty {
        Ty::Unit => {
            proof {
                lemma_emits_nothing(*fb);
                assert(copy_insts(*t, ty, src_at as int, dst_at as int) =~= Seq::<Inst>::empty());
            }
        },
        Ty::Int => {
            proof {
                lemma_width_sum_nonneg(flat_widths(*t, ty).drop_first());
                assert(flat_widths(*t, ty) == seq![INT_BYTES]);
            }
            let ghost fb0 = *old(fb);
            let v = emit_load(fb, INT_BYTES, src, src_at);
            let ghost fb1 = *fb;
            emit_store(fb, v, dst, dst_at);
            proof {
                lemma_emits_one(fb0, fb1, (Inst::Load { width: INT_BYTES, offset: src_at }));
                lemma_emits_one(fb1, *fb, (Inst::Store { offset: dst_at }));
                lemma_emits_trans(
                    fb0,
                    fb1,
                    *fb,
                    seq![(Inst::Load { width: INT_BYTES, offset: src_at })],
                    seq![(Inst::Store { offset: dst_at })],
                );
                assert(copy_insts(*t, ty, src_at as int, dst_at as int) =~= seq![
                    (Inst::Load { width: INT_BYTES, offset: src_at }),
                ] + seq![(Inst::Store { offset: dst_at })]);
            }
        },
        Ty::Struct(s) => {
            let flen = t.field_count(s);
            let ghost fb0 = *old(fb);
            let ghost mut pre: Seq<Inst> = seq![];
            let mut k: usize = 0;
            proof {
                lemma_emits_nothing(*fb);
                lemma_size_is_field_sum(*t, s);
            }
            while k < flen
                invariant
                    table_wf(*t),
                    ty == Ty::Struct(s),
                    s < t.aggregates@.len(),
                    flen == agg_field_len(*t, s as int),
                    k <= flen,
                    src_at + spec_agg_size(*t, s) <= MAX_AGGREGATE_SIZE,
                    dst_at + spec_agg_size(*t, s) <= MAX_AGGREGATE_SIZE,
                    fb_emits(fb0, *fb, pre),
                    pre + fields_copy_insts(*t, s as int, k as int, src_at as int, dst_at as int)
                        == fields_copy_insts(*t, s as int, 0, src_at as int, dst_at as int),
                decreases flen - k,
            {
                let fty = t.type_of_field(s, k);
                let off = t.offset_of(s, k);
                proof {
                    lemma_width_sum_nonneg(flat_widths(*t, fty));
                }
                let ghost fb1 = *fb;
                let ghost pre_old = pre;
                copy_struct_fields(t, fb, fty, src, src_at + off, dst, dst_at + off);
                proof {
                    lemma_emits_trans(
                        fb0,
                        fb1,
                        *fb,
                        pre,
                        copy_insts(*t, fty, src_at as int + off, dst_at as int + off),
                    );
                    pre = pre + copy_insts(*t, fty, src_at as int + off, dst_at as int + off);
                    assert(fields_copy_insts(*t, s as int, k as int, src_at as int, dst_at as int)
                        == copy_insts(*t, fty, src_at as int + off, dst_at as int + off)
                        + fields_copy_insts(
                        *t,
                        s as int,
                        k as int + 1,
                        src_at as int,
                        dst_at as int,
                    ));
                    assert(pre + fields_copy_insts(
                        *t,
                        s as int,
                        k as int + 1,
                        src_at as int,
                        dst_at as int,
                    ) =~= pre_old + fields_copy_insts(
                        *t,
                        s as int,
                        k as int,
                        src_at as int,
                        dst_at as int,
                    ));
                }
                k = k + 1;
            }
            proof {
                assert(fields_copy_insts(*t, s as int, flen as int, src_at as int, dst_at as int)
                    =~= Seq::<Inst>::empty());
                assert(pre =~= pre + fields_copy_insts(
                    *t,
                    s as int,
                    flen as int,
                    src_at as int,
                    dst_at as int,
                ));
            }
        },
    }
}

/// Commit a virtual value of type `ty` to memory at `dst_at` bytes past
/// `dst`: a scalar is stored at its offset, an uncommitted aggregate is
/// written field by field at the resolver's offsets, and a memory-resident
/// aggregate is copied leaf by leaf.
pub fn write_value(
    t: &LookupTable,
    fb: &mut cranelift::prelude::FunctionBuilder,
    ty: Ty,
    v: &VirtualValue,
    dst: cranelift::prelude::Value,
    dst_at: u32,
)
    requires
        table_wf(*t),
        ty_valid(*t, ty),
        vv_wf(*t, v@, ty),
        dst_at + spec_size_of(*t, ty) <= MAX_AGGREGATE_SIZE,
        fb_emittable(*old(fb)),
    ensures
        fb_emits(*old(fb), *final(fb), write_insts(*t, v@, ty, dst_at as int)),
    decreases ty_rank(ty),
{
    match ty {
        Ty::Unit => {
            proof {
                lemma_emits_nothing(*fb);
                assert(write_insts(*t, v@, ty, dst_at as int) =~= Seq::<Inst>::empty());
            }
        },
        Ty::Int => {
            proof {
                lemma_width_sum_nonneg(flat_widths(*t, ty).drop_first());
                assert(flat_widths(*t, ty) == seq![INT_BYTES]);
            }
            let sv = v.as_scalar();
            emit_store(fb, sv, dst, dst_at);
            proof {
                lemma_emits_one(*old(fb), *fb, (Inst::Store { offset: dst_at }));
            }
        },
        Ty::Struct(s) => {
            match v {
                VirtualValue::Scalar(_) => {
                    proof {
                        assert(v@ is Scalar);
                        assert(false);
                    }
                    unreached()
                },
                VirtualValue::StackAggregate { type_id, base, offset } => {
                    copy_struct_fields(t, fb, ty, *base, *offset, dst, dst_at);
                },
                VirtualValue::UnstableAggregate { type_id, fields } => {
                    let ghost models = vv_models(*fields, 0);
                    proof {
                        lemma_vv_models_index(*fields, 0);
                        assert(v@ == (ValueModel::Unstable { type_id: s, fields: models }));
                        lemma_size_is_field_sum(*t, s);
                    }
                    let flen = t.field_count(s);
                    proof {
                        assert(models.len() == agg_field_len(*t, s as int));
                        assert(fields@.len() == flen);
                    }
                    let ghost fb0 = *old(fb);
                    let ghost mut pre: Seq<Inst> = seq![];
                    let mut k: usize = 0;
                    proof {
                        lemma_emits_nothing(*fb);
                    }
                    while k < flen
                        invariant
                            table_wf(*t),
                            ty == Ty::Struct(s),
                            s < t.aggregates@.len(),
                            flen == agg_field_len(*t, s as int),
                            fields@.len() == flen,
                            models == vv_models(*fields, 0),
                            models.len() == flen,
                            vv_fields_wf(*t, models, s as int, 0),
                            k <= flen,
                            dst_at + spec_agg_size(*t, s) <= MAX_AGGREGATE_SIZE,
                            fb_emits(fb0, *fb, pre),
                            pre + fields_write_insts(*t, models, s as int, k as int, dst_at as int)
                                == fields_write_insts(*t, models, s as int, 0, dst_at as int),
                        decreases flen - k,
                    {
                        let fty = t.type_of_field(s, k);
                        let off = t.offset_of(s, k);
                        proof {
                            lemma_width_sum_nonneg(flat_widths(*t, fty));
                            lemma_vv_fields_wf_at(*t, models, s as int, 0, k as int);
                            lemma_vv_models_index(*fields, 0);
                            assert(models[k as int] == fields@[k as int]@);
                        }
                        let ghost fb1 = *fb;
                        let ghost pre_old = pre;
                        write_value(t, fb, fty, &fields[k], dst, dst_at + off);
                        proof {
                            lemma_emits_trans(
                                fb0,
                                fb1,
                                *fb,
                                pre,
                                write_insts(*t, models[k as int], fty, dst_at as int + off),
                            );
                            pre = pre + write_insts(*t, models[k as int], fty, dst_at as int + off);
                            assert(fields_write_insts(
                                *t,
                                models,
                                s as int,
                                k as int,
                                dst_at as int,
                            ) == write_insts(*t, models[k as int], fty, dst_at as int + off)
                                + fields_write_insts(
                                *t,
                                models,
                                s as int,
                                k as int + 1,
                                dst_at as int,
                            ));
                            assert(pre + fields_write_insts(
                                *t,
                                models,
                                s as int,
                                k as int + 1,
                                dst_at as int,
                            ) =~= pre_old + fields_write_insts(
                                *t,
                                models,
                                s as int,
                                k as int,
                                dst_at as int,
                            ));
                        }
                        k = k + 1;
                    }
                    proof {
                        assert(fields_write_insts(*t, models, s as int, flen as int, dst_at as int)
                            =~= Seq::<Inst>::empty());
                        assert(pre =~= pre + fields_write_insts(
                            *t,
                            models,
                            s as int,
                            flen as int,
                            dst_at as int,
                        ));
                    }
                },
            }
        },
    }
}

/// Write one field of an aggregate being materialized: the value lands at
/// the field's resolver offset past the destination pointer.
pub fn write_struct_field(
    t: &LookupTable,
    fb: &mut cranelift::prelude::FunctionBuilder,
    s: usize,
    field: usize,
    ptr: cranelift::prelude::Value,
    v: &VirtualValue,
)
    requires
        table_wf(*t),
        s < t.aggregates@.len(),
        field < agg_field_len(*t, s as int),
        vv_wf(*t, v@, field_ty(*t, s as int, field as int)),
        fb_emittable(*old(fb)),
    ensures
        fb_emits(
            *old(fb),
            *final(fb),
            write_insts(
                *t,
                v@,
                field_ty(*t, s as int, field as int),
                spec_offset_of(*t, s as int, field as int),
            ),
        ),
{
    let fty = t.type_of_field(s, field);
    let off = t.offset_of(s, field);
    proof {
        assert(spec_agg_size(*t, s) <= MAX_AGGREGATE_SIZE);
        lemma_width_sum_nonneg(flat_widths(*t, fty));
    }
    write_value(t, fb, fty, v, ptr, off);
}

/// How many scalars loading fields `0..k` of aggregate `s` pushes.
pub open spec fn fields_load_counts(t: LookupTable, s: int, k: int) -> int
    decreases k,
{
    if k <= 0 {
        0
    } else {
        fields_load_counts(t, s, k - 1) + flat_widths(t, field_ty(t, s, k - 1)).len()
    }
}

/// Loading every field loads exactly the aggregate's flattened scalars.
pub proof fn lemma_load_counts_total(t: LookupTable, s: usize, k: int)
    requires
        table_wf(t),
        s < t.aggregates@.len(),
        0 <= k <= agg_field_len(t, s as int),
    ensures
        fields_load_counts(t, s as int, k) + crate::types::fields_flat_widths(
            t,
            s as int,
            k,
        ).len() == flat_widths(t, Ty::Struct(s)).len(),
    decreases k,
{
    assert(agg_wf(t, s as int));
    if k > 0 {
        lemma_load_counts_total(t, s, k - 1);
        let fty = field_ty(t, s as int, k - 1);
        assert(ty_rank(fty) <= s);
        assert(crate::types::fields_flat_widths(t, s as int, k - 1) == flat_widths(t, fty)
            + crate::types::fields_flat_widths(t, s as int, k));
    }
}

/// Every declared field of aggregate `s` has a binding.
pub open spec fn all_fields_bound(
    t: LookupTable,
    s: int,
    bindings: Seq<(String, VirtualValue)>,
) -> bool {
    forall|i: int|
        0 <= i < agg_field_len(t, s) ==> #[trigger] binding_for(
            bindings,
            field_name(t, s, i),
        ) is Some
}

/// Every bound field value is well formed for its declared field type.
pub open spec fn bindings_wf(t: LookupTable, s: int, bindings: Seq<(String, VirtualValue)>) -> bool {
    forall|i: int|
        0 <= i < agg_field_len(t, s) ==> match #[trigger] binding_for(
            bindings,
            field_name(t, s, i),
        ) {
            Some(m) => vv_wf(t, m, field_ty(t, s, i)),
            None => true,
        }
}

/// Construct an aggregate value from named field bindings, looked up
/// order-independently by name. No memory is touched: the result is an
/// uncommitted aggregate holding the bound values in declaration order.
/// Construction succeeds exactly when every declared field is supplied.
pub fn construct_struct(
    t: &LookupTable,
    s: usize,
    bindings: &Vec<(String, VirtualValue)>,
) -> (r: Option<VirtualValue>)
    requires
        table_wf(*t),
        s < t.aggregates@.len(),
    ensures
        r is Some <==> all_fields_bound(*t, s as int, bindings@),
        match r {
            Some(vv) => {
                &&& vv@ matches ValueModel::Unstable { type_id, fields }
                &&& vv_type_id(vv@) == s
                &&& vv_field_count(vv@) == agg_field_len(*t, s as int)
                &&& (forall|i: int|
                    0 <= i < agg_field_len(*t, s as int) ==> Some(
                        #[trigger] vv_field(vv@, i),
                    ) == binding_for(bindings@, field_name(*t, s as int, i)))
                &&& (bindings_wf(*t, s as int, bindings@) ==> vv_wf(*t, vv@, Ty::Struct(s)))
            },
            None => true,
        },
{
    let flen = t.field_count(s);
    let mut out: Vec<VirtualValue> = Vec::new();
    let mut k: usize = 0;
    while k < flen
        invariant
            table_wf(*t),
            s < t.aggregates@.len(),
            flen == agg_field_len(*t, s as int),
            k <= flen,
            out@.len() == k,
            forall|j: int|
                0 <= j < k ==> Some((#[trigger] out@[j])@) == binding_for(
                    bindings@,
                    field_name(*t, s as int, j),
                ),
        decreases flen - k,
    {
        let name = &t.aggregates[s].fields[k].name;
        proof {
            assert(name@ == field_name(*t, s as int, k as int));
        }
        match crate::value::find_binding(bindings, name) {
            Some(v) => {
                out.push(v);
            },
            None => {
                return None;
            },
        }
        k = k + 1;
    }
    let r = VirtualValue::UnstableAggregate { type_id: s, fields: out };
    proof {
        assert forall|i: int|
            0 <= i < agg_field_len(*t, s as int) implies #[trigger] binding_for(
            bindings@,
            field_name(*t, s as int, i),
        ) is Some by {
            assert(Some(out@[i]@) == binding_for(bindings@, field_name(*t, s as int, i)));
        }
        lemma_vv_models_index(out, 0);
        let models = vv_models(out, 0);
        assert(r@ == (ValueModel::Unstable { type_id: s, fields: models }));
        assert forall|i: int| 0 <= i < agg_field_len(*t, s as int) implies Some(
            #[trigger] vv_field(r@, i),
        ) == binding_for(bindings@, field_name(*t, s as int, i)) by {
            assert(models[i] == out@[i]@);
        }
        if bindings_wf(*t, s as int, bindings@) {
            assert(agg_wf(*t, s as int));
            assert forall|i: int| 0 <= i < agg_field_len(*t, s as int) implies vv_wf(
                *t,
                #[trigger] models[i],
                field_ty(*t, s as int, i),
            ) by {
                assert(models[i] == out@[i]@);
                assert(Some(models[i]) == binding_for(bindings@, field_name(*t, s as int, i)));
            }
            lemma_vv_fields_wf_build(*t, models, s as int, 0);
        }
    }
    Some(r)
}

/// How many fields an uncommitted aggregate holds.
pub open spec fn vv_field_count(m: ValueModel) -> int {
    match m {
        ValueModel::Unstable { fields, .. } => fields.len() as int,
        _ => 0,
    }
}

/// What destructuring field `field` emits: nothing for an uncommitted
/// aggregate or for a nested-aggregate or unit field of a materialized one
/// (those stay lazy), and exactly one load at the field's resolver offset
/// for a scalar field of a materialized aggregate.
pub open spec fn destruct_insts(t: LookupTable, m: ValueModel, field: int) -> Seq<Inst> {
    match m {
        ValueModel::Stack { type_id, base, offset } => {
            match field_ty(t, type_id as int, field) {
                Ty::Int => seq![
                    (Inst::Load {
                        width: INT_BYTES,
                        offset: (offset + spec_offset_of(t, type_id as int, field)) as u32,
                    }),
                ],
                _ => seq![],
            }
        },
        _ => seq![],
    }
}

/// Field access. From an uncommitted aggregate the stored sub-value comes
/// back directly, with no instruction emitted. From a materialized
/// aggregate, a scalar field is loaded at its resolver offset, and a
/// nested-aggregate field becomes another materialized value whose offset
/// is the sum — lazy pointer arithmetic, no copy. Destructuring a scalar
/// is a lowering-logic bug and is excluded.
pub fn destruct_field(
    t: &LookupTable,
    fb: &mut cranelift::prelude::FunctionBuilder,
    of: &VirtualValue,
    field: usize,
) -> (r: VirtualValue)
    requires
        table_wf(*t),
        !(of@ is Scalar),
        vv_wf(*t, of@, Ty::Struct(vv_type_id(of@))),
        field < agg_field_len(*t, vv_type_id(of@) as int),
        fb_emittable(*old(fb)),
    ensures
        fb_emits(*old(fb), *final(fb), destruct_insts(*t, of@, field as int)),
        vv_wf(*t, r@, field_ty(*t, vv_type_id(of@) as int, field as int)),
        of@ is Unstable ==> r@ == vv_field(of@, field as int),
        of@ matches ValueModel::Stack { type_id, base, offset } ==> match field_ty(
            *t,
            type_id as int,
            field as int,
        ) {
            Ty::Struct(s2) => r@ == (ValueModel::Stack {
                type_id: s2,
                base: base,
                offset: (offset + spec_offset_of(*t, type_id as int, field as int)) as u32,
            }),
            Ty::Int => r@ is Scalar,
            Ty::Unit => vv_is_unit(r@),
        },
{
    let ghost s = vv_type_id(of@);
    match of {
        VirtualValue::Scalar(_) => {
            proof {
                assert(false);
            }
            unreached()
        },
        VirtualValue::UnstableAggregate { type_id, fields } => {
            proof {
                lemma_vv_models_index(*fields, 0);
                lemma_vv_fields_wf_at(*t, vv_models(*fields, 0), s as int, 0, field as int);
                lemma_emits_nothing(*fb);
                assert(destruct_insts(*t, of@, field as int) =~= Seq::<Inst>::empty());
            }
            fields[field].duplicate()
        },
        VirtualValue::StackAggregate { type_id, base, offset } => {
            let fty = t.type_of_field(*type_id, field);
            let off = t.offset_of(*type_id, field);
            proof {
                lemma_width_sum_nonneg(flat_widths(*t, fty));
                assert(spec_size_of(*t, fty) >= 0);
            }
            match fty {
                Ty::Unit => {
                    let r = VirtualValue::unit();
                    proof {
                        lemma_emits_nothing(*fb);
                        assert(destruct_insts(*t, of@, field as int) =~= Seq::<Inst>::empty());
                    }
                    r
                },
                Ty::Int => {
                    let v = emit_load(fb, INT_BYTES, *base, *offset + off);
                    proof {
                        lemma_emits_one(
                            *old(fb),
                            *fb,
                            (Inst::Load { width: INT_BYTES, offset: ((*offset + off) as u32) }),
                        );
                        assert(destruct_insts(*t, of@, field as int) =~= seq![
                            (Inst::Load { width: INT_BYTES, offset: ((*offset + off) as u32) }),
                        ]);
                    }
                    VirtualValue::Scalar(v)
                },
                Ty::Struct(s2) => {
                    proof {
                        lemma_emits_nothing(*fb);
                        assert(destruct_insts(*t, of@, field as int) =~= Seq::<Inst>::empty());
                        assert(spec_size_of(*t, fty) == spec_agg_size(*t, s2));
                    }
                    VirtualValue::StackAggregate { type_id: s2, base: *base, offset: *offset + off }
                },
            }
        },
    }
}

/// Round trip for uncommitted aggregates: constructing an aggregate from
/// bound values and then destructuring any field yields back exactly the
/// value that was bound to that field's name — and, by the contract of
/// `destruct_field`, without emitting a single instruction.
pub proof fn lemma_unstable_round_trip(
    t: LookupTable,
    s: usize,
    bindings: Seq<(String, VirtualValue)>,
    m: ValueModel,
    i: int,
)
    requires
        table_wf(t),
        s < t.aggregates@.len(),
        vv_type_id(m) == s,
        m is Unstable,
        forall|j: int|
            0 <= j < agg_field_len(t, s as int) ==> Some(#[trigger] vv_field(m, j))
                == binding_for(bindings, field_name(t, s as int, j)),
        0 <= i < agg_field_len(t, s as int),
    ensures
        Some(vv_field(m, i)) == binding_for(bindings, field_name(t, s as int, i)),
        destruct_insts(t, m, i) == Seq::<Inst>::empty(),
{
}

/// Round trip for materialized aggregates, at the offset level: the load
/// that `destruct_field` emits for a scalar field reads at exactly the
/// offset at which `write_struct_field` stores that field during
/// materialization — the field's resolver offset.
pub proof fn lemma_materialized_round_trip(
    t: LookupTable,
    s: usize,
    i: int,
    base: cranelift::prelude::Value,
    v: cranelift::prelude::Value,
)
    requires
        table_wf(t),
        s < t.aggregates@.len(),
        0 <= i < agg_field_len(t, s as int),
        field_ty(t, s as int, i) == Ty::Int,
    ensures
        destruct_insts(t, (ValueModel::Stack { type_id: s, base: base, offset: 0 }), i) == seq![
            (Inst::Load {
                width: INT_BYTES,
                offset: spec_offset_of(t, s as int, i) as u32,
            }),
        ],
        write_insts(
            t,
            ValueModel::Scalar(v),
            field_ty(t, s as int, i),
            spec_offset_of(t, s as int, i),
        ) == seq![(Inst::Store { offset: spec_offset_of(t, s as int, i) as u32 })],
{
    assert(destruct_insts(t, (ValueModel::Stack { type_id: s, base: base, offset: 0 }), i)
        =~= seq![
        (Inst::Load { width: INT_BYTES, offset: spec_offset_of(t, s as int, i) as u32 }),
    ]);
    assert(write_insts(
        t,
        ValueModel::Scalar(v),
        field_ty(t, s as int, i),
        spec_offset_of(t, s as int, i),
    ) =~= seq![(Inst::Store { offset: spec_offset_of(t, s as int, i) as u32 })]);
}

/// The memory offset a materialized aggregate carries.
pub open spec fn stack_offset(m: ValueModel) -> u32 {
    match m {
        ValueModel::Stack { offset, .. } => offset,
        _ => 0,
    }
}


/// The widths of the block parameters one declared parameter receives:
/// one pointer for a root aggregate passing by pointer, and one entry per
/// flattened leaf scalar otherwise.
pub open spec fn param_block_widths(t: LookupTable, ty: Ty, is_root: bool) -> Seq<u32> {
    match ty {
        Ty::Unit => seq![],
        Ty::Int => seq![INT_BYTES],
        Ty::Struct(s) => {
            if is_root && spec_mode(t, s) == Mode::ByPointer {
                seq![t.ptr_bytes]
            } else {
                flat_widths(t, ty)
            }
        },
    }
}

/// The widths received by the declared parameters `k..`, all at the root.
pub open spec fn params_block_widths(t: LookupTable, ps: Seq<Ty>, k: int) -> Seq<u32>
    decreases ps.len() - k,
{
    if 0 <= k < ps.len() {
        param_block_widths(t, ps[k], true) + params_block_widths(t, ps, k + 1)
    } else {
        seq![]
    }
}

/// Below the root, a declared parameter's block widths are exactly its
/// flattened scalar widths.
pub proof fn lemma_param_widths_nonroot(t: LookupTable, ty: Ty)
    ensures
        param_block_widths(t, ty, false) == flat_widths(t, ty),
{
    match ty {
        Ty::Unit => {
            assert(param_block_widths(t, ty, false) =~= flat_widths(t, ty));
        },
        Ty::Int => {
            assert(param_block_widths(t, ty, false) =~= flat_widths(t, ty));
        },
        Ty::Struct(s) => {},
    }
}

/// A run of operations that appends `added` parameters to the block `blk`
/// and touches nothing else of the builder.
pub open spec fn fb_appends(
    a: cranelift::prelude::FunctionBuilder,
    b: cranelift::prelude::FunctionBuilder,
    blk: cranelift::prelude::Block,
    added: Seq<u32>,
) -> bool {
    &&& emitted(b) == emitted(a)
    &&& fb_params(b) == fb_params(a)
    &&& fb_block_count(b) == fb_block_count(a)
    &&& fb_addrs(b) == fb_addrs(a)
    &&& fb_emittable(b) == fb_emittable(a)
    &&& fb_ready(b) == fb_ready(a)
    &&& fb_complete(b) == fb_complete(a)
    &&& fb_block_widths(b, blk) == fb_block_widths(a, blk) + added
    &&& (forall|b2: cranelift::prelude::Block|
        b2 != blk ==> fb_block_widths(b, b2) == fb_block_widths(a, b2))
    &&& (forall|b2: cranelift::prelude::Block| fb_is_current(b, b2) == fb_is_current(a, b2))
    &&& (forall|b2: cranelift::prelude::Block| fb_virgin(b, b2) == fb_virgin(a, b2))
    &&& (forall|b2: cranelift::prelude::Block| fb_sealed(b, b2) == fb_sealed(a, b2))
    &&& (forall|b2: cranelift::prelude::Block| fb_untargeted(b, b2) == fb_untargeted(a, b2))
}

/// A run that appends nothing.
pub proof fn lemma_appends_nothing(
    a: cranelift::prelude::FunctionBuilder,
    blk: cranelift::prelude::Block,
)
    ensures
        fb_appends(a, a, blk, seq![]),
{
    assert(fb_block_widths(a, blk) + Seq::<u32>::empty() =~= fb_block_widths(a, blk));
}

/// Appending runs compose.
pub proof fn lemma_appends_trans(
    a: cranelift::prelude::FunctionBuilder,
    b: cranelift::prelude::FunctionBuilder,
    c: cranelift::prelude::FunctionBuilder,
    blk: cranelift::prelude::Block,
    s1: Seq<u32>,
    s2: Seq<u32>,
)
    requires
        fb_appends(a, b, blk, s1),
        fb_appends(b, c, blk, s2),
    ensures
        fb_appends(a, c, blk, s1 + s2),
{
    assert((fb_block_widths(a, blk) + s1) + s2 =~= fb_block_widths(a, blk) + (s1 + s2));
}

/// Turn one declared parameter into its virtual value, appending the block
/// parameters the backend signature gives it: one scalar per flattened
/// leaf, or a single pointer parameter for a root aggregate that passes
/// by pointer. No instruction is emitted.
pub fn param_to_virtual_value(
    t: &LookupTable,
    fb: &mut cranelift::prelude::FunctionBuilder,
    block: cranelift::prelude::Block,
    is_root: bool,
    ty: Ty,
) -> (r: VirtualValue)
    requires
        table_wf(*t),
        ty_valid(*t, ty),
        fb_virgin(*old(fb), block),
    ensures
        fb_appends(*old(fb), *final(fb), block, param_block_widths(*t, ty, is_root)),
        vv_wf(*t, r@, ty),
        (ty is Struct && is_root && spec_mode(*t, ty->Struct_0) == Mode::ByPointer) ==> (r@
            is Stack && vv_type_id(r@) == ty->Struct_0 && stack_offset(r@) == 0),
    decreases ty_rank(ty),
{
    match ty {
        Ty::Unit => {
            let r = VirtualValue::unit();
            proof {
                lemma_appends_nothing(*fb, block);
                assert(param_block_widths(*t, ty, is_root) =~= Seq::<u32>::empty());
            }
            r
        },
        Ty::Int => {
            let v = append_block_param(fb, block, INT_BYTES);
            proof {
                assert(fb_block_widths(*old(fb), block).push(INT_BYTES) =~= fb_block_widths(
                    *old(fb),
                    block,
                ) + param_block_widths(*t, ty, is_root));
            }
            VirtualValue::Scalar(v)
        },
        Ty::Struct(s) => {
            let mode = t.passing_mode(s);
            if is_root && mode == Mode::ByPointer {
                let ptr = append_block_param(fb, block, t.ptr_bytes);
                let r = VirtualValue::StackAggregate { type_id: s, base: ptr, offset: 0 };
                proof {
                    assert(spec_agg_size(*t, s) <= MAX_AGGREGATE_SIZE);
                    assert(fb_block_widths(*old(fb), block).push(t.ptr_bytes)
                        =~= fb_block_widths(*old(fb), block) + param_block_widths(
                        *t,
                        ty,
                        is_root,
                    ));
                }
                r
            } else {
                let flen = t.field_count(s);
                let mut out: Vec<VirtualValue> = Vec::new();
                let mut k: usize = 0;
                let ghost fb0 = *old(fb);
                let ghost mut acc: Seq<u32> = seq![];
                proof {
                    lemma_appends_nothing(*fb, block);
                }
                while k < flen
                    invariant
                        table_wf(*t),
                        ty == Ty::Struct(s),
                        s < t.aggregates@.len(),
                        flen == agg_field_len(*t, s as int),
                        k <= flen,
                        out@.len() == k,
                        fb_virgin(*fb, block),
                        fb_appends(fb0, *fb, block, acc),
                        acc + crate::types::fields_flat_widths(*t, s as int, k as int)
                            == crate::types::fields_flat_widths(*t, s as int, 0),
                        forall|j: int|
                            0 <= j < k ==> vv_wf(
                                *t,
                                (#[trigger] out@[j])@,
                                field_ty(*t, s as int, j),
                            ),
                    decreases flen - k,
                {
                    let fty = t.type_of_field(s, k);
                    let ghost fb1 = *fb;
                    let ghost acc_old = acc;
                    let sub = param_to_virtual_value(t, fb, block, false, fty);
                    out.push(sub);
                    proof {
                        lemma_param_widths_nonroot(*t, fty);
                        lemma_appends_trans(fb0, fb1, *fb, block, acc, flat_widths(*t, fty));
                        acc = acc + flat_widths(*t, fty);
                        assert(agg_wf(*t, s as int));
                        assert(crate::types::fields_flat_widths(*t, s as int, k as int)
                            == flat_widths(*t, fty) + crate::types::fields_flat_widths(
                            *t,
                            s as int,
                            k as int + 1,
                        ));
                        assert(acc + crate::types::fields_flat_widths(
                            *t,
                            s as int,
                            k as int + 1,
                        ) =~= acc_old + crate::types::fields_flat_widths(*t, s as int, k as int));
                    }
                    k = k + 1;
                }
                let r = VirtualValue::UnstableAggregate { type_id: s, fields: out };
                proof {
                    assert(crate::types::fields_flat_widths(*t, s as int, flen as int) =~= Seq::<
                        u32,
                    >::empty());
                    assert(acc =~= acc + crate::types::fields_flat_widths(
                        *t,
                        s as int,
                        flen as int,
                    ));
                    assert(flat_widths(*t, ty) == crate::types::fields_flat_widths(
                        *t,
                        s as int,
                        0,
                    ));
                    lemma_vv_models_index(out, 0);
                    let models = vv_models(out, 0);
                    assert forall|i: int|
                        0 <= i < agg_field_len(*t, s as int) implies vv_wf(
                        *t,
                        #[trigger] models[i],
                        field_ty(*t, s as int, i),
                    ) by {
                        assert(models[i] == out@[i]@);
                    }
                    assert(agg_wf(*t, s as int));
                    lemma_vv_fields_wf_build(*t, models, s as int, 0);
                }
                r
            }
        },
    }
}

/// The parameter widths a function's entry block carries: the
/// struct-return pointer first, when the declared signature demands one,
/// then each declared parameter's block parameters in order.
pub open spec fn entry_block_widths(t: LookupTable, ps: Seq<Ty>, sret: bool) -> Seq<u32> {
    let lead = if sret {
        seq![t.ptr_bytes]
    } else {
        seq![]
    };
    lead + params_block_widths(t, ps, 0)
}

/// Create and seal a function's entry block, mapping each declared
/// parameter to its virtual value: exactly one block parameter per lowered
/// signature entry, with the struct-return pointer leading when the
/// declared signature carries one (that pointer comes back for the return
/// lowering to use). The insertion point is not moved: the caller enters
/// the block.
pub fn create_entry_block(
    t: &LookupTable,
    fb: &mut cranelift::prelude::FunctionBuilder,
    params: &Vec<Ty>,
) -> (r: (cranelift::prelude::Block, Vec<VirtualValue>, Option<cranelift::prelude::Value>))
    requires
        table_wf(*t),
        forall|i: int| 0 <= i < params@.len() ==> ty_valid(*t, #[trigger] params@[i]),
    ensures
        emitted(*final(fb)) == emitted(*old(fb)),
        fb_params(*final(fb)) == fb_params(*old(fb)),
        fb_block_count(*final(fb)) == fb_block_count(*old(fb)) + 1,
        fb_addrs(*final(fb)) == fb_addrs(*old(fb)),
        fb_emittable(*final(fb)) == fb_emittable(*old(fb)),
        fb_ready(*final(fb)) == fb_ready(*old(fb)),
        fb_complete(*final(fb)) == fb_complete(*old(fb)),
        fb_virgin(*final(fb), r.0),
        fb_sealed(*final(fb), r.0),
        fb_untargeted(*final(fb), r.0),
        !fb_is_current(*final(fb), r.0),
        forall|blk: cranelift::prelude::Block|
            blk != r.0 ==> fb_is_current(*final(fb), blk) == fb_is_current(*old(fb), blk),
        forall|blk: cranelift::prelude::Block|
            blk != r.0 ==> fb_virgin(*final(fb), blk) == fb_virgin(*old(fb), blk),
        fb_block_widths(*final(fb), r.0) == entry_block_widths(
            *t,
            params@,
            exists|j: int|
                0 <= j < fb_params(*old(fb)).len() && (#[trigger] fb_params(*old(fb))[j]).1,
        ),
        r.1@.len() == params@.len(),
        forall|i: int| 0 <= i < params@.len() ==> vv_wf(*t, (#[trigger] r.1@[i])@, params@[i]),
        r.2 is Some <==> exists|j: int|
            0 <= j < fb_params(*old(fb)).len() && (#[trigger] fb_params(*old(fb))[j]).1,
{
    let block = create_block(fb);
    seal_block(fb, block);
    let ghost fb_start = *fb;
    let mut sret: Option<cranelift::prelude::Value> = None;
    let ghost mut lead: Seq<u32> = seq![];
    if uses_struct_return_param(fb) {
        let ghost fbA = *fb;
        let p = append_block_param(fb, block, t.ptr_bytes);
        sret = Some(p);
        proof {
            lead = seq![t.ptr_bytes];
            assert(fb_block_widths(fbA, block).push(t.ptr_bytes) =~= fb_block_widths(
                fbA,
                block,
            ) + lead);
            assert(fb_appends(fb_start, *fb, block, lead));
        }
    } else {
        proof {
            lemma_appends_nothing(*fb, block);
        }
    }
    let ghost fb_lead = *fb;

    let n = params.len();
    let mut vparams: Vec<VirtualValue> = Vec::new();
    let mut k: usize = 0;
    let ghost mut acc: Seq<u32> = seq![];
    proof {
        lemma_appends_nothing(*fb, block);
    }
    while k < n
        invariant
            table_wf(*t),
            n == params@.len(),
            forall|i: int| 0 <= i < params@.len() ==> ty_valid(*t, #[trigger] params@[i]),
            k <= n,
            vparams@.len() == k,
            fb_virgin(*fb, block),
            fb_appends(fb_lead, *fb, block, acc),
            acc + params_block_widths(*t, params@, k as int) == params_block_widths(
                *t,
                params@,
                0,
            ),
            forall|j: int|
                0 <= j < k ==> vv_wf(*t, (#[trigger] vparams@[j])@, params@[j]),
        decreases n - k,
    {
        let ghost fb1 = *fb;
        let ghost acc_old = acc;
        let vv = param_to_virtual_value(t, fb, block, true, params[k]);
        vparams.push(vv);
        proof {
            lemma_appends_trans(
                fb_lead,
                fb1,
                *fb,
                block,
                acc,
                param_block_widths(*t, params@[k as int], true),
            );
            acc = acc + param_block_widths(*t, params@[k as int], true);
            assert(params_block_widths(*t, params@, k as int) == param_block_widths(
                *t,
                params@[k as int],
                true,
            ) + params_block_widths(*t, params@, k as int + 1));
            assert(acc + params_block_widths(*t, params@, k as int + 1) =~= acc_old
                + params_block_widths(*t, params@, k as int));
        }
        k = k + 1;
    }
    proof {
        assert(params_block_widths(*t, params@, n as int) =~= Seq::<u32>::empty());
        assert(acc =~= acc + params_block_widths(*t, params@, n as int));
        lemma_appends_trans(fb_start, fb_lead, *fb, block, lead, acc);
        assert(fb_block_widths(fb_start, block) =~= Seq::<u32>::empty());
        assert(fb_block_widths(*fb, block) =~= lead + acc);
    }
    (block, vparams, sret)
}

/// How a type crosses a call boundary: flattened into scalars (always, for
/// the unit and integer types) or behind one pointer.
pub open spec fn marshal_mode(t: LookupTable, ty: Ty) -> Mode {
    match ty {
        Ty::Struct(s) => spec_mode(t, s),
        _ => Mode::ByScalars,
    }
}

/// How many backend call arguments a value of type `ty` becomes.
pub open spec fn marshal_count(t: LookupTable, ty: Ty) -> int {
    match ty {
        Ty::Unit => 0,
        Ty::Int => 1,
        Ty::Struct(s) => if spec_mode(t, s) == Mode::ByPointer {
            1
        } else {
            flat_widths(t, ty).len() as int
        },
    }
}

/// What marshalling a virtual value into call arguments emits: nothing for
/// scalars already in registers; the flattening loads for a materialized
/// aggregate passed by scalars; the address computation for one passed by
/// pointer; and, for an uncommitted aggregate passed by pointer, a fresh
/// stack allocation followed by the stores that materialize every field.
pub open spec fn marshal_insts(t: LookupTable, m: ValueModel, ty: Ty) -> Seq<Inst>
    decreases ty_rank(ty), 1int, 0int,
{
    match ty {
        Ty::Unit => seq![],
        Ty::Int => seq![],
        Ty::Struct(s) => {
            if s < t.aggregates@.len() {
                match m {
                    ValueModel::Scalar(_) => seq![],
                    ValueModel::Stack { type_id, base, offset } => {
                        if spec_mode(t, s) == Mode::ByScalars {
                            load_insts(t, ty, offset as int)
                        } else {
                            addr_insts(t.ptr_bytes, offset)
                        }
                    },
                    ValueModel::Unstable { type_id, fields } => {
                        if spec_mode(t, s) == Mode::ByScalars {
                            fields_marshal_insts(t, fields, s as int, 0)
                        } else {
                            seq![
                                (Inst::StackAddr {
                                    width: t.ptr_bytes,
                                    size: spec_agg_size(t, s) as u32,
                                }),
                            ] + fields_write_insts(t, fields, s as int, 0, 0)
                        }
                    },
                }
            } else {
                seq![]
            }
        },
    }
}

/// The marshalling of fields `k..` of an uncommitted aggregate passed by
/// scalars, each by its own mode.
pub open spec fn fields_marshal_insts(
    t: LookupTable,
    fields: Seq<ValueModel>,
    s: int,
    k: int,
) -> Seq<Inst>
    decreases s + 1, 0int, agg_field_len(t, s) - k,
{
    if 0 <= s < t.aggregates@.len() && 0 <= k < agg_field_len(t, s) {
        let fty = field_ty(t, s, k);
        let head = if ty_rank(fty) <= s {
            marshal_insts(t, fields[k], fty)
        } else {
            seq![]
        };
        head + fields_marshal_insts(t, fields, s, k + 1)
    } else {
        seq![]
    }
}

/// How many call arguments fields `0..k` contribute.
pub open spec fn fields_marshal_counts(t: LookupTable, s: int, k: int) -> int
    decreases k,
{
    if k <= 0 {
        0
    } else {
        fields_marshal_counts(t, s, k - 1) + marshal_count(t, field_ty(t, s, k - 1))
    }
}

/// The flattened widths of every field are part of the aggregate's, so a
/// field of a by-scalars aggregate is itself by-scalars.
pub proof fn lemma_field_flat_le(t: LookupTable, s: usize, k: int)
    requires
        table_wf(t),
        s < t.aggregates@.len(),
        0 <= k < agg_field_len(t, s as int),
    ensures
        flat_widths(t, field_ty(t, s as int, k)).len() <= flat_widths(t, Ty::Struct(s)).len(),
        spec_mode(t, s) == Mode::ByScalars ==> marshal_mode(t, field_ty(t, s as int, k))
            == Mode::ByScalars,
        spec_mode(t, s) == Mode::ByScalars ==> marshal_count(t, field_ty(t, s as int, k))
            == flat_widths(t, field_ty(t, s as int, k)).len(),
{
    assert(agg_wf(t, s as int));
    lemma_load_counts_total(t, s, k);
    lemma_load_counts_nonneg(t, s, k);
    let fty = field_ty(t, s as int, k);
    assert(ty_rank(fty) <= s);
    assert(crate::types::fields_flat_widths(t, s as int, k) == flat_widths(t, fty)
        + crate::types::fields_flat_widths(t, s as int, k + 1));
}

/// Contributions to the load counts are never negative.
pub proof fn lemma_load_counts_nonneg(t: LookupTable, s: usize, k: int)
    requires
        0 <= k,
    ensures
        fields_load_counts(t, s as int, k) >= 0,
    decreases k,
{
    if k > 0 {
        lemma_load_counts_nonneg(t, s, k - 1);
    }
}

/// Marshal one virtual value into the backend call's argument list, per
/// the resolver's passing mode: flatten into scalars (loading them if the
/// value is memory-resident), or pass one pointer (materializing an
/// uncommitted aggregate into a fresh stack slot first). A value with no
/// memory-resident part that flattens by scalars contributes exactly its
/// own scalars, unchanged and in order.
pub fn virtual_value_to_func_params(
    t: &LookupTable,
    fb: &mut cranelift::prelude::FunctionBuilder,
    v: &VirtualValue,
    ty: Ty,
    buf: &mut Vec<cranelift::prelude::Value>,
)
    requires
        table_wf(*t),
        ty_valid(*t, ty),
        vv_wf(*t, v@, ty),
        fb_emittable(*old(fb)),
    ensures
        fb_emits(*old(fb), *final(fb), marshal_insts(*t, v@, ty)),
        final(buf)@.len() == old(buf)@.len() + marshal_count(*t, ty),
        vv_all_unstable(v@) && marshal_mode(*t, ty) == Mode::ByScalars ==> final(buf)@ == old(
            buf,
        )@ + vv_scalars(v@),
    decreases ty_rank(ty),
{
    match ty {
        Ty::Unit => {
            proof {
                lemma_emits_nothing(*fb);
                assert(marshal_insts(*t, v@, ty) =~= Seq::<Inst>::empty());
                assert(vv_scalars(v@) =~= Seq::<cranelift::prelude::Value>::empty());
                assert(buf@ + vv_scalars(v@) =~= buf@);
            }
        },
        Ty::Int => {
            let sv = v.as_scalar();
            buf.push(sv);
            proof {
                lemma_emits_nothing(*fb);
                assert(marshal_insts(*t, v@, ty) =~= Seq::<Inst>::empty());
                assert(buf@ =~= old(buf)@ + vv_scalars(v@));
            }
        },
        Ty::Struct(s) => {
            let mode = t.passing_mode(s);
            match v {
                VirtualValue::Scalar(_) => {
                    proof {
                        assert(v@ is Scalar);
                        assert(false);
                    }
                    unreached()
                },
                VirtualValue::StackAggregate { type_id, base, offset } => {
                    if mode == Mode::ByScalars {
                        deref_fields(t, fb, ty, *base, *offset, buf);
                    } else {
                        let p = pointer_value(fb, t.ptr_bytes, *base, *offset);
                        buf.push(p);
                    }
                },
                VirtualValue::UnstableAggregate { type_id, fields } => {
                    let ghost models = vv_models(*fields, 0);
                    proof {
                        lemma_vv_models_index(*fields, 0);
                        assert(v@ == (ValueModel::Unstable { type_id: s, fields: models }));
                    }
                    let flen = t.field_count(s);
                    if mode == Mode::ByScalars {
                        let ghost fb0 = *old(fb);
                        let ghost buf0 = buf@;
                        let ghost mut pre: Seq<Inst> = seq![];
                        let mut k: usize = 0;
                        proof {
                            lemma_emits_nothing(*fb);
                        }
                        while k < flen
                            invariant
                                table_wf(*t),
                                ty == Ty::Struct(s),
                                s < t.aggregates@.len(),
                                spec_mode(*t, s) == Mode::ByScalars,
                                flen == agg_field_len(*t, s as int),
                                fields@.len() == flen,
                                models == vv_models(*fields, 0),
                                models.len() == flen,
                                vv_fields_wf(*t, models, s as int, 0),
                                k <= flen,
                                fb_emits(fb0, *fb, pre),
                                pre + fields_marshal_insts(*t, models, s as int, k as int)
                                    == fields_marshal_insts(*t, models, s as int, 0),
                                buf@.len() == buf0.len() + fields_marshal_counts(
                                    *t,
                                    s as int,
                                    k as int,
                                ),
                                all_unstable_fields(models, 0) ==> buf@ + fields_scalars(
                                    models,
                                    k as int,
                                ) == buf0 + fields_scalars(models, 0),
                            decreases flen - k,
                        {
                            let fty = t.type_of_field(s, k);
                            proof {
                                lemma_vv_fields_wf_at(*t, models, s as int, 0, k as int);
                                lemma_vv_models_index(*fields, 0);
                                assert(models[k as int] == fields@[k as int]@);
                                lemma_field_flat_le(*t, s, k as int);
                                if all_unstable_fields(models, 0) {
                                    lemma_all_unstable_at(models, 0, k as int);
                                }
                            }
                            let ghost fb1 = *fb;
                            let ghost pre_old = pre;
                            let ghost bufk = buf@;
                            virtual_value_to_func_params(t, fb, &fields[k], fty, buf);
                            proof {
                                lemma_emits_trans(
                                    fb0,
                                    fb1,
                                    *fb,
                                    pre,
                                    marshal_insts(*t, models[k as int], fty),
                                );
                                pre = pre + marshal_insts(*t, models[k as int], fty);
                                assert(fields_marshal_insts(*t, models, s as int, k as int)
                                    == marshal_insts(*t, models[k as int], fty)
                                    + fields_marshal_insts(*t, models, s as int, k as int + 1));
                                assert(pre + fields_marshal_insts(
                                    *t,
                                    models,
                                    s as int,
                                    k as int + 1,
                                ) =~= pre_old + fields_marshal_insts(
                                    *t,
                                    models,
                                    s as int,
                                    k as int,
                                ));
                                if all_unstable_fields(models, 0) {
                                    assert(fields_scalars(models, k as int) == vv_scalars(
                                        models[k as int],
                                    ) + fields_scalars(models, k as int + 1));
                                    assert(buf@ + fields_scalars(models, k as int + 1) =~= bufk
                                        + fields_scalars(models, k as int));
                                }
                            }
                            k = k + 1;
                        }
                        proof {
                            assert(fields_marshal_insts(*t, models, s as int, flen as int) =~= Seq::<
                                Inst,
                            >::empty());
                            assert(pre =~= pre + fields_marshal_insts(
                                *t,
                                models,
                                s as int,
                                flen as int,
                            ));
                            lemma_marshal_counts_flat(*t, s, flen as int);
                            lemma_load_counts_total(*t, s, flen as int);
                            assert(crate::types::fields_flat_widths(*t, s as int, flen as int)
                                =~= Seq::<u32>::empty());
                            if all_unstable_fields(models, 0) {
                                assert(fields_scalars(models, flen as int) =~= Seq::<
                                    cranelift::prelude::Value,
                                >::empty());
                                assert(buf@ =~= buf@ + fields_scalars(models, flen as int));
                                assert(buf@ =~= buf0 + fields_scalars(models, 0));
                            }
                        }
                    } else {
                        let ghost fb0 = *old(fb);
                        let ptr = stack_alloc_struct(t, fb, s);
                        let ghost fb_alloc = *fb;
                        let ghost mut pre: Seq<Inst> = seq![];
                        let mut k: usize = 0;
                        proof {
                            lemma_emits_nothing(*fb);
                        }
                        while k < flen
                            invariant
                                table_wf(*t),
                                ty == Ty::Struct(s),
                                s < t.aggregates@.len(),
                                flen == agg_field_len(*t, s as int),
                                fields@.len() == flen,
                                models == vv_models(*fields, 0),
                                models.len() == flen,
                                vv_fields_wf(*t, models, s as int, 0),
                                k <= flen,
                                fb_emits(fb_alloc, *fb, pre),
                                pre + fields_write_insts(*t, models, s as int, k as int, 0)
                                    == fields_write_insts(*t, models, s as int, 0, 0),
                            decreases flen - k,
                        {
                            proof {
                                lemma_vv_fields_wf_at(*t, models, s as int, 0, k as int);
                                lemma_vv_models_index(*fields, 0);
                                assert(models[k as int] == fields@[k as int]@);
                            }
                            let ghost fb1 = *fb;
                            let ghost pre_old = pre;
                            write_struct_field(t, fb, s, k, ptr, &fields[k]);
                            proof {
                                let fty = field_ty(*t, s as int, k as int);
                                let off = spec_offset_of(*t, s as int, k as int);
                                lemma_emits_trans(
                                    fb_alloc,
                                    fb1,
                                    *fb,
                                    pre,
                                    write_insts(*t, models[k as int], fty, off),
                                );
                                pre = pre + write_insts(*t, models[k as int], fty, off);
                                assert(fields_write_insts(*t, models, s as int, k as int, 0)
                                    == write_insts(*t, models[k as int], fty, 0 + off)
                                    + fields_write_insts(*t, models, s as int, k as int + 1, 0));
                                assert(pre + fields_write_insts(
                                    *t,
                                    models,
                                    s as int,
                                    k as int + 1,
                                    0,
                                ) =~= pre_old + fields_write_insts(
                                    *t,
                                    models,
                                    s as int,
                                    k as int,
                                    0,
                                ));
                            }
                            k = k + 1;
                        }
                        buf.push(ptr);
                        proof {
                            assert(fields_write_insts(*t, models, s as int, flen as int, 0) =~= Seq::<
                                Inst,
                            >::empty());
                            assert(pre =~= pre + fields_write_insts(
                                *t,
                                models,
                                s as int,
                                flen as int,
                                0,
                            ));
                            lemma_emits_trans(
                                fb0,
                                fb_alloc,
                                *fb,
                                seq![
                                    (Inst::StackAddr {
                                        width: t.ptr_bytes,
                                        size: spec_agg_size(*t, s) as u32,
                                    }),
                                ],
                                fields_write_insts(*t, models, s as int, 0, 0),
                            );
                        }
                    }
                },
            }
        },
    }
}

/// Each field of a value with no memory-resident parts has none either.
pub proof fn lemma_all_unstable_at(fields: Seq<ValueModel>, k: int, i: int)
    requires
        all_unstable_fields(fields, k),
        0 <= k <= i < fields.len(),
    ensures
        vv_all_unstable(fields[i]),
    decreases i - k,
{
    if k < i {
        lemma_all_unstable_at(fields, k + 1, i);
    }
}

/// For a by-scalars aggregate, the call arguments its fields contribute
/// are exactly its flattened scalars.
pub proof fn lemma_marshal_counts_flat(t: LookupTable, s: usize, k: int)
    requires
        table_wf(t),
        s < t.aggregates@.len(),
        spec_mode(t, s) == Mode::ByScalars,
        0 <= k <= agg_field_len(t, s as int),
    ensures
        fields_marshal_counts(t, s as int, k) == fields_load_counts(t, s as int, k),
    decreases k,
{
    if k > 0 {
        lemma_marshal_counts_flat(t, s, k - 1);
        lemma_field_flat_le(t, s, k - 1);
    }
}

/// A terminated run: the builder gained `insts`, the last of which filled
/// the current block.
pub open spec fn fb_terminates(
    a: cranelift::prelude::FunctionBuilder,
    b: cranelift::prelude::FunctionBuilder,
    insts: Seq<Inst>,
) -> bool {
    &&& emitted(b) == emitted(a) + insts
    &&& fb_frame(a, b)
    &&& !fb_emittable(b)
    &&& fb_ready(b)
    &&& fb_complete(b) == fb_complete(a)
}

/// An emission run followed by a terminator is a terminated run.
pub proof fn lemma_terminates(
    a: cranelift::prelude::FunctionBuilder,
    b: cranelift::prelude::FunctionBuilder,
    c: cranelift::prelude::FunctionBuilder,
    s1: Seq<Inst>,
    inst: Inst,
)
    requires
        fb_emits(a, b, s1),
        fb_after_terminator(b, c, inst),
    ensures
        fb_terminates(a, c, s1.push(inst)),
{
    assert((emitted(a) + s1).push(inst) =~= emitted(a) + s1.push(inst));
}

/// What returning a value emits: the flattening (or the stores through the
/// struct-return pointer) followed by the return terminator — with one
/// returned scalar per flattened leaf when the value travels in registers,
/// and none when it is written through the caller's pointer.
pub open spec fn return_insts(t: LookupTable, m: ValueModel, ty: Ty) -> Seq<Inst> {
    match ty {
        Ty::Unit => seq![(Inst::Return { vals: 0 })],
        Ty::Int => seq![(Inst::Return { vals: 1 })],
        Ty::Struct(s) => {
            if spec_mode(t, s) == Mode::ByScalars {
                marshal_insts(t, m, ty).push(
                    (Inst::Return { vals: flat_widths(t, ty).len() as usize }),
                )
            } else {
                write_insts(t, m, ty, 0).push((Inst::Return { vals: 0 }))
            }
        },
    }
}

/// Return a value from the function being built: by scalars through the
/// return registers when the resolver says so, or by writing every field
/// through the caller's struct-return pointer — the leading block
/// parameter that `create_entry_block` handed out — and returning nothing.
pub fn return_(
    t: &LookupTable,
    fb: &mut cranelift::prelude::FunctionBuilder,
    v: &VirtualValue,
    ty: Ty,
    sret: Option<cranelift::prelude::Value>,
)
    requires
        table_wf(*t),
        ty_valid(*t, ty),
        vv_wf(*t, v@, ty),
        fb_emittable(*old(fb)),
        (ty is Struct && spec_mode(*t, ty->Struct_0) == Mode::ByPointer) ==> sret is Some,
    ensures
        fb_terminates(*old(fb), *final(fb), return_insts(*t, v@, ty)),
{
    match ty {
        Ty::Unit => {
            let empty: Vec<cranelift::prelude::Value> = Vec::new();
            emit_return(fb, &empty);
            proof {
                lemma_emits_nothing(*old(fb));
                lemma_terminates(
                    *old(fb),
                    *old(fb),
                    *fb,
                    seq![],
                    (Inst::Return { vals: 0 }),
                );
                assert(Seq::<Inst>::empty().push((Inst::Return { vals: 0 })) =~= return_insts(
                    *t,
                    v@,
                    ty,
                ));
            }
        },
        Ty::Int => {
            let mut vals: Vec<cranelift::prelude::Value> = Vec::new();
            vals.push(v.as_scalar());
            emit_return(fb, &vals);
            proof {
                lemma_emits_nothing(*old(fb));
                lemma_terminates(
                    *old(fb),
                    *old(fb),
                    *fb,
                    seq![],
                    (Inst::Return { vals: 1 }),
                );
                assert(Seq::<Inst>::empty().push((Inst::Return { vals: 1 })) =~= return_insts(
                    *t,
                    v@,
                    ty,
                ));
            }
        },
        Ty::Struct(s) => {
            let mode = t.passing_mode(s);
            if mode == Mode::ByScalars {
                let mut vals: Vec<cranelift::prelude::Value> = Vec::new();
                let ghost fb0 = *old(fb);
                virtual_value_to_func_params(t, fb, v, ty, &mut vals);
                let ghost fb1 = *fb;
                emit_return(fb, &vals);
                proof {
                    assert(vals@.len() == flat_widths(*t, ty).len());
                    lemma_terminates(
                        fb0,
                        fb1,
                        *fb,
                        marshal_insts(*t, v@, ty),
                        (Inst::Return { vals: flat_widths(*t, ty).len() as usize }),
                    );
                }
            } else {
                let dst = match sret {
                    Some(d) => d,
                    None => {
                        proof {
                            assert(false);
                        }
                        unreached()
                    },
                };
                let ghost fb0 = *old(fb);
                proof {
                    assert(spec_agg_size(*t, s) <= MAX_AGGREGATE_SIZE);
                }
                write_value(t, fb, ty, v, dst, 0);
                let ghost fb1 = *fb;
                let empty: Vec<cranelift::prelude::Value> = Vec::new();
                emit_return(fb, &empty);
                proof {
                    lemma_terminates(
                        fb0,
                        fb1,
                        *fb,
                        write_insts(*t, v@, ty, 0),
                        (Inst::Return { vals: 0 }),
                    );
                }
            }
        },
    }
}

/// Rebuild a virtual value of type `ty` from the scalars a call returned,
/// consuming them in declaration order starting at `idx`. The rebuild
/// succeeds exactly when enough scalars remain — one per flattened leaf —
/// and then the rebuilt value's scalars are exactly the consumed window,
/// as an uncommitted (register-resident) value.
pub fn rebuild_value(
    t: &LookupTable,
    results: &Vec<cranelift::prelude::Value>,
    idx: &mut usize,
    ty: Ty,
) -> (r: Option<VirtualValue>)
    requires
        table_wf(*t),
        ty_valid(*t, ty),
        *old(idx) <= results@.len(),
    ensures
        match r {
            Some(vv) => {
                &&& vv_wf(*t, vv@, ty)
                &&& vv_all_unstable(vv@)
                &&& *final(idx) == *old(idx) + flat_widths(*t, ty).len()
                &&& *final(idx) <= results@.len()
                &&& vv_scalars(vv@) == results@.subrange(*old(idx) as int, *final(idx) as int)
            },
            None => *old(idx) + flat_widths(*t, ty).len() > results@.len(),
        },
    decreases ty_rank(ty),
{
    match ty {
        Ty::Unit => {
            let r = VirtualValue::unit();
            proof {
                assert(flat_widths(*t, ty).len() == 0);
                assert(vv_scalars(r@) =~= results@.subrange(*idx as int, *idx as int));
            }
            Some(r)
        },
        Ty::Int => {
            if *idx < results.len() {
                let v = results[*idx];
                let r = VirtualValue::Scalar(v);
                proof {
                    assert(flat_widths(*t, ty) == seq![INT_BYTES]);
                    assert(vv_scalars(r@) =~= results@.subrange(*idx as int, *idx as int + 1));
                }
                *idx = *idx + 1;
                Some(r)
            } else {
                proof {
                    assert(flat_widths(*t, ty) == seq![INT_BYTES]);
                }
                None
            }
        },
        Ty::Struct(s) => {
            let ghost idx0 = *idx;
            let flen = t.field_count(s);
            let mut out: Vec<VirtualValue> = Vec::new();
            let mut k: usize = 0;
            proof {
                lemma_size_is_field_sum(*t, s);
            }
            while k < flen
                invariant
                    table_wf(*t),
                    ty == Ty::Struct(s),
                    s < t.aggregates@.len(),
                    flen == agg_field_len(*t, s as int),
                    k <= flen,
                    out@.len() == k,
                    idx0 == *old(idx),
                    idx0 + fields_load_counts(*t, s as int, k as int) == *idx,
                    *idx <= results@.len(),
                    forall|j: int|
                        0 <= j < k ==> vv_wf(
                            *t,
                            (#[trigger] out@[j])@,
                            field_ty(*t, s as int, j),
                        ),
                    forall|j: int| 0 <= j < k ==> vv_all_unstable((#[trigger] out@[j])@),
                    forall|j: int|
                        0 <= j < k ==> vv_scalars((#[trigger] out@[j])@) == results@.subrange(
                            idx0 + fields_load_counts(*t, s as int, j),
                            idx0 + fields_load_counts(*t, s as int, j + 1),
                        ),
                decreases flen - k,
            {
                let fty = t.type_of_field(s, k);
                let ghost idxk = *idx;
                proof {
                    lemma_load_counts_nonneg(*t, s, k as int);
                }
                match rebuild_value(t, results, idx, fty) {
                    Some(sub) => {
                        out.push(sub);
                    },
                    None => {
                        proof {
                            lemma_load_counts_total(*t, s, k as int);
                            assert(crate::types::fields_flat_widths(*t, s as int, k as int)
                                == flat_widths(*t, fty) + crate::types::fields_flat_widths(
                                *t,
                                s as int,
                                k as int + 1,
                            ));
                            assert(idxk == idx0 + fields_load_counts(*t, s as int, k as int));
                            assert(idxk + flat_widths(*t, fty).len() > results@.len());
                            assert(flat_widths(*t, Ty::Struct(s)).len() == fields_load_counts(
                                *t,
                                s as int,
                                k as int,
                            ) + flat_widths(*t, fty).len() + crate::types::fields_flat_widths(
                                *t,
                                s as int,
                                k as int + 1,
                            ).len());
                            assert(idx0 + flat_widths(*t, ty).len() > results@.len());
                        }
                        return None;
                    },
                }
                k = k + 1;
            }
            let r = VirtualValue::UnstableAggregate { type_id: s, fields: out };
            proof {
                lemma_vv_models_index(out, 0);
                let models = vv_models(out, 0);
                assert(r@ == (ValueModel::Unstable { type_id: s, fields: models }));
                assert forall|i: int|
                    0 <= i < agg_field_len(*t, s as int) implies vv_wf(
                    *t,
                    #[trigger] models[i],
                    field_ty(*t, s as int, i),
                ) by {
                    assert(models[i] == out@[i]@);
                }
                assert(agg_wf(*t, s as int));
                lemma_vv_fields_wf_build(*t, models, s as int, 0);
                lemma_all_unstable_build(models, out, 0);
                lemma_load_counts_total(*t, s, flen as int);
                assert(crate::types::fields_flat_widths(*t, s as int, flen as int) =~= Seq::<
                    u32,
                >::empty());
                lemma_rebuild_scalars(*t, s, models, out, results@, idx0 as int, 0);
                assert(fields_load_counts(*t, s as int, 0) == 0);
            }
            Some(r)
        },
    }
}

/// Fields that are each free of memory-resident parts make the whole list
/// so.
pub proof fn lemma_all_unstable_build(models: Seq<ValueModel>, out: Vec<VirtualValue>, k: int)
    requires
        models == vv_models(out, 0),
        models.len() == out@.len(),
        forall|j: int| 0 <= j < out@.len() ==> vv_all_unstable((#[trigger] out@[j])@),
        0 <= k <= models.len(),
    ensures
        all_unstable_fields(models, k),
    decreases models.len() - k,
{
    if k < models.len() {
        lemma_vv_models_index(out, 0);
        assert(models[k] == out@[k]@);
        lemma_all_unstable_build(models, out, k + 1);
    }
}

/// Concatenating per-field windows of the result list yields the whole
/// consumed window.
pub proof fn lemma_rebuild_scalars(
    t: LookupTable,
    s: usize,
    models: Seq<ValueModel>,
    out: Vec<VirtualValue>,
    results: Seq<cranelift::prelude::Value>,
    idx0: int,
    k: int,
)
    requires
        table_wf(t),
        s < t.aggregates@.len(),
        models == vv_models(out, 0),
        models.len() == out@.len(),
        out@.len() == agg_field_len(t, s as int),
        0 <= k <= models.len(),
        0 <= idx0,
        idx0 + fields_load_counts(t, s as int, agg_field_len(t, s as int)) <= results.len(),
        forall|j: int|
            0 <= j < out@.len() ==> vv_scalars((#[trigger] out@[j])@) == results.subrange(
                idx0 + fields_load_counts(t, s as int, j),
                idx0 + fields_load_counts(t, s as int, j + 1),
            ),
    ensures
        fields_scalars(models, k) == results.subrange(
            idx0 + fields_load_counts(t, s as int, k),
            idx0 + fields_load_counts(t, s as int, agg_field_len(t, s as int)),
        ),
    decreases models.len() - k,
{
    let flen = agg_field_len(t, s as int);
    lemma_load_counts_mono(t, s, k, flen);
    lemma_load_counts_nonneg(t, s, k);
    if k < models.len() {
        lemma_rebuild_scalars(t, s, models, out, results, idx0, k + 1);
        lemma_vv_models_index(out, 0);
        assert(models[k] == out@[k]@);
        lemma_load_counts_mono(t, s, k + 1, flen);
        assert(fields_scalars(models, k) == vv_scalars(models[k]) + fields_scalars(
            models,
            k + 1,
        ));
        assert(vv_scalars(models[k]) == results.subrange(
            idx0 + fields_load_counts(t, s as int, k),
            idx0 + fields_load_counts(t, s as int, k + 1),
        ));
        assert(results.subrange(
            idx0 + fields_load_counts(t, s as int, k),
            idx0 + fields_load_counts(t, s as int, k + 1),
        ) + results.subrange(
            idx0 + fields_load_counts(t, s as int, k + 1),
            idx0 + fields_load_counts(t, s as int, flen),
        ) =~= results.subrange(
            idx0 + fields_load_counts(t, s as int, k),
            idx0 + fields_load_counts(t, s as int, flen),
        ));
    } else {
        assert(fields_scalars(models, k) =~= Seq::<cranelift::prelude::Value>::empty());
        assert(results.subrange(
            idx0 + fields_load_counts(t, s as int, k),
            idx0 + fields_load_counts(t, s as int, flen),
        ) =~= Seq::<cranelift::prelude::Value>::empty());
    }
}

/// Consumed scalar counts grow with the field index.
pub proof fn lemma_load_counts_mono(t: LookupTable, s: usize, i: int, j: int)
    requires
        0 <= i <= j,
    ensures
        fields_load_counts(t, s as int, i) <= fields_load_counts(t, s as int, j),
    decreases j - i,
{
    if i < j {
        lemma_load_counts_mono(t, s, i, j - 1);
    }
}

/// The declared backend handles of this compilation unit's functions, in
/// the same order as the resolver's function table.
pub struct DeclaredFuncs {
    pub ids: Vec<cranelift_module::FuncId>,
}

/// A return type that travels behind a caller-allocated pointer.
pub open spec fn ret_by_pointer(t: LookupTable, ret: Ty) -> bool {
    ret is Struct && spec_mode(t, ret->Struct_0) == Mode::ByPointer
}

/// The marshalling emissions for arguments `k..`.
pub open spec fn args_marshal_insts(
    t: LookupTable,
    ms: Seq<ValueModel>,
    ps: Seq<Ty>,
    k: int,
) -> Seq<Inst>
    decreases ps.len() - k,
{
    if 0 <= k < ps.len() && k < ms.len() {
        marshal_insts(t, ms[k], ps[k]) + args_marshal_insts(t, ms, ps, k + 1)
    } else {
        seq![]
    }
}

/// How many backend call arguments the declared parameters `k..` become.
pub open spec fn args_marshal_count(t: LookupTable, ps: Seq<Ty>, k: int) -> int
    decreases ps.len() - k,
{
    if 0 <= k < ps.len() {
        marshal_count(t, ps[k]) + args_marshal_count(t, ps, k + 1)
    } else {
        0
    }
}

/// Backend call argument counts are never negative.
pub proof fn lemma_args_marshal_count_nonneg(t: LookupTable, ps: Seq<Ty>, k: int)
    ensures
        args_marshal_count(t, ps, k) >= 0,
    decreases ps.len() - k,
{
    if 0 <= k < ps.len() {
        lemma_args_marshal_count_nonneg(t, ps, k + 1);
        lemma_width_sum_nonneg(flat_widths(t, ps[k]));
    }
}

/// What one call-site lowering emits: for a large return, the allocation
/// of the destination and its address as the implicit leading argument;
/// then each declared argument marshalled per its passing mode; then the
/// call itself, with one backend argument per marshalled scalar or
/// pointer.
pub open spec fn call_insts(t: LookupTable, ms: Seq<ValueModel>, ps: Seq<Ty>, ret: Ty) -> Seq<
    Inst,
> {
    let alloc = if ret_by_pointer(t, ret) {
        seq![
            (Inst::StackAddr { width: t.ptr_bytes, size: spec_agg_size(t, ret->Struct_0) as u32 }),
        ]
    } else {
        seq![]
    };
    let lead = if ret_by_pointer(t, ret) {
        1int
    } else {
        0int
    };
    alloc + args_marshal_insts(t, ms, ps, 0) + seq![
        (Inst::Call { args: (lead + args_marshal_count(t, ps, 0)) as usize }),
    ]
}

/// Lower one call. If the callee's return type passes by pointer, the
/// caller first reserves stack space for the result and passes its address
/// as the implicit leading argument; the call's result is then that
/// memory, not the backend's result list — and the call always succeeds.
/// Otherwise the returned scalars are reassembled into an uncommitted
/// value of the return type, which fails only if the backend hands back
/// fewer scalars than the return type's flattened leaves.
pub fn call_func(
    t: &LookupTable,
    fb: &mut cranelift::prelude::FunctionBuilder,
    module: &mut cranelift_object::ObjectModule,
    declared: &DeclaredFuncs,
    func: usize,
    args: &Vec<VirtualValue>,
) -> (r: Option<VirtualValue>)
    requires
        table_wf(*t),
        declared.ids@.len() == t.functions@.len(),
        forall|i: int|
            0 <= i < declared.ids@.len() ==> crate::backend::valid_func_id(
                *old(module),
                #[trigger] declared.ids@[i],
            ),
        func < t.functions@.len(),
        args@.len() == t.functions@[func as int].params@.len(),
        forall|i: int|
            0 <= i < args@.len() ==> vv_wf(
                *t,
                (#[trigger] args@[i])@,
                t.functions@[func as int].params@[i],
            ),
        fb_emittable(*old(fb)),
    ensures
        fb_emits(
            *old(fb),
            *final(fb),
            call_insts(
                *t,
                vv_models(*args, 0),
                t.functions@[func as int].params@,
                t.functions@[func as int].ret,
            ),
        ),
        crate::backend::module_preserved(*old(module), *final(module)),
        match r {
            Some(vv) => vv_wf(*t, vv@, t.functions@[func as int].ret),
            None => !ret_by_pointer(*t, t.functions@[func as int].ret),
        },
        ret_by_pointer(*t, t.functions@[func as int].ret) ==> (r matches Some(vv)
            && vv@ matches ValueModel::Stack { type_id, base, offset } && type_id
            == t.functions@[func as int].ret->Struct_0 && offset == 0 && !fb_addrs(
            *old(fb),
        ).contains(base) && fb_addrs(*final(fb)).contains(base)),
{
    let ret = t.functions[func].ret;
    let ghost ps = t.functions@[func as int].params@;
    let ghost ms = vv_models(*args, 0);
    proof {
        assert(crate::types::fn_wf(*t, func as int));
        lemma_vv_models_index(*args, 0);
    }
    let mut call_params: Vec<cranelift::prelude::Value> = Vec::new();

    let mut out_ptr: Option<VirtualValue> = None;
    let ghost fb0 = *old(fb);
    let ghost mut alloc: Seq<Inst> = seq![];
    let ghost mut lead: int = 0;
    match ret {
        Ty::Struct(rs) => {
            if t.passing_mode(rs) == Mode::ByPointer {
                let ptr = stack_alloc_struct(t, fb, rs);
                call_params.push(ptr);
                out_ptr = Some(
                    VirtualValue::StackAggregate { type_id: rs, base: ptr, offset: 0 },
                );
                proof {
                    alloc = seq![
                        (Inst::StackAddr {
                            width: t.ptr_bytes,
                            size: spec_agg_size(*t, rs) as u32,
                        }),
                    ];
                    lead = 1;
                    assert(spec_agg_size(*t, rs) <= MAX_AGGREGATE_SIZE);
                }
            } else {
                proof {
                    lemma_emits_nothing(*fb);
                }
            }
        },
        _ => {
            proof {
                lemma_emits_nothing(*fb);
            }
        },
    }
    let ghost fb_alloc = *fb;
    proof {
        assert(fb_emits(fb0, fb_alloc, alloc));
    }

    let n = args.len();
    let mut k: usize = 0;
    let ghost mut pre: Seq<Inst> = seq![];
    proof {
        lemma_emits_nothing(*fb);
    }
    while k < n
        invariant
            table_wf(*t),
            func < t.functions@.len(),
            ps == t.functions@[func as int].params@,
            ms == vv_models(*args, 0),
            n == args@.len(),
            args@.len() == ps.len(),
            ms.len() == ps.len(),
            forall|i: int|
                0 <= i < args@.len() ==> vv_wf(*t, (#[trigger] args@[i])@, ps[i]),
            k <= n,
            fb_emits(fb_alloc, *fb, pre),
            pre + args_marshal_insts(*t, ms, ps, k as int) == args_marshal_insts(*t, ms, ps, 0),
            call_params@.len() + args_marshal_count(*t, ps, k as int) == lead
                + args_marshal_count(*t, ps, 0),
            lead == 0 || lead == 1,
        decreases n - k,
    {
        let pty = t.functions[func].params[k];
        proof {
            lemma_vv_models_index(*args, 0);
            assert(crate::types::fn_wf(*t, func as int));
            assert(crate::types::ty_valid_below(
                t.functions@[func as int].params@[k as int],
                t.aggregates@.len() as int,
            ));
            assert(ms[k as int] == args@[k as int]@);
            lemma_args_marshal_count_nonneg(*t, ps, k as int + 1);
            lemma_width_sum_nonneg(flat_widths(*t, pty));
        }
        let ghost fb1 = *fb;
        let ghost pre_old = pre;
        virtual_value_to_func_params(t, fb, &args[k], pty, &mut call_params);
        proof {
            lemma_emits_trans(fb_alloc, fb1, *fb, pre, marshal_insts(*t, ms[k as int], pty));
            pre = pre + marshal_insts(*t, ms[k as int], pty);
            assert(args_marshal_insts(*t, ms, ps, k as int) == marshal_insts(
                *t,
                ms[k as int],
                pty,
            ) + args_marshal_insts(*t, ms, ps, k as int + 1));
            assert(pre + args_marshal_insts(*t, ms, ps, k as int + 1) =~= pre_old
                + args_marshal_insts(*t, ms, ps, k as int));
        }
        k = k + 1;
    }
    proof {
        assert(args_marshal_insts(*t, ms, ps, n as int) =~= Seq::<Inst>::empty());
        assert(pre =~= pre + args_marshal_insts(*t, ms, ps, n as int));
    }

    let ghost fb2 = *fb;
    let fref = crate::backend::declare_func_in_func(module, declared.ids[func], fb);
    proof {
        lemma_emits_quiet(fb2, *fb);
        lemma_emits_trans(fb_alloc, fb2, *fb, pre, seq![]);
        assert(pre + Seq::<Inst>::empty() =~= pre);
    }
    let ghost fb_marshalled = *fb;
    let results = crate::backend::emit_call(fb, fref, &call_params);
    proof {
        lemma_emits_one(
            fb_marshalled,
            *fb,
            (Inst::Call { args: call_params@.len() as usize }),
        );
        lemma_emits_trans(
            fb_alloc,
            fb_marshalled,
            *fb,
            args_marshal_insts(*t, ms, ps, 0),
            seq![(Inst::Call { args: call_params@.len() as usize })],
        );
        lemma_emits_trans(
            fb0,
            fb_alloc,
            *fb,
            alloc,
            args_marshal_insts(*t, ms, ps, 0) + seq![
                (Inst::Call { args: call_params@.len() as usize }),
            ],
        );
        assert(call_params@.len() as int == lead + args_marshal_count(*t, ps, 0));
        assert(alloc + (args_marshal_insts(*t, ms, ps, 0) + seq![
            (Inst::Call { args: call_params@.len() as usize }),
        ]) =~= call_insts(*t, ms, ps, ret));
    }

    match out_ptr {
        Some(vv) => Some(vv),
        None => {
            let mut idx: usize = 0;
            rebuild_value(t, &results, &mut idx, ret)
        },
    }
}

} // verus!
