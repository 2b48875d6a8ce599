//! Tagged-union lowering: construction and exhaustive dispatch for sum
//! types with a uniform-size payload encoding. Every value of one union
//! type is a (tag, payload) pair of the same total width: the tag is an
//! integer constant identifying the variant, and the payload is one
//! pointer-wide scalar — a zero constant for a payload-less variant, the
//! single field inlined (sign-extended if narrower than a pointer), or the
//! address of a stack allocation holding the fields.
//!
//! The encoding is derived from the variant's declared field widths alone,
//! by one pure function used both at construction and at match time, so
//! the two sides can never disagree.

use vstd::prelude::*;
use vstd::arithmetic::power2::{lemma_pow2_adds, lemma_pow2_pos, lemma_pow2_strictly_increases, pow2};
use vstd::arithmetic::div_mod::{lemma_mod_multiples_vanish, lemma_small_mod};
use crate::types::{valid_width, MAX_AGGREGATE_SIZE};
use crate::backend::{
    Inst, block_call_id, block_id, block_call, call_target, create_block, emit_br_table,
    emit_iconst, emit_load, fb_addrs, fb_call_count,
    emit_sextend, emit_stack_addr, emit_store, emit_trap, emit_ireduce, emitted,
    fb_block_count, fb_complete, fb_emittable, fb_is_current,
    fb_params, fb_ready, fb_sealed, fb_virgin, seal_block, switch_to_block,
};
use crate::lower::{
    fb_emits, lemma_emits_nothing, lemma_emits_one,
    lemma_emits_trans,
};

verus! {

/// Width in bytes of a union's tag scalar.
pub const TAG_BYTES: u32 = 4;

/// The trap code of the dispatch default branch: reached only on a tag
/// outside the closed variant set, which exhaustive construction makes
/// impossible.
pub const TRAP_UNREACHABLE: u8 = 100;

/// One declared variant: its payload's scalar field widths in bytes.
pub struct VariantDef {
    pub name: String,
    pub fields: Vec<u32>,
}

/// A sum type: its closed, ordered set of variants. A value's tag is its
/// variant's index here.
pub struct UnionDef {
    pub name: String,
    pub variants: Vec<VariantDef>,
}

/// A well-formed union: every variant's payload widths are scalar widths
/// within the offset range, and the variant indices fit the tag scalar.
pub open spec fn union_wf(u: UnionDef) -> bool {
    &&& (forall|v: int|
        0 <= v < u.variants@.len() ==> payload_wf(#[trigger] u.variants@[v].fields@))
    &&& u.variants@.len() <= 0x7fff_ffff
}

/// How one variant's payload is encoded into the pointer-wide payload
/// scalar.
#[derive(Clone, Copy, PartialEq, Eq, Structural, Debug)]
pub enum PayloadKind {
    /// No fields: a zero constant keeps the variant the same size.
    Zero,
    /// One field as wide as a pointer: the scalar verbatim.
    Inline,
    /// One field narrower than a pointer: sign-extended in, truncated back
    /// out; the field's width rides along.
    InlineCasted(u32),
    /// Anything else: the fields live behind a stack pointer.
    StackPointer,
}

/// The encoding policy, a pure function of the pointer width and the
/// variant's declared field widths.
pub open spec fn spec_payload_kind(ptr_bytes: u32, ws: Seq<u32>) -> PayloadKind {
    if ws.len() == 0 {
        PayloadKind::Zero
    } else if ws.len() == 1 {
        if ws[0] < ptr_bytes {
            PayloadKind::InlineCasted(ws[0])
        } else if ws[0] == ptr_bytes {
            PayloadKind::Inline
        } else {
            PayloadKind::StackPointer
        }
    } else {
        PayloadKind::StackPointer
    }
}

/// The byte offset of payload field `i` in an indirect payload: the summed
/// widths of the fields before it (no padding).
pub open spec fn spec_payload_offset(ws: Seq<u32>, i: int) -> int
    decreases i,
{
    if i <= 0 {
        0
    } else {
        spec_payload_offset(ws, i - 1) + ws[i - 1]
    }
}

/// Payload offsets never decrease.
pub proof fn lemma_payload_offset_mono(ws: Seq<u32>, i: int, j: int)
    requires
        0 <= i <= j,
    ensures
        spec_payload_offset(ws, i) <= spec_payload_offset(ws, j),
    decreases j - i,
{
    if i < j {
        lemma_payload_offset_mono(ws, i, j - 1);
    }
}

/// The stores that spill payload fields `k..` to a fresh allocation, each
/// at its cumulative offset.
pub open spec fn payload_store_insts(ws: Seq<u32>, k: int) -> Seq<Inst>
    decreases ws.len() - k,
{
    if 0 <= k < ws.len() {
        seq![(Inst::Store { offset: spec_payload_offset(ws, k) as u32 })] + payload_store_insts(
            ws,
            k + 1,
        )
    } else {
        seq![]
    }
}

/// The loads that read payload fields `k..` back from an indirect payload,
/// each at the same cumulative offset the store used.
pub open spec fn payload_load_insts(ws: Seq<u32>, k: int) -> Seq<Inst>
    decreases ws.len() - k,
{
    if 0 <= k < ws.len() {
        seq![
            (Inst::Load { width: ws[k], offset: spec_payload_offset(ws, k) as u32 }),
        ] + payload_load_insts(ws, k + 1)
    } else {
        seq![]
    }
}

/// What constructing a variant's payload emits, per the encoding policy,
/// followed by the tag constant.
pub open spec fn construct_union_insts(ptr_bytes: u32, ws: Seq<u32>, tag: i64) -> Seq<Inst> {
    let payload = match spec_payload_kind(ptr_bytes, ws) {
        PayloadKind::Zero => seq![(Inst::Const { width: ptr_bytes, bits: 0 })],
        PayloadKind::Inline => seq![],
        PayloadKind::InlineCasted(_) => seq![(Inst::SignExtend { width: ptr_bytes })],
        PayloadKind::StackPointer => seq![
            (Inst::StackAddr {
                width: ptr_bytes,
                size: spec_payload_offset(ws, ws.len() as int) as u32,
            }),
        ] + payload_store_insts(ws, 0),
    };
    payload.push((Inst::Const { width: TAG_BYTES, bits: tag }))
}

/// What reading a variant's payload back emits, re-deriving the same
/// encoding from the same declared field widths.
pub open spec fn read_payload_insts(ptr_bytes: u32, ws: Seq<u32>) -> Seq<Inst> {
    match spec_payload_kind(ptr_bytes, ws) {
        PayloadKind::Zero => seq![],
        PayloadKind::Inline => seq![],
        PayloadKind::InlineCasted(w) => seq![(Inst::Truncate { width: w })],
        PayloadKind::StackPointer => payload_load_insts(ws, 0),
    }
}

/// All widths in a variant's payload are scalar widths and their summed
/// size stays within the offset range.
pub open spec fn payload_wf(ws: Seq<u32>) -> bool {
    &&& (forall|j: int| 0 <= j < ws.len() ==> valid_width(#[trigger] ws[j]))
    &&& spec_payload_offset(ws, ws.len() as int) <= MAX_AGGREGATE_SIZE
}

/// Decide a variant's payload encoding from its declared field widths.
/// The same pure decision serves construction and dispatch, which is what
/// keeps the two sides of the round trip symmetric.
pub fn payload_kind(ptr_bytes: u32, widths: &Vec<u32>) -> (r: PayloadKind)
    ensures
        r == spec_payload_kind(ptr_bytes, widths@),
{
    if widths.len() == 0 {
        PayloadKind::Zero
    } else if widths.len() == 1 {
        let w = widths[0];
        if w < ptr_bytes {
            PayloadKind::InlineCasted(w)
        } else if w == ptr_bytes {
            PayloadKind::Inline
        } else {
            PayloadKind::StackPointer
        }
    } else {
        PayloadKind::StackPointer
    }
}

/// The byte offset of payload field `i`.
pub fn payload_offset(widths: &Vec<u32>, i: usize) -> (r: u32)
    requires
        payload_wf(widths@),
        i <= widths@.len(),
    ensures
        r == spec_payload_offset(widths@, i as int),
{
    let mut acc: u32 = 0;
    let mut k: usize = 0;
    while k < i
        invariant
            payload_wf(widths@),
            i <= widths@.len(),
            k <= i,
            acc == spec_payload_offset(widths@, k as int),
        decreases i - k,
    {
        proof {
            lemma_payload_offset_mono(widths@, k as int + 1, widths@.len() as int);
            assert(valid_width(widths@[k as int]));
        }
        acc = acc + widths[k];
        k = k + 1;
    }
    acc
}

/// Construct a tagged-union value: the payload, encoded per the policy for
/// this variant's declared field widths, and the tag constant. The result
/// is the (tag, payload) scalar pair: an inline payload is the field
/// verbatim, and an indirect payload is the fresh allocation's address.
pub fn construct_tagged_union(
    fb: &mut cranelift::prelude::FunctionBuilder,
    ptr_bytes: u32,
    tag: i64,
    widths: &Vec<u32>,
    params: &Vec<cranelift::prelude::Value>,
) -> (r: (cranelift::prelude::Value, cranelift::prelude::Value))
    requires
        valid_width(ptr_bytes),
        payload_wf(widths@),
        params@.len() == widths@.len(),
        fb_emittable(*old(fb)),
    ensures
        fb_emits(*old(fb), *final(fb), construct_union_insts(ptr_bytes, widths@, tag)),
        spec_payload_kind(ptr_bytes, widths@) == PayloadKind::Inline ==> r.1 == params@[0],
        spec_payload_kind(ptr_bytes, widths@) == PayloadKind::StackPointer ==> !fb_addrs(
            *old(fb),
        ).contains(r.1) && fb_addrs(*final(fb)).contains(r.1),
{
    let ghost fb0 = *old(fb);
    let kind = payload_kind(ptr_bytes, widths);
    let payload: cranelift::prelude::Value = match kind {
        PayloadKind::Zero => {
            let v = emit_iconst(fb, ptr_bytes, 0);
            proof {
                lemma_emits_one(fb0, *fb, (Inst::Const { width: ptr_bytes, bits: 0 }));
            }
            v
        },
        PayloadKind::Inline => {
            proof {
                lemma_emits_nothing(*fb);
            }
            params[0]
        },
        PayloadKind::InlineCasted(_) => {
            let v = emit_sextend(fb, ptr_bytes, params[0]);
            proof {
                lemma_emits_one(fb0, *fb, (Inst::SignExtend { width: ptr_bytes }));
            }
            v
        },
        PayloadKind::StackPointer => {
            let n = widths.len();
            let size = payload_offset(widths, n);
            let ptr = emit_stack_addr(fb, ptr_bytes, size);
            let ghost fb_alloc = *fb;
            let ghost mut pre: Seq<Inst> = seq![];
            let mut k: usize = 0;
            proof {
                lemma_emits_one(fb0, *fb, (Inst::StackAddr { width: ptr_bytes, size }));
                lemma_emits_nothing(*fb);
            }
            while k < n
                invariant
                    payload_wf(widths@),
                    params@.len() == widths@.len(),
                    n == widths@.len(),
                    k <= n,
                    fb_emits(fb_alloc, *fb, pre),
                    pre + payload_store_insts(widths@, k as int) == payload_store_insts(
                        widths@,
                        0,
                    ),
                decreases n - k,
            {
                let off = payload_offset(widths, k);
                proof {
                    lemma_payload_offset_mono(widths@, k as int, widths@.len() as int);
                    assert(spec_payload_offset(widths@, k as int) >= 0) by {
                        lemma_payload_offset_mono(widths@, 0, k as int);
                    }
                }
                let ghost fb1 = *fb;
                let ghost pre_old = pre;
                emit_store(fb, params[k], ptr, off);
                proof {
                    lemma_emits_one(fb1, *fb, (Inst::Store { offset: off }));
                    lemma_emits_trans(
                        fb_alloc,
                        fb1,
                        *fb,
                        pre,
                        seq![(Inst::Store { offset: off })],
                    );
                    pre = pre + seq![(Inst::Store { offset: off })];
                    assert(payload_store_insts(widths@, k as int) == seq![
                        (Inst::Store { offset: off }),
                    ] + payload_store_insts(widths@, k as int + 1));
                    assert(pre + payload_store_insts(widths@, k as int + 1) =~= pre_old
                        + payload_store_insts(widths@, k as int));
                }
                k = k + 1;
            }
            proof {
                assert(payload_store_insts(widths@, n as int) =~= Seq::<Inst>::empty());
                assert(pre =~= pre + payload_store_insts(widths@, n as int));
                lemma_emits_trans(
                    fb0,
                    fb_alloc,
                    *fb,
                    seq![(Inst::StackAddr { width: ptr_bytes, size })],
                    payload_store_insts(widths@, 0),
                );
            }
            ptr
        },
    };
    let ghost fb_payload = *fb;
    let tag_v = emit_iconst(fb, TAG_BYTES, tag);
    proof {
        lemma_emits_one(fb_payload, *fb, (Inst::Const { width: TAG_BYTES, bits: tag }));
        let pl = construct_union_insts(ptr_bytes, widths@, tag).drop_last();
        assert(fb_emits(fb0, fb_payload, pl)) by {
            assert(construct_union_insts(ptr_bytes, widths@, tag).drop_last() =~= match kind {
                PayloadKind::Zero => seq![(Inst::Const { width: ptr_bytes, bits: 0 })],
                PayloadKind::Inline => seq![],
                PayloadKind::InlineCasted(_) => seq![(Inst::SignExtend { width: ptr_bytes })],
                PayloadKind::StackPointer => seq![
                    (Inst::StackAddr {
                        width: ptr_bytes,
                        size: spec_payload_offset(widths@, widths@.len() as int) as u32,
                    }),
                ] + payload_store_insts(widths@, 0),
            });
        }
        lemma_emits_trans(fb0, fb_payload, *fb, pl, seq![(Inst::Const { width: TAG_BYTES, bits: tag })]);
        assert(pl + seq![(Inst::Const { width: TAG_BYTES, bits: tag })] =~= construct_union_insts(
            ptr_bytes,
            widths@,
            tag,
        ));
    }
    (tag_v, payload)
}

/// Read a variant's payload fields back, re-deriving the encoding from the
/// same declared field widths used at construction: the zero payload of a
/// field-less variant yields no fields; an inline payload is the field
/// (truncated back to its width if it was extended); an indirect payload's
/// fields are loaded at the same cumulative offsets the stores used; an
/// inline payload of full width comes back verbatim.
pub fn read_payload(
    fb: &mut cranelift::prelude::FunctionBuilder,
    ptr_bytes: u32,
    widths: &Vec<u32>,
    payload: cranelift::prelude::Value,
) -> (r: Vec<cranelift::prelude::Value>)
    requires
        valid_width(ptr_bytes),
        payload_wf(widths@),
        fb_emittable(*old(fb)),
    ensures
        fb_emits(*old(fb), *final(fb), read_payload_insts(ptr_bytes, widths@)),
        r@.len() == widths@.len(),
        spec_payload_kind(ptr_bytes, widths@) == PayloadKind::Inline ==> r@[0] == payload,
{
    let ghost fb0 = *old(fb);
    let kind = payload_kind(ptr_bytes, widths);
    match kind {
        PayloadKind::Zero => {
            let r: Vec<cranelift::prelude::Value> = Vec::new();
            proof {
                lemma_emits_nothing(*fb);
                assert(read_payload_insts(ptr_bytes, widths@) =~= Seq::<Inst>::empty());
            }
            r
        },
        PayloadKind::Inline => {
            let mut r: Vec<cranelift::prelude::Value> = Vec::new();
            r.push(payload);
            proof {
                lemma_emits_nothing(*fb);
                assert(read_payload_insts(ptr_bytes, widths@) =~= Seq::<Inst>::empty());
            }
            r
        },
        PayloadKind::InlineCasted(w) => {
            proof {
                assert(valid_width(widths@[0]));
            }
            let v = emit_ireduce(fb, w, payload);
            let mut r: Vec<cranelift::prelude::Value> = Vec::new();
            r.push(v);
            proof {
                lemma_emits_one(fb0, *fb, (Inst::Truncate { width: w }));
                assert(read_payload_insts(ptr_bytes, widths@) =~= seq![
                    (Inst::Truncate { width: w }),
                ]);
            }
            r
        },
        PayloadKind::StackPointer => {
            let n = widths.len();
            let mut out: Vec<cranelift::prelude::Value> = Vec::new();
            let ghost mut pre: Seq<Inst> = seq![];
            let mut k: usize = 0;
            proof {
                lemma_emits_nothing(*fb);
            }
            while k < n
                invariant
                    valid_width(ptr_bytes),
                    payload_wf(widths@),
                    n == widths@.len(),
                    k <= n,
                    out@.len() == k,
                    fb_emits(fb0, *fb, pre),
                    pre + payload_load_insts(widths@, k as int) == payload_load_insts(widths@, 0),
                decreases n - k,
            {
                let off = payload_offset(widths, k);
                let w = widths[k];
                proof {
                    assert(valid_width(widths@[k as int]));
                    lemma_payload_offset_mono(widths@, k as int, widths@.len() as int);
                    lemma_payload_offset_mono(widths@, 0, k as int);
                }
                let ghost fb1 = *fb;
                let ghost pre_old = pre;
                let v = emit_load(fb, w, payload, off);
                out.push(v);
                proof {
                    lemma_emits_one(fb1, *fb, (Inst::Load { width: w, offset: off }));
                    lemma_emits_trans(
                        fb0,
                        fb1,
                        *fb,
                        pre,
                        seq![(Inst::Load { width: w, offset: off })],
                    );
                    pre = pre + seq![(Inst::Load { width: w, offset: off })];
                    assert(payload_load_insts(widths@, k as int) == seq![
                        (Inst::Load { width: w, offset: off }),
                    ] + payload_load_insts(widths@, k as int + 1));
                    assert(pre + payload_load_insts(widths@, k as int + 1) =~= pre_old
                        + payload_load_insts(widths@, k as int));
                }
                k = k + 1;
            }
            proof {
                assert(payload_load_insts(widths@, n as int) =~= Seq::<Inst>::empty());
                assert(pre =~= pre + payload_load_insts(widths@, n as int));
            }
            out
        },
    }
}

/// Construct a value of the declared union's variant `variant` from its
/// payload values: the tag constant is exactly the variant's index in the
/// union's closed, ordered variant set — so it always lies below the
/// variant count that `lower_union_dispatch` branches over, and the
/// dispatch default stays a dead branch for every constructable value.
pub fn construct_union_variant(
    fb: &mut cranelift::prelude::FunctionBuilder,
    ptr_bytes: u32,
    u: &UnionDef,
    variant: usize,
    params: &Vec<cranelift::prelude::Value>,
) -> (r: (cranelift::prelude::Value, cranelift::prelude::Value))
    requires
        valid_width(ptr_bytes),
        union_wf(*u),
        variant < u.variants@.len(),
        params@.len() == u.variants@[variant as int].fields@.len(),
        fb_emittable(*old(fb)),
    ensures
        fb_emits(
            *old(fb),
            *final(fb),
            construct_union_insts(ptr_bytes, u.variants@[variant as int].fields@, variant as i64),
        ),
        spec_payload_kind(ptr_bytes, u.variants@[variant as int].fields@) == PayloadKind::Inline
            ==> r.1 == params@[0],
{
    proof {
        assert(payload_wf(u.variants@[variant as int].fields@));
    }
    construct_tagged_union(fb, ptr_bytes, variant as i64, &u.variants[variant].fields, params)
}

/// Read the payload of the declared union's variant `variant` back, by the
/// same encoding its construction derived from the same declared field
/// widths.
pub fn read_union_variant(
    fb: &mut cranelift::prelude::FunctionBuilder,
    ptr_bytes: u32,
    u: &UnionDef,
    variant: usize,
    payload: cranelift::prelude::Value,
) -> (r: Vec<cranelift::prelude::Value>)
    requires
        valid_width(ptr_bytes),
        union_wf(*u),
        variant < u.variants@.len(),
        fb_emittable(*old(fb)),
    ensures
        fb_emits(
            *old(fb),
            *final(fb),
            read_payload_insts(ptr_bytes, u.variants@[variant as int].fields@),
        ),
        r@.len() == u.variants@[variant as int].fields@.len(),
        spec_payload_kind(ptr_bytes, u.variants@[variant as int].fields@) == PayloadKind::Inline
            ==> r@[0] == payload,
{
    proof {
        assert(payload_wf(u.variants@[variant as int].fields@));
    }
    read_payload(fb, ptr_bytes, &u.variants[variant].fields, payload)
}

/// Every constructable tag selects a declared branch: constructing variant
/// `v` of a union emits the tag constant `v`, which lies strictly below
/// the branch count of a dispatch over that union's variants — the default
/// branch is a dead contract-violation sink for constructed values.
pub proof fn lemma_constructed_tag_in_range(u: UnionDef, ptr_bytes: u32, v: usize)
    requires
        union_wf(u),
        v < u.variants@.len(),
    ensures
        construct_union_insts(ptr_bytes, u.variants@[v as int].fields@, v as i64).last()
            == (Inst::Const { width: TAG_BYTES, bits: v as i64 }),
        0 <= v as i64,
        (v as i64) < u.variants@.len() as int,
{
}

/// Uniform union-value size: whatever the variant, the payload leg of a
/// constructed value is exactly one pointer-wide scalar — a pointer-wide
/// zero constant, the single declared pointer-wide field verbatim, a
/// pointer-wide sign extension, or a pointer-wide stack address — and the
/// tag leg is always the tag scalar. All values of one union type are
/// therefore interchangeable in uniform-size storage.
pub proof fn lemma_union_payload_uniform_width(ptr_bytes: u32, ws: Seq<u32>, tag: i64)
    requires
        payload_wf(ws),
    ensures
        match spec_payload_kind(ptr_bytes, ws) {
            PayloadKind::Zero => construct_union_insts(ptr_bytes, ws, tag)[0] == (Inst::Const {
                width: ptr_bytes,
                bits: 0,
            }),
            PayloadKind::Inline => ws[0] == ptr_bytes,
            PayloadKind::InlineCasted(_) => construct_union_insts(ptr_bytes, ws, tag)[0]
                == (Inst::SignExtend { width: ptr_bytes }),
            PayloadKind::StackPointer => construct_union_insts(ptr_bytes, ws, tag)[0]
                == (Inst::StackAddr {
                width: ptr_bytes,
                size: spec_payload_offset(ws, ws.len() as int) as u32,
            }),
        },
        construct_union_insts(ptr_bytes, ws, tag).last() == (Inst::Const {
            width: TAG_BYTES,
            bits: tag,
        }),
{
}

/// Begin lowering a match over a union value: one fresh branch block per
/// declared variant, in tag order, plus one default block, all distinct;
/// then the multi-way branch over the tag, with the default reachable only
/// for tags outside the closed variant set. The branch blocks come back
/// untouched, ready to be entered one by one.
pub fn lower_union_dispatch(
    fb: &mut cranelift::prelude::FunctionBuilder,
    n_variants: usize,
    tag: cranelift::prelude::Value,
) -> (r: (Vec<cranelift::prelude::Block>, cranelift::prelude::Block))
    requires
        fb_emittable(*old(fb)),
    ensures
        emitted(*final(fb)) == emitted(*old(fb)).push(
            (Inst::BranchTable { branches: n_variants }),
        ),
        fb_params(*final(fb)) == fb_params(*old(fb)),
        fb_complete(*final(fb)) == fb_complete(*old(fb)),
        !fb_emittable(*final(fb)),
        fb_ready(*final(fb)),
        forall|blk: cranelift::prelude::Block|
            fb_virgin(*old(fb), blk) ==> fb_virgin(*final(fb), blk),
        r.0@.len() == n_variants,
        forall|i: int| 0 <= i < n_variants ==> fb_virgin(*final(fb), #[trigger] r.0@[i]),
        forall|i: int| 0 <= i < n_variants ==> !fb_sealed(*final(fb), #[trigger] r.0@[i]),
        fb_virgin(*final(fb), r.1),
        !fb_sealed(*final(fb), r.1),
        forall|i: int, j: int| 0 <= i < j < n_variants ==> r.0@[i] != r.0@[j],
        forall|i: int| 0 <= i < n_variants ==> #[trigger] r.0@[i] != r.1,
{
    let ghost fb0 = *old(fb);
    let ghost base = fb_block_count(*old(fb));
    let mut blocks: Vec<cranelift::prelude::Block> = Vec::new();
    let mut k: usize = 0;
    while k < n_variants
        invariant
            k <= n_variants,
            blocks@.len() == k,
            fb_emittable(*fb),
            emitted(*fb) == emitted(fb0),
            fb_complete(*fb) == fb_complete(fb0),
            fb_params(*fb) == fb_params(fb0),
            fb_block_count(*fb) == base + k,
            forall|blk: cranelift::prelude::Block|
                fb_virgin(fb0, blk) ==> fb_virgin(*fb, blk),
            forall|j: int| 0 <= j < k ==> fb_virgin(*fb, #[trigger] blocks@[j]),
            forall|j: int| 0 <= j < k ==> !fb_sealed(*fb, #[trigger] blocks@[j]),
            forall|j: int| 0 <= j < k ==> block_id(#[trigger] blocks@[j]) == base + j,
        decreases n_variants - k,
    {
        let b = create_block(fb);
        blocks.push(b);
        k = k + 1;
    }
    let default = create_block(fb);
    proof {
        assert(forall|j: int| 0 <= j < n_variants ==> block_id(#[trigger] blocks@[j]) < block_id(
            default,
        ));
    }
    let mut calls: Vec<cranelift::codegen::ir::BlockCall> = Vec::new();
    let mut k2: usize = 0;
    let ghost call_base = fb_call_count(*fb);
    while k2 < n_variants
        invariant
            n_variants == blocks@.len(),
            k2 <= n_variants,
            calls@.len() == k2,
            fb_emittable(*fb),
            emitted(*fb) == emitted(fb0),
            fb_complete(*fb) == fb_complete(fb0),
            fb_params(*fb) == fb_params(fb0),
            fb_virgin(*fb, default),
            !fb_sealed(*fb, default),
            fb_call_count(*fb) == call_base + k2,
            forall|blk: cranelift::prelude::Block|
                fb_virgin(fb0, blk) ==> fb_virgin(*fb, blk),
            forall|j: int| 0 <= j < n_variants ==> fb_virgin(*fb, #[trigger] blocks@[j]),
            forall|j: int| 0 <= j < n_variants ==> !fb_sealed(*fb, #[trigger] blocks@[j]),
            forall|j: int| 0 <= j < n_variants ==> block_id(#[trigger] blocks@[j]) == base + j,
            forall|j: int|
                0 <= j < k2 ==> block_call_id(#[trigger] calls@[j]) == call_base + j,
            forall|j: int| 0 <= j < k2 ==> 0 <= block_call_id(#[trigger] calls@[j]),
            forall|j: int|
                0 <= j < k2 ==> call_target(*fb, #[trigger] calls@[j]) == blocks@[j],
            block_id(default) == base + n_variants,
        decreases n_variants - k2,
    {
        let c = block_call(fb, blocks[k2]);
        calls.push(c);
        k2 = k2 + 1;
    }
    let def_call = block_call(fb, default);
    let ghost fb1 = *fb;
    proof {
        assert forall|i: int|
            0 <= i < calls@.len() implies !fb_sealed(
            fb1,
            call_target(fb1, #[trigger] calls@[i]),
        ) by {
            assert(call_target(fb1, calls@[i]) == blocks@[i]);
        }
        assert forall|i: int|
            0 <= i < calls@.len() implies 0 <= block_call_id(#[trigger] calls@[i])
            < fb_call_count(fb1) by {
            assert(block_call_id(calls@[i]) == call_base + i);
        }
    }
    emit_br_table(fb, tag, def_call, &calls);
    proof {
        assert(emitted(fb1) =~= emitted(fb0) + Seq::<Inst>::empty());
        assert(emitted(*fb) =~= emitted(fb0) + seq![
            (Inst::BranchTable { branches: n_variants }),
        ]);
    }
    (blocks, default)
}

/// Enter one branch block of a dispatch: seals it (all its predecessors —
/// the one branch-table entry — are known) and makes it the insertion
/// point.
pub fn switch_to_branch_block(
    fb: &mut cranelift::prelude::FunctionBuilder,
    b: cranelift::prelude::Block,
)
    requires
        fb_ready(*old(fb)),
        fb_virgin(*old(fb), b),
        !fb_sealed(*old(fb), b),
    ensures
        emitted(*final(fb)) == emitted(*old(fb)),
        fb_params(*final(fb)) == fb_params(*old(fb)),
        fb_block_count(*final(fb)) == fb_block_count(*old(fb)),
        fb_emittable(*final(fb)),
        fb_ready(*final(fb)),
        fb_complete(*final(fb)) == fb_complete(*old(fb)),
        !fb_virgin(*final(fb), b),
        forall|blk: cranelift::prelude::Block|
            blk != b ==> fb_virgin(*final(fb), blk) == fb_virgin(*old(fb), blk),
        forall|blk: cranelift::prelude::Block|
            blk != b ==> fb_sealed(*final(fb), blk) == fb_sealed(*old(fb), blk),
        forall|blk: cranelift::prelude::Block| fb_is_current(*final(fb), blk) == (blk == b),
{
    seal_block(fb, b);
    switch_to_block(fb, b);
}

/// Fill the dispatch's default block with the unreachable trap: the tag
/// space is closed and exhaustively matched by construction, so this block
/// is a contract-violation sink, never a legitimate control path.
pub fn define_trap_block(
    fb: &mut cranelift::prelude::FunctionBuilder,
    b: cranelift::prelude::Block,
)
    requires
        fb_ready(*old(fb)),
        fb_virgin(*old(fb), b),
        !fb_sealed(*old(fb), b),
    ensures
        emitted(*final(fb)) == emitted(*old(fb)).push(Inst::Trap),
        fb_params(*final(fb)) == fb_params(*old(fb)),
        fb_block_count(*final(fb)) == fb_block_count(*old(fb)),
        !fb_emittable(*final(fb)),
        fb_ready(*final(fb)),
        fb_complete(*final(fb)) == fb_complete(*old(fb)),
        forall|blk: cranelift::prelude::Block|
            blk != b ==> fb_virgin(*final(fb), blk) == fb_virgin(*old(fb), blk),
{
    seal_block(fb, b);
    switch_to_block(fb, b);
    emit_trap(fb, TRAP_UNREACHABLE);
}

/// The unsigned bit pattern `v` of `bits` bits read as a signed value.
pub open spec fn signed_bits(v: int, bits: nat) -> int {
    if v < pow2((bits - 1) as nat) {
        v
    } else {
        v - pow2(bits)
    }
}

/// Sign extension of a `w_bits`-bit pattern to `p_bits` bits, as bit
/// patterns.
pub open spec fn sext_bits(v: int, w_bits: nat, p_bits: nat) -> int {
    if v < pow2((w_bits - 1) as nat) {
        v
    } else {
        v + pow2(p_bits) - pow2(w_bits)
    }
}

/// Truncation of a bit pattern back to `w_bits` bits.
pub open spec fn trunc_bits(x: int, w_bits: nat) -> int {
    x % (pow2(w_bits) as int)
}

/// Inline-casted round trip: a payload field narrower than a pointer is
/// sign-extended to pointer width at construction and truncated back at
/// match time, and that truncation restores the original bit pattern
/// exactly. The extension also stays within the pointer's bit range.
pub proof fn lemma_inline_casted_round_trip(v: int, w_bits: nat, p_bits: nat)
    requires
        1 <= w_bits < p_bits,
        0 <= v < pow2(w_bits),
    ensures
        trunc_bits(sext_bits(v, w_bits, p_bits), w_bits) == v,
        0 <= sext_bits(v, w_bits, p_bits) < pow2(p_bits),
{
    lemma_pow2_pos(w_bits);
    lemma_pow2_pos(p_bits);
    lemma_pow2_pos((w_bits - 1) as nat);
    lemma_pow2_strictly_increases(w_bits, p_bits);
    if v < pow2((w_bits - 1) as nat) {
        lemma_small_mod(v as nat, pow2(w_bits));
    } else {
        let m = pow2(w_bits) as int;
        let a = pow2((p_bits - w_bits) as nat) as int - 1;
        lemma_pow2_pos((p_bits - w_bits) as nat);
        lemma_pow2_adds((p_bits - w_bits) as nat, w_bits);
        assert(pow2(p_bits) == pow2((p_bits - w_bits) as nat) * pow2(w_bits));
        assert(sext_bits(v, w_bits, p_bits) == m * a + v) by (nonlinear_arith)
            requires
                m == pow2(w_bits),
                a == pow2((p_bits - w_bits) as nat) - 1,
                pow2(p_bits) == pow2((p_bits - w_bits) as nat) * pow2(w_bits),
                sext_bits(v, w_bits, p_bits) == v + pow2(p_bits) - pow2(w_bits),
        ;
        lemma_mod_multiples_vanish(a, v, m);
        lemma_small_mod(v as nat, pow2(w_bits));
    }
}

/// Sign extension preserves the signed value a payload field stands for:
/// what was encoded is what a signed reading of the wide payload means.
pub proof fn lemma_sext_preserves_signed(v: int, w_bits: nat, p_bits: nat)
    requires
        1 <= w_bits < p_bits,
        0 <= v < pow2(w_bits),
    ensures
        signed_bits(sext_bits(v, w_bits, p_bits), p_bits) == signed_bits(v, w_bits),
{
    lemma_pow2_pos((w_bits - 1) as nat);
    lemma_pow2_pos((p_bits - 1) as nat);
    lemma_pow2_strictly_increases((w_bits - 1) as nat, (p_bits - 1) as nat);
    lemma_pow2_strictly_increases((w_bits - 1) as nat, p_bits);
    lemma_pow2_adds(1, (w_bits - 1) as nat);
    lemma_pow2_adds(1, (p_bits - 1) as nat);
    vstd::arithmetic::power2::lemma2_to64();
    assert(pow2(1) == 2);
    if v < pow2((w_bits - 1) as nat) {
    } else {
        assert(pow2(w_bits) == 2 * pow2((w_bits - 1) as nat));
        assert(pow2(p_bits) == 2 * pow2((p_bits - 1) as nat));
    }
}

/// The store and load lists of an indirect payload, element by element:
/// field `i` is stored at its cumulative offset and loaded back, at its
/// own width, from exactly the same offset.
pub proof fn lemma_payload_insts_index(ws: Seq<u32>, k: int)
    requires
        0 <= k <= ws.len(),
    ensures
        payload_store_insts(ws, k).len() == ws.len() - k,
        payload_load_insts(ws, k).len() == ws.len() - k,
        forall|i: int|
            k <= i < ws.len() ==> payload_store_insts(ws, k)[i - k] == (Inst::Store {
                offset: spec_payload_offset(ws, i) as u32,
            }),
        forall|i: int|
            k <= i < ws.len() ==> payload_load_insts(ws, k)[i - k] == (Inst::Load {
                width: ws[i],
                offset: spec_payload_offset(ws, i) as u32,
            }),
    decreases ws.len() - k,
{
    if k < ws.len() {
        lemma_payload_insts_index(ws, k + 1);
    }
}

/// Indirect round trip, at the offset level: for every field of an
/// indirect payload, the load emitted at match time reads at exactly the
/// offset the store emitted at construction wrote, and at the field's own
/// width.
pub proof fn lemma_indirect_round_trip_offsets(ws: Seq<u32>, i: int)
    requires
        0 <= i < ws.len(),
    ensures
        payload_store_insts(ws, 0)[i] == (Inst::Store {
            offset: spec_payload_offset(ws, i) as u32,
        }),
        payload_load_insts(ws, 0)[i] == (Inst::Load {
            width: ws[i],
            offset: spec_payload_offset(ws, i) as u32,
        }),
{
    lemma_payload_insts_index(ws, 0);
}

/// Encoding symmetry: the payload encoding is re-derived at match time
/// from the variant's declared field widths by the same pure decision used
/// at construction — it is never stored, and the two derivations always
/// agree.
pub proof fn lemma_payload_kind_symmetric(
    ptr_bytes: u32,
    ws: Seq<u32>,
    at_construction: PayloadKind,
    at_match: PayloadKind,
)
    requires
        at_construction == spec_payload_kind(ptr_bytes, ws),
        at_match == spec_payload_kind(ptr_bytes, ws),
    ensures
        at_construction == at_match,
{
}

} // verus!
