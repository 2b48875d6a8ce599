//! The trusted boundary to the instruction-emission backend (cranelift).
//!
//! Everything the lowering layer knows about the backend is stated here:
//! the opaque backend types, and one wrapper per backend call with the
//! contract that the call's source supports. A function under construction
//! is modelled by a few abstractions of its builder: `emitted`, the
//! instructions appended so far; `fb_params`, the declared parameter list
//! of the function being built; the parameters each block carries; the
//! stack addresses produced so far; and the block discipline
//! (`fb_emittable`, `fb_ready`, `fb_virgin`, `fb_sealed`, `fb_untargeted`,
//! `fb_is_current`, `fb_complete`) that the builder's own assertions
//! demand — an instruction may only be appended while an unfilled block is
//! current, a block may be entered only once and must be sealed first,
//! block parameters go only on untouched blocks, a branch may not target a
//! sealed block, and a finished function has every written block sealed
//! and filled.
//!
//! A module's declarations are likewise modelled: how many functions it
//! has declared, for each (by the handle's index) its name and its lowered
//! parameter/return lists, which names are still free, and which functions
//! have been defined — so that declaring, looking a declaration up, and
//! defining all speak about one store. Handles are tied to their owners:
//! a function or signature reference may only be used by the builder that
//! imported it, a branch-table entry only by the builder that made it (its
//! target is a fact about that pair), and a function handle only with a
//! module that has declared at least that many functions.
//!
//! No variables are ever declared through this boundary (there is no
//! wrapper for the builder's variable machinery), so sealing a block never
//! introduces parameters and the per-block parameter model is exact.

use vstd::prelude::*;
use cranelift::prelude::InstBuilder;
use cranelift_module::Module;

verus! {

/// One backend instruction, reduced to what the lowering layer's contracts
/// speak about: the kind, the immediates, widths and byte offsets it
/// carries, and — for the indirect call — the callee and argument values.
#[verifier::ext_equal]
pub enum Inst {
    /// An integer constant of `width` bytes with the given value.
    Const { width: u32, bits: i64 },
    /// An addition of two scalars.
    Add,
    /// A load of `width` bytes at `offset` from a pointer.
    Load { width: u32, offset: u32 },
    /// A store at `offset` from a pointer.
    Store { offset: u32 },
    /// The pointer-wide address of a fresh stack allocation of `size`
    /// bytes.
    StackAddr { width: u32, size: u32 },
    /// A sign extension to a wider scalar of `width` bytes.
    SignExtend { width: u32 },
    /// A truncation to a narrower scalar of `width` bytes.
    Truncate { width: u32 },
    /// The address of a declared function.
    FuncAddr,
    /// A direct call with `args` arguments.
    Call { args: usize },
    /// An indirect call through `callee`, passing exactly `args`.
    CallIndirect { callee: cranelift::prelude::Value, passed: Seq<cranelift::prelude::Value> },
    /// A return of `vals` values.
    Return { vals: usize },
    /// A multi-way branch over `branches` cases plus a default.
    BranchTable { branches: usize },
    /// An unconditional trap.
    Trap,
}

#[verifier::external_type_specification]
#[verifier::external_body]
pub struct ExValue(cranelift::prelude::Value);

#[verifier::external_type_specification]
#[verifier::external_body]
pub struct ExBlock(cranelift::prelude::Block);

#[verifier::external_type_specification]
#[verifier::external_body]
pub struct ExFunctionBuilder<'a>(cranelift::prelude::FunctionBuilder<'a>);

#[verifier::external_type_specification]
#[verifier::external_body]
pub struct ExFunctionBuilderContext(cranelift::prelude::FunctionBuilderContext);

#[verifier::external_type_specification]
#[verifier::external_body]
pub struct ExContext(cranelift::codegen::Context);

#[verifier::external_type_specification]
#[verifier::external_body]
pub struct ExSignature(cranelift::prelude::Signature);

#[verifier::external_type_specification]
#[verifier::external_body]
pub struct ExFuncId(cranelift_module::FuncId);

#[verifier::external_type_specification]
#[verifier::external_body]
pub struct ExFuncRef(cranelift::codegen::ir::FuncRef);

#[verifier::external_type_specification]
#[verifier::external_body]
pub struct ExSigRef(cranelift::codegen::ir::SigRef);

#[verifier::external_type_specification]
#[verifier::external_body]
pub struct ExBlockCall(cranelift::codegen::ir::BlockCall);

#[verifier::external_type_specification]
#[verifier::external_body]
pub struct ExObjectModule(cranelift_object::ObjectModule);

#[verifier::external_type_specification]
#[verifier::external_body]
pub struct ExModuleError(cranelift_module::ModuleError);

/// The instructions emitted so far through a builder, in emission order.
pub uninterp spec fn emitted(fb: cranelift::prelude::FunctionBuilder) -> Seq<Inst>;

/// The declared parameters of the function being built: for each, its
/// width in bytes and whether it is the distinguished struct-return
/// pointer.
pub uninterp spec fn fb_params(fb: cranelift::prelude::FunctionBuilder) -> Seq<(u32, bool)>;

/// A block is current and unfilled, so an instruction may be appended.
pub uninterp spec fn fb_emittable(fb: cranelift::prelude::FunctionBuilder) -> bool;

/// The builder may switch blocks: no block is current, or the current
/// block is still untouched, or it has been terminated.
pub uninterp spec fn fb_ready(fb: cranelift::prelude::FunctionBuilder) -> bool;

/// The block was created by this builder and has never been entered.
pub uninterp spec fn fb_virgin(
    fb: cranelift::prelude::FunctionBuilder,
    b: cranelift::prelude::Block,
) -> bool;

/// The block has been sealed: all its predecessors declared known.
pub uninterp spec fn fb_sealed(
    fb: cranelift::prelude::FunctionBuilder,
    b: cranelift::prelude::Block,
) -> bool;

/// No emitted branch targets the block.
pub uninterp spec fn fb_untargeted(
    fb: cranelift::prelude::FunctionBuilder,
    b: cranelift::prelude::Block,
) -> bool;

/// The block is the builder's current insertion point.
pub uninterp spec fn fb_is_current(
    fb: cranelift::prelude::FunctionBuilder,
    b: cranelift::prelude::Block,
) -> bool;

/// Every previously written block is sealed and filled, and the current
/// block is sealed: what the builder's finalizer checks.
pub uninterp spec fn fb_complete(fb: cranelift::prelude::FunctionBuilder) -> bool;

/// The position of a block in its builder's creation order.
pub uninterp spec fn block_id(b: cranelift::prelude::Block) -> int;

/// How many blocks the builder has created.
pub uninterp spec fn fb_block_count(fb: cranelift::prelude::FunctionBuilder) -> int;

/// The widths of the parameters carried by a block, in order.
pub uninterp spec fn fb_block_widths(
    fb: cranelift::prelude::FunctionBuilder,
    b: cranelift::prelude::Block,
) -> Seq<u32>;

/// The stack-address values this builder has produced: every one is a
/// fresh SSA value, so no two of them are equal.
pub uninterp spec fn fb_addrs(fb: cranelift::prelude::FunctionBuilder) -> Set<
    cranelift::prelude::Value,
>;

/// The context holds no function under construction, as a fresh builder
/// demands.
pub uninterp spec fn fbctx_clean(fctx: cranelift::prelude::FunctionBuilderContext) -> bool;

/// The context's function is empty, so a fresh builder's creations start
/// from a clean slate.
pub uninterp spec fn ctx_func_empty(ctx: cranelift::codegen::Context) -> bool;

/// The block a branch-table entry of this builder transfers control to.
/// A branch-table entry is only a handle into its builder's storage, so
/// the target is a fact about the pair, never about the handle alone.
pub uninterp spec fn call_target(
    fb: cranelift::prelude::FunctionBuilder,
    c: cranelift::codegen::ir::BlockCall,
) -> cranelift::prelude::Block;

/// The position of a branch-table entry in its builder's creation order.
pub uninterp spec fn block_call_id(c: cranelift::codegen::ir::BlockCall) -> int;

/// How many branch-table entries the builder has created.
pub uninterp spec fn fb_call_count(fb: cranelift::prelude::FunctionBuilder) -> int;

/// The function reference was imported into this builder's function, so
/// this builder may call through it.
pub uninterp spec fn fb_has_func(
    fb: cranelift::prelude::FunctionBuilder,
    fref: cranelift::codegen::ir::FuncRef,
) -> bool;

/// The signature reference was imported into this builder's function, so
/// this builder may call indirectly through it.
pub uninterp spec fn fb_has_sig(
    fb: cranelift::prelude::FunctionBuilder,
    sigref: cranelift::codegen::ir::SigRef,
) -> bool;

/// The parameter model of a detached signature value: for each parameter,
/// its width in bytes and whether it is the struct-return pointer.
pub uninterp spec fn sig_params_model(s: cranelift::prelude::Signature) -> Seq<(u32, bool)>;

/// The return model of a detached signature value: each return's width.
pub uninterp spec fn sig_returns_model(s: cranelift::prelude::Signature) -> Seq<u32>;

/// How many functions the module has declared; a handle is usable with
/// this module exactly when its index lies below this count.
pub uninterp spec fn module_func_count(m: cranelift_object::ObjectModule) -> int;

/// The position a function handle indexes in its module's declarations.
pub uninterp spec fn func_id_index(id: cranelift_module::FuncId) -> int;

/// The declared parameter model of the module's function `i`.
pub uninterp spec fn module_decl_params(m: cranelift_object::ObjectModule, i: int) -> Seq<
    (u32, bool),
>;

/// The declared return model of the module's function `i`.
pub uninterp spec fn module_decl_returns(m: cranelift_object::ObjectModule, i: int) -> Seq<u32>;

/// The name the module's function `i` was declared under.
pub uninterp spec fn module_decl_name(m: cranelift_object::ObjectModule, i: int) -> Seq<char>;

/// The symbol derived from a forwarding-function key; distinct keys give
/// distinct symbols.
pub uninterp spec fn symbol_of(key: u64) -> Seq<char>;

/// No declaration of the module — function or data — uses this name.
pub uninterp spec fn module_name_free(m: cranelift_object::ObjectModule, name: Seq<char>) -> bool;

/// The indices of the module's functions whose bodies have been defined.
pub uninterp spec fn module_defined(m: cranelift_object::ObjectModule) -> Set<int>;

/// A function handle that indexes into the module's declarations.
pub open spec fn valid_func_id(
    m: cranelift_object::ObjectModule,
    id: cranelift_module::FuncId,
) -> bool {
    0 <= func_id_index(id) < module_func_count(m)
}

/// The widths of a declared parameter list.
pub open spec fn param_widths(ps: Seq<(u32, bool)>) -> Seq<u32> {
    ps.map_values(|p: (u32, bool)| p.0)
}

/// The module's declarations are untouched: same count, and every declared
/// function keeps its name and its signature models.
pub open spec fn module_preserved(
    a: cranelift_object::ObjectModule,
    b: cranelift_object::ObjectModule,
) -> bool {
    &&& module_func_count(b) == module_func_count(a)
    &&& (forall|i: int|
        0 <= i < module_func_count(a) ==> #[trigger] module_decl_params(b, i)
            == module_decl_params(a, i))
    &&& (forall|i: int|
        0 <= i < module_func_count(a) ==> #[trigger] module_decl_returns(b, i)
            == module_decl_returns(a, i))
    &&& (forall|i: int|
        0 <= i < module_func_count(a) ==> #[trigger] module_decl_name(b, i) == module_decl_name(
            a,
            i,
        ))
}

/// The module's declarations may have grown, but every function declared
/// before keeps its name and its signature models.
pub open spec fn module_grows(
    a: cranelift_object::ObjectModule,
    b: cranelift_object::ObjectModule,
) -> bool {
    &&& module_func_count(b) >= module_func_count(a)
    &&& (forall|i: int|
        0 <= i < module_func_count(a) ==> #[trigger] module_decl_params(b, i)
            == module_decl_params(a, i))
    &&& (forall|i: int|
        0 <= i < module_func_count(a) ==> #[trigger] module_decl_returns(b, i)
            == module_decl_returns(a, i))
    &&& (forall|i: int|
        0 <= i < module_func_count(a) ==> #[trigger] module_decl_name(b, i) == module_decl_name(
            a,
            i,
        ))
}

/// What every builder operation below leaves untouched: the declared
/// parameter list, the block count, and each block's standing (insertion
/// point, untouched/sealed state, parameters); stack addresses only
/// accumulate.
pub open spec fn fb_frame(
    a: cranelift::prelude::FunctionBuilder,
    b: cranelift::prelude::FunctionBuilder,
) -> bool {
    &&& fb_params(b) == fb_params(a)
    &&& fb_block_count(b) == fb_block_count(a)
    &&& (forall|blk: cranelift::prelude::Block| fb_is_current(b, blk) == fb_is_current(a, blk))
    &&& (forall|blk: cranelift::prelude::Block| fb_virgin(b, blk) == fb_virgin(a, blk))
    &&& (forall|blk: cranelift::prelude::Block| fb_sealed(b, blk) == fb_sealed(a, blk))
    &&& (forall|blk: cranelift::prelude::Block|
        fb_block_widths(b, blk) == fb_block_widths(a, blk))
    &&& fb_addrs(a).subset_of(fb_addrs(b))
}

/// What appending one ordinary (non-branching, non-terminating)
/// instruction does to the builder's state.
pub open spec fn fb_after_emit(
    a: cranelift::prelude::FunctionBuilder,
    b: cranelift::prelude::FunctionBuilder,
    inst: Inst,
) -> bool {
    &&& emitted(b) == emitted(a).push(inst)
    &&& fb_frame(a, b)
    &&& fb_emittable(b)
    &&& fb_complete(b) == fb_complete(a)
    &&& (forall|blk: cranelift::prelude::Block| fb_untargeted(b, blk) == fb_untargeted(a, blk))
}

/// What appending one non-branching terminator does: the current block is
/// filled, and the builder is ready for the next block.
pub open spec fn fb_after_terminator(
    a: cranelift::prelude::FunctionBuilder,
    b: cranelift::prelude::FunctionBuilder,
    inst: Inst,
) -> bool {
    &&& emitted(b) == emitted(a).push(inst)
    &&& fb_frame(a, b)
    &&& !fb_emittable(b)
    &&& fb_ready(b)
    &&& fb_complete(b) == fb_complete(a)
    &&& (forall|blk: cranelift::prelude::Block| fb_untargeted(b, blk) == fb_untargeted(a, blk))
}

/// What the builder operations that emit nothing leave unchanged.
pub open spec fn fb_quiet(
    a: cranelift::prelude::FunctionBuilder,
    b: cranelift::prelude::FunctionBuilder,
) -> bool {
    &&& emitted(b) == emitted(a)
    &&& fb_frame(a, b)
    &&& fb_addrs(b) == fb_addrs(a)
    &&& fb_emittable(b) == fb_emittable(a)
    &&& fb_ready(b) == fb_ready(a)
    &&& fb_complete(b) == fb_complete(a)
    &&& (forall|blk: cranelift::prelude::Block| fb_untargeted(b, blk) == fb_untargeted(a, blk))
}

/// Relies on cranelift's `Context::new`: a fresh compilation context,
/// holding an empty function.
#[verifier::external_body]
pub fn context_new() -> (r: cranelift::codegen::Context)
    ensures
        ctx_func_empty(r),
{
    cranelift::codegen::Context::new()
}

/// Relies on cranelift's `Context::clear`: resets the context — its
/// function included — so it can hold the next one.
#[verifier::external_body]
pub fn context_clear(ctx: &mut cranelift::codegen::Context)
    ensures
        ctx_func_empty(*final(ctx)),
{
    ctx.clear();
}

/// Relies on cranelift's `FunctionBuilderContext::new`: a fresh, unused
/// builder context.
#[verifier::external_body]
pub fn fb_context_new() -> (r: cranelift::prelude::FunctionBuilderContext)
    ensures
        fbctx_clean(r),
{
    cranelift::prelude::FunctionBuilderContext::new()
}

/// Relies on cranelift's `Function::clear`: empties the function under the
/// context so a new one can be built in its place.
#[verifier::external_body]
pub fn func_clear(ctx: &mut cranelift::codegen::Context)
    ensures
        ctx_func_empty(*final(ctx)),
{
    ctx.func.clear();
}

/// Relies on cranelift's `FunctionBuilder::new`, whose own assertion
/// demands an unused builder context: a fresh builder over the context's
/// function, which must be empty — a builder over leftover contents would
/// create blocks whose entity indices no longer start at zero. Nothing has
/// been emitted through it, it has created no blocks, branch-table entries
/// or stack addresses, and no block is current yet.
#[verifier::external_body]
pub fn fb_new<'a>(
    ctx: &'a mut cranelift::codegen::Context,
    fctx: &'a mut cranelift::prelude::FunctionBuilderContext,
) -> (r: cranelift::prelude::FunctionBuilder<'a>)
    requires
        fbctx_clean(*old(fctx)),
        ctx_func_empty(*old(ctx)),
    ensures
        emitted(r) == Seq::<Inst>::empty(),
        fb_ready(r),
        fb_complete(r),
        !fb_emittable(r),
        fb_block_count(r) == 0,
        fb_call_count(r) == 0,
        fb_addrs(r) == Set::<cranelift::prelude::Value>::empty(),
{
    cranelift::prelude::FunctionBuilder::new(&mut ctx.func, fctx)
}

/// Relies on assigning `FunctionBuilder::func.signature`: gives the
/// function being built its declared signature.
#[verifier::external_body]
pub fn set_signature(
    fb: &mut cranelift::prelude::FunctionBuilder,
    sig: &cranelift::prelude::Signature,
)
    ensures
        emitted(*final(fb)) == emitted(*old(fb)),
        fb_params(*final(fb)) == sig_params_model(*sig),
        fb_block_count(*final(fb)) == fb_block_count(*old(fb)),
        fb_addrs(*final(fb)) == fb_addrs(*old(fb)),
        fb_emittable(*final(fb)) == fb_emittable(*old(fb)),
        fb_ready(*final(fb)) == fb_ready(*old(fb)),
        fb_complete(*final(fb)) == fb_complete(*old(fb)),
        forall|blk: cranelift::prelude::Block|
            fb_is_current(*final(fb), blk) == fb_is_current(*old(fb), blk),
        forall|blk: cranelift::prelude::Block|
            fb_virgin(*final(fb), blk) == fb_virgin(*old(fb), blk),
        forall|blk: cranelift::prelude::Block|
            fb_sealed(*final(fb), blk) == fb_sealed(*old(fb), blk),
        forall|blk: cranelift::prelude::Block|
            fb_untargeted(*final(fb), blk) == fb_untargeted(*old(fb), blk),
        forall|blk: cranelift::prelude::Block|
            fb_block_widths(*final(fb), blk) == fb_block_widths(*old(fb), blk),
{
    fb.func.signature = sig.clone();
}

/// Relies on cranelift's `create_block`: a fresh, untouched, unsealed,
/// untargeted block with no parameters, which is not the insertion point.
#[verifier::external_body]
pub fn create_block(fb: &mut cranelift::prelude::FunctionBuilder) -> (r: cranelift::prelude::Block)
    ensures
        emitted(*final(fb)) == emitted(*old(fb)),
        fb_params(*final(fb)) == fb_params(*old(fb)),
        fb_addrs(*final(fb)) == fb_addrs(*old(fb)),
        fb_emittable(*final(fb)) == fb_emittable(*old(fb)),
        fb_ready(*final(fb)) == fb_ready(*old(fb)),
        fb_complete(*final(fb)) == fb_complete(*old(fb)),
        fb_virgin(*final(fb), r),
        !fb_sealed(*final(fb), r),
        fb_untargeted(*final(fb), r),
        !fb_is_current(*final(fb), r),
        fb_block_widths(*final(fb), r) == Seq::<u32>::empty(),
        block_id(r) == fb_block_count(*old(fb)),
        fb_block_count(*final(fb)) == fb_block_count(*old(fb)) + 1,
        forall|blk: cranelift::prelude::Block|
            blk != r ==> fb_is_current(*final(fb), blk) == fb_is_current(*old(fb), blk),
        forall|blk: cranelift::prelude::Block|
            blk != r ==> fb_virgin(*final(fb), blk) == fb_virgin(*old(fb), blk),
        forall|blk: cranelift::prelude::Block|
            blk != r ==> fb_sealed(*final(fb), blk) == fb_sealed(*old(fb), blk),
        forall|blk: cranelift::prelude::Block|
            blk != r ==> fb_untargeted(*final(fb), blk) == fb_untargeted(*old(fb), blk),
        forall|blk: cranelift::prelude::Block|
            blk != r ==> fb_block_widths(*final(fb), blk) == fb_block_widths(*old(fb), blk),
{
    fb.create_block()
}

/// Relies on cranelift's `seal_block`, whose own assertion refuses a
/// double seal: declares that all of the block's predecessors are known.
/// Since no variables are ever declared through this boundary, sealing
/// introduces no block parameters.
#[verifier::external_body]
pub fn seal_block(fb: &mut cranelift::prelude::FunctionBuilder, b: cranelift::prelude::Block)
    requires
        !fb_sealed(*old(fb), b),
    ensures
        emitted(*final(fb)) == emitted(*old(fb)),
        fb_params(*final(fb)) == fb_params(*old(fb)),
        fb_block_count(*final(fb)) == fb_block_count(*old(fb)),
        fb_addrs(*final(fb)) == fb_addrs(*old(fb)),
        fb_emittable(*final(fb)) == fb_emittable(*old(fb)),
        fb_ready(*final(fb)) == fb_ready(*old(fb)),
        fb_complete(*final(fb)) == fb_complete(*old(fb)),
        fb_sealed(*final(fb), b),
        forall|blk: cranelift::prelude::Block|
            blk != b ==> fb_sealed(*final(fb), blk) == fb_sealed(*old(fb), blk),
        forall|blk: cranelift::prelude::Block|
            fb_is_current(*final(fb), blk) == fb_is_current(*old(fb), blk),
        forall|blk: cranelift::prelude::Block|
            fb_virgin(*final(fb), blk) == fb_virgin(*old(fb), blk),
        forall|blk: cranelift::prelude::Block|
            fb_untargeted(*final(fb), blk) == fb_untargeted(*old(fb), blk),
        forall|blk: cranelift::prelude::Block|
            fb_block_widths(*final(fb), blk) == fb_block_widths(*old(fb), blk),
{
    fb.seal_block(b);
}

/// Relies on cranelift's `switch_to_block`, whose own assertions demand a
/// finished (or untouched) previous block and a target that was never
/// entered: makes the sealed block the insertion point.
#[verifier::external_body]
pub fn switch_to_block(fb: &mut cranelift::prelude::FunctionBuilder, b: cranelift::prelude::Block)
    requires
        fb_ready(*old(fb)),
        fb_virgin(*old(fb), b),
        fb_sealed(*old(fb), b),
    ensures
        emitted(*final(fb)) == emitted(*old(fb)),
        fb_params(*final(fb)) == fb_params(*old(fb)),
        fb_block_count(*final(fb)) == fb_block_count(*old(fb)),
        fb_addrs(*final(fb)) == fb_addrs(*old(fb)),
        fb_emittable(*final(fb)),
        fb_ready(*final(fb)),
        fb_complete(*final(fb)) == fb_complete(*old(fb)),
        !fb_virgin(*final(fb), b),
        forall|blk: cranelift::prelude::Block|
            blk != b ==> fb_virgin(*final(fb), blk) == fb_virgin(*old(fb), blk),
        forall|blk: cranelift::prelude::Block| fb_is_current(*final(fb), blk) == (blk == b),
        forall|blk: cranelift::prelude::Block|
            fb_sealed(*final(fb), blk) == fb_sealed(*old(fb), blk),
        forall|blk: cranelift::prelude::Block|
            fb_untargeted(*final(fb), blk) == fb_untargeted(*old(fb), blk),
        forall|blk: cranelift::prelude::Block|
            fb_block_widths(*final(fb), blk) == fb_block_widths(*old(fb), blk),
{
    fb.switch_to_block(b);
}

/// Relies on cranelift's `append_block_param`, whose own assertion refuses
/// a block that already has instructions: adds one parameter of the given
/// width to the untouched block and returns its value.
#[verifier::external_body]
pub fn append_block_param(
    fb: &mut cranelift::prelude::FunctionBuilder,
    b: cranelift::prelude::Block,
    width: u32,
) -> (r: cranelift::prelude::Value)
    requires
        crate::types::valid_width(width),
        fb_virgin(*old(fb), b),
    ensures
        emitted(*final(fb)) == emitted(*old(fb)),
        fb_params(*final(fb)) == fb_params(*old(fb)),
        fb_block_count(*final(fb)) == fb_block_count(*old(fb)),
        fb_addrs(*final(fb)) == fb_addrs(*old(fb)),
        fb_emittable(*final(fb)) == fb_emittable(*old(fb)),
        fb_ready(*final(fb)) == fb_ready(*old(fb)),
        fb_complete(*final(fb)) == fb_complete(*old(fb)),
        fb_block_widths(*final(fb), b) == fb_block_widths(*old(fb), b).push(width),
        forall|blk: cranelift::prelude::Block|
            blk != b ==> fb_block_widths(*final(fb), blk) == fb_block_widths(*old(fb), blk),
        forall|blk: cranelift::prelude::Block|
            fb_is_current(*final(fb), blk) == fb_is_current(*old(fb), blk),
        forall|blk: cranelift::prelude::Block|
            fb_virgin(*final(fb), blk) == fb_virgin(*old(fb), blk),
        forall|blk: cranelift::prelude::Block|
            fb_sealed(*final(fb), blk) == fb_sealed(*old(fb), blk),
        forall|blk: cranelift::prelude::Block|
            fb_untargeted(*final(fb), blk) == fb_untargeted(*old(fb), blk),
{
    let ty = cranelift::prelude::Type::int_with_byte_size(width as u16).unwrap();
    fb.append_block_param(b, ty)
}

/// Relies on cranelift's `append_block_params_for_function_params` and
/// `block_params`, whose own assertions demand an untouched block with no
/// predecessors: adds one block parameter per declared function parameter
/// and hands all of the block's parameter values back, one per parameter
/// the block now carries.
#[verifier::external_body]
pub fn append_entry_params(
    fb: &mut cranelift::prelude::FunctionBuilder,
    b: cranelift::prelude::Block,
) -> (r: Vec<cranelift::prelude::Value>)
    requires
        fb_virgin(*old(fb), b),
        fb_untargeted(*old(fb), b),
    ensures
        emitted(*final(fb)) == emitted(*old(fb)),
        fb_params(*final(fb)) == fb_params(*old(fb)),
        fb_block_count(*final(fb)) == fb_block_count(*old(fb)),
        fb_addrs(*final(fb)) == fb_addrs(*old(fb)),
        fb_emittable(*final(fb)) == fb_emittable(*old(fb)),
        fb_ready(*final(fb)) == fb_ready(*old(fb)),
        fb_complete(*final(fb)) == fb_complete(*old(fb)),
        fb_block_widths(*final(fb), b) == fb_block_widths(*old(fb), b) + param_widths(
            fb_params(*old(fb)),
        ),
        r@.len() == fb_block_widths(*final(fb), b).len(),
        forall|blk: cranelift::prelude::Block|
            blk != b ==> fb_block_widths(*final(fb), blk) == fb_block_widths(*old(fb), blk),
        forall|blk: cranelift::prelude::Block|
            fb_is_current(*final(fb), blk) == fb_is_current(*old(fb), blk),
        forall|blk: cranelift::prelude::Block|
            fb_virgin(*final(fb), blk) == fb_virgin(*old(fb), blk),
        forall|blk: cranelift::prelude::Block|
            fb_sealed(*final(fb), blk) == fb_sealed(*old(fb), blk),
        forall|blk: cranelift::prelude::Block|
            fb_untargeted(*final(fb), blk) == fb_untargeted(*old(fb), blk),
{
    fb.append_block_params_for_function_params(b);
    fb.block_params(b).to_vec()
}

/// Relies on cranelift's `Signature::uses_struct_return_param`: whether
/// the declared signature carries a struct-return pointer parameter.
#[verifier::external_body]
pub fn uses_struct_return_param(fb: &cranelift::prelude::FunctionBuilder) -> (r: bool)
    ensures
        r == (exists|j: int| 0 <= j < fb_params(*fb).len() && (#[trigger] fb_params(*fb)[j]).1),
{
    fb.func.signature.uses_struct_return_param()
}

/// Relies on cranelift's `finalize`: declares the function complete. Its
/// debug-time checks demand that every written block was sealed and
/// terminated.
#[verifier::external_body]
pub fn fb_finalize(
    fb: cranelift::prelude::FunctionBuilder,
    module: &cranelift_object::ObjectModule,
)
    requires
        fb_ready(fb),
        fb_complete(fb),
{
    fb.finalize(module.isa().frontend_config());
}

/// Relies on cranelift's `iconst`: appends an integer constant of the
/// given width.
#[verifier::external_body]
pub fn emit_iconst(
    fb: &mut cranelift::prelude::FunctionBuilder,
    width: u32,
    bits: i64,
) -> (r: cranelift::prelude::Value)
    requires
        crate::types::valid_width(width),
        fb_emittable(*old(fb)),
    ensures
        fb_after_emit(*old(fb), *final(fb), (Inst::Const { width, bits })),
{
    let ty = cranelift::prelude::Type::int_with_byte_size(width as u16).unwrap();
    fb.ins().iconst(ty, bits)
}

/// Relies on cranelift's `iadd`: appends an addition of two scalars.
#[verifier::external_body]
pub fn emit_iadd(
    fb: &mut cranelift::prelude::FunctionBuilder,
    a: cranelift::prelude::Value,
    b: cranelift::prelude::Value,
) -> (r: cranelift::prelude::Value)
    requires
        fb_emittable(*old(fb)),
    ensures
        fb_after_emit(*old(fb), *final(fb), Inst::Add),
{
    fb.ins().iadd(a, b)
}

/// Relies on cranelift's `load`: appends a load of `width` bytes at
/// `offset` from the pointer.
#[verifier::external_body]
pub fn emit_load(
    fb: &mut cranelift::prelude::FunctionBuilder,
    width: u32,
    ptr: cranelift::prelude::Value,
    offset: u32,
) -> (r: cranelift::prelude::Value)
    requires
        crate::types::valid_width(width),
        offset <= 0x7fff_ffff,
        fb_emittable(*old(fb)),
    ensures
        fb_after_emit(*old(fb), *final(fb), (Inst::Load { width, offset })),
{
    let ty = cranelift::prelude::Type::int_with_byte_size(width as u16).unwrap();
    fb.ins().load(ty, cranelift::prelude::MemFlagsData::new(), ptr, offset as i32)
}

/// Relies on cranelift's `store`: appends a store of the value at `offset`
/// from the pointer.
#[verifier::external_body]
pub fn emit_store(
    fb: &mut cranelift::prelude::FunctionBuilder,
    v: cranelift::prelude::Value,
    ptr: cranelift::prelude::Value,
    offset: u32,
)
    requires
        offset <= 0x7fff_ffff,
        fb_emittable(*old(fb)),
    ensures
        fb_after_emit(*old(fb), *final(fb), (Inst::Store { offset })),
{
    fb.ins().store(cranelift::prelude::MemFlagsData::new(), v, ptr, offset as i32);
}

/// Relies on cranelift's `create_sized_stack_slot` and `stack_addr`:
/// reserves `size` bytes of the frame and appends the instruction that
/// takes the slot's address as a pointer-wide value — a fresh SSA value,
/// distinct from every stack address produced before.
#[verifier::external_body]
pub fn emit_stack_addr(
    fb: &mut cranelift::prelude::FunctionBuilder,
    ptr_width: u32,
    size: u32,
) -> (r: cranelift::prelude::Value)
    requires
        crate::types::valid_width(ptr_width),
        fb_emittable(*old(fb)),
    ensures
        fb_after_emit(*old(fb), *final(fb), (Inst::StackAddr { width: ptr_width, size })),
        !fb_addrs(*old(fb)).contains(r),
        fb_addrs(*final(fb)) == fb_addrs(*old(fb)).insert(r),
{
    let slot = fb.create_sized_stack_slot(cranelift::prelude::StackSlotData::new(
        cranelift::prelude::StackSlotKind::ExplicitSlot,
        size,
        0,
    ));
    let ty = cranelift::prelude::Type::int_with_byte_size(ptr_width as u16).unwrap();
    fb.ins().stack_addr(ty, slot, 0)
}

/// Relies on cranelift's `sextend`: appends a sign extension of the value
/// to the given wider width.
#[verifier::external_body]
pub fn emit_sextend(
    fb: &mut cranelift::prelude::FunctionBuilder,
    width: u32,
    v: cranelift::prelude::Value,
) -> (r: cranelift::prelude::Value)
    requires
        crate::types::valid_width(width),
        fb_emittable(*old(fb)),
    ensures
        fb_after_emit(*old(fb), *final(fb), (Inst::SignExtend { width })),
{
    let ty = cranelift::prelude::Type::int_with_byte_size(width as u16).unwrap();
    fb.ins().sextend(ty, v)
}

/// Relies on cranelift's `ireduce`: appends a truncation of the value to
/// the given narrower width.
#[verifier::external_body]
pub fn emit_ireduce(
    fb: &mut cranelift::prelude::FunctionBuilder,
    width: u32,
    v: cranelift::prelude::Value,
) -> (r: cranelift::prelude::Value)
    requires
        crate::types::valid_width(width),
        fb_emittable(*old(fb)),
    ensures
        fb_after_emit(*old(fb), *final(fb), (Inst::Truncate { width })),
{
    let ty = cranelift::prelude::Type::int_with_byte_size(width as u16).unwrap();
    fb.ins().ireduce(ty, v)
}

/// Relies on cranelift's `func_addr`: appends the instruction that takes a
/// declared function's address as a pointer-wide value. The reference must
/// have been imported into this builder's function.
#[verifier::external_body]
pub fn emit_func_addr(
    fb: &mut cranelift::prelude::FunctionBuilder,
    ptr_width: u32,
    fref: cranelift::codegen::ir::FuncRef,
) -> (r: cranelift::prelude::Value)
    requires
        crate::types::valid_width(ptr_width),
        fb_has_func(*old(fb), fref),
        fb_emittable(*old(fb)),
    ensures
        fb_after_emit(*old(fb), *final(fb), Inst::FuncAddr),
{
    let ty = cranelift::prelude::Type::int_with_byte_size(ptr_width as u16).unwrap();
    fb.ins().func_addr(ty, fref)
}

/// Relies on cranelift's `call` and `inst_results`: appends a direct call
/// and hands back whatever values the call produced. The reference must
/// have been imported into this builder's function: a foreign handle would
/// index another function's tables.
#[verifier::external_body]
pub fn emit_call(
    fb: &mut cranelift::prelude::FunctionBuilder,
    fref: cranelift::codegen::ir::FuncRef,
    args: &Vec<cranelift::prelude::Value>,
) -> (r: Vec<cranelift::prelude::Value>)
    requires
        fb_has_func(*old(fb), fref),
        fb_emittable(*old(fb)),
    ensures
        fb_after_emit(*old(fb), *final(fb), (Inst::Call { args: args@.len() as usize })),
{
    let call = fb.ins().call(fref, args.as_slice());
    fb.inst_results(call).to_vec()
}

/// Relies on cranelift's `import_signature`: registers a signature for
/// indirect calls within the function being built.
#[verifier::external_body]
pub fn import_signature(
    fb: &mut cranelift::prelude::FunctionBuilder,
    sig: &cranelift::prelude::Signature,
) -> (r: cranelift::codegen::ir::SigRef)
    ensures
        fb_quiet(*old(fb), *final(fb)),
        fb_has_sig(*final(fb), r),
{
    fb.import_signature(sig.clone())
}

/// Relies on cranelift's `call_indirect` and `inst_results`: appends an
/// indirect call through the callee pointer, passing exactly the given
/// arguments, and hands back its results. The signature reference must
/// have been imported into this builder's function.
#[verifier::external_body]
pub fn emit_call_indirect(
    fb: &mut cranelift::prelude::FunctionBuilder,
    sigref: cranelift::codegen::ir::SigRef,
    callee: cranelift::prelude::Value,
    args: &Vec<cranelift::prelude::Value>,
) -> (r: Vec<cranelift::prelude::Value>)
    requires
        fb_has_sig(*old(fb), sigref),
        fb_emittable(*old(fb)),
    ensures
        fb_after_emit(*old(fb), *final(fb), (Inst::CallIndirect { callee, passed: args@ })),
{
    let call = fb.ins().call_indirect(sigref, callee, args.as_slice());
    fb.inst_results(call).to_vec()
}

/// Relies on cranelift's `return_`: appends the return terminator with the
/// given values, filling the current block.
#[verifier::external_body]
pub fn emit_return(
    fb: &mut cranelift::prelude::FunctionBuilder,
    vals: &Vec<cranelift::prelude::Value>,
)
    requires
        fb_emittable(*old(fb)),
    ensures
        fb_after_terminator(*old(fb), *final(fb), (Inst::Return { vals: vals@.len() as usize })),
{
    fb.ins().return_(vals.as_slice());
}

/// Relies on cranelift's `BlockCall::new`: a fresh branch-table entry of
/// this builder that transfers control to the block with no arguments.
/// Entries made before keep their targets.
#[verifier::external_body]
pub fn block_call(
    fb: &mut cranelift::prelude::FunctionBuilder,
    b: cranelift::prelude::Block,
) -> (r: cranelift::codegen::ir::BlockCall)
    ensures
        fb_quiet(*old(fb), *final(fb)),
        call_target(*final(fb), r) == b,
        block_call_id(r) == fb_call_count(*old(fb)),
        0 <= block_call_id(r),
        fb_call_count(*final(fb)) == fb_call_count(*old(fb)) + 1,
        forall|c: cranelift::codegen::ir::BlockCall|
            0 <= block_call_id(c) < fb_call_count(*old(fb)) ==> call_target(*final(fb), c)
                == call_target(*old(fb), c),
{
    cranelift::codegen::ir::BlockCall::new(
        b,
        core::iter::empty::<cranelift::codegen::ir::BlockArg>(),
        &mut fb.func.dfg.value_lists,
    )
}

/// Relies on cranelift's `JumpTableData::new`, `create_jump_table` and
/// `br_table`, whose predecessor bookkeeping refuses sealed targets:
/// appends the multi-way branch over the tag, with one target per entry of
/// `branches` in order and `default` for every other tag value, filling
/// the current block. Every entry must be one this builder made — a
/// foreign entry would index another function's storage. Only the targeted
/// blocks can gain a predecessor.
#[verifier::external_body]
pub fn emit_br_table(
    fb: &mut cranelift::prelude::FunctionBuilder,
    tag: cranelift::prelude::Value,
    default: cranelift::codegen::ir::BlockCall,
    branches: &Vec<cranelift::codegen::ir::BlockCall>,
)
    requires
        fb_emittable(*old(fb)),
        0 <= block_call_id(default) < fb_call_count(*old(fb)),
        forall|i: int|
            0 <= i < branches@.len() ==> 0 <= block_call_id(#[trigger] branches@[i])
                < fb_call_count(*old(fb)),
        !fb_sealed(*old(fb), call_target(*old(fb), default)),
        forall|i: int|
            0 <= i < branches@.len() ==> !fb_sealed(
                *old(fb),
                call_target(*old(fb), #[trigger] branches@[i]),
            ),
    ensures
        emitted(*final(fb)) == emitted(*old(fb)).push(
            (Inst::BranchTable { branches: branches@.len() as usize }),
        ),
        fb_frame(*old(fb), *final(fb)),
        fb_addrs(*final(fb)) == fb_addrs(*old(fb)),
        !fb_emittable(*final(fb)),
        fb_ready(*final(fb)),
        fb_complete(*final(fb)) == fb_complete(*old(fb)),
        forall|blk: cranelift::prelude::Block|
            fb_untargeted(*old(fb), blk) && blk != call_target(*old(fb), default) && (
            forall|i: int|
                0 <= i < branches@.len() ==> call_target(*old(fb), #[trigger] branches@[i])
                    != blk) ==> fb_untargeted(*final(fb), blk),
{
    let data = cranelift::prelude::JumpTableData::new(default, branches.as_slice());
    let table = fb.create_jump_table(data);
    fb.ins().br_table(tag, table);
}

/// Relies on cranelift's `trap` with a user trap code: appends the
/// unconditional trap terminator, filling the current block. User trap
/// codes run from 1 to 250.
#[verifier::external_body]
pub fn emit_trap(fb: &mut cranelift::prelude::FunctionBuilder, code: u8)
    requires
        1 <= code <= 250,
        fb_emittable(*old(fb)),
    ensures
        fb_after_terminator(*old(fb), *final(fb), Inst::Trap),
{
    fb.ins().trap(cranelift::prelude::TrapCode::user(code).unwrap());
}

/// Relies on cranelift's `Module::isa().pointer_bytes`: the byte width of
/// a pointer on the selected target — 2, 4 or 8.
#[verifier::external_body]
pub fn pointer_bytes(module: &cranelift_object::ObjectModule) -> (r: u32)
    ensures
        r == 2 || r == 4 || r == 8,
{
    module.isa().pointer_bytes() as u32
}

/// Relies on cranelift's `Signature::new` with the module's default
/// calling convention: a signature with no parameters and no returns.
#[verifier::external_body]
pub fn signature_new(module: &cranelift_object::ObjectModule) -> (r: cranelift::prelude::Signature)
    ensures
        sig_params_model(r) == Seq::<(u32, bool)>::empty(),
        sig_returns_model(r) == Seq::<u32>::empty(),
{
    cranelift::prelude::Signature::new(module.isa().default_call_conv())
}

/// Relies on `AbiParam::new` over `Signature::params.push`: appends one
/// ordinary parameter of the given width.
#[verifier::external_body]
pub fn sig_push_param(s: &mut cranelift::prelude::Signature, width: u32)
    requires
        crate::types::valid_width(width),
    ensures
        sig_params_model(*final(s)) == sig_params_model(*old(s)).push((width, false)),
        sig_returns_model(*final(s)) == sig_returns_model(*old(s)),
{
    let ty = cranelift::prelude::Type::int_with_byte_size(width as u16).unwrap();
    s.params.push(cranelift::prelude::AbiParam::new(ty));
}

/// Relies on `AbiParam::special` with the struct-return purpose over
/// `Signature::params.push`: appends the distinguished struct-return
/// pointer parameter.
#[verifier::external_body]
pub fn sig_push_sret_param(s: &mut cranelift::prelude::Signature, width: u32)
    requires
        crate::types::valid_width(width),
    ensures
        sig_params_model(*final(s)) == sig_params_model(*old(s)).push((width, true)),
        sig_returns_model(*final(s)) == sig_returns_model(*old(s)),
{
    let ty = cranelift::prelude::Type::int_with_byte_size(width as u16).unwrap();
    s.params.push(
        cranelift::prelude::AbiParam::special(
            ty,
            cranelift::codegen::ir::ArgumentPurpose::StructReturn,
        ),
    );
}

/// Relies on `AbiParam::new` over `Signature::returns.push`: appends one
/// return of the given width.
#[verifier::external_body]
pub fn sig_push_return(s: &mut cranelift::prelude::Signature, width: u32)
    requires
        crate::types::valid_width(width),
    ensures
        sig_params_model(*final(s)) == sig_params_model(*old(s)),
        sig_returns_model(*final(s)) == sig_returns_model(*old(s)).push(width),
{
    let ty = cranelift::prelude::Type::int_with_byte_size(width as u16).unwrap();
    s.returns.push(cranelift::prelude::AbiParam::new(ty));
}

/// Relies on cranelift's `Module::declare_function`: registers the name
/// with the given signature and linkage (exported or local) and yields its
/// handle. A wholly unused name free of null bytes (which the object
/// writer refuses) always succeeds; redeclaring a name that a
/// function already holds merges onto that function's handle when the
/// signature is identical, and is an error otherwise. Either way, every
/// earlier declaration keeps its name and signature and nothing becomes
/// defined; on success the handle indexes a declaration whose name and
/// signature models are the given ones, and a function handle is nothing
/// but its index.
#[verifier::external_body]
pub fn declare_function(
    module: &mut cranelift_object::ObjectModule,
    name: &str,
    export: bool,
    sig: &cranelift::prelude::Signature,
) -> (r: Result<cranelift_module::FuncId, cranelift_module::ModuleError>)
    ensures
        module_grows(*old(module), *final(module)),
        module_func_count(*final(module)) >= module_func_count(*old(module)),
        module_defined(*final(module)) == module_defined(*old(module)),
        (module_name_free(*old(module), name@) && !name@.contains('\0')) ==> r is Ok,
        forall|n: Seq<char>|
            n != name@ ==> module_name_free(*final(module), n) == module_name_free(
                *old(module),
                n,
            ),
        match r {
            Ok(id) => {
                &&& 0 <= func_id_index(id) < module_func_count(*final(module))
                &&& module_decl_params(*final(module), func_id_index(id)) == sig_params_model(
                    *sig,
                )
                &&& module_decl_returns(*final(module), func_id_index(id)) == sig_returns_model(
                    *sig,
                )
                &&& module_decl_name(*final(module), func_id_index(id)) == name@
                &&& !module_name_free(*final(module), name@)
                &&& (forall|i: int|
                    0 <= i < module_func_count(*old(module)) && module_decl_name(
                        *old(module),
                        i,
                    ) == name@ ==> func_id_index(id) == i)
                &&& (forall|id2: cranelift_module::FuncId|
                    func_id_index(id2) == func_id_index(id) ==> id2 == id)
            },
            Err(_) => true,
        },
{
    let linkage = if export {
        cranelift_module::Linkage::Export
    } else {
        cranelift_module::Linkage::Local
    };
    module.declare_function(name, linkage, sig)
}

/// Relies on cranelift's `Module::declarations().get_function_decl`, which
/// indexes the declaration store: a copy of the signature the function was
/// declared with. The handle must index a declaration of this module.
#[verifier::external_body]
pub fn signature_from_decl(
    module: &cranelift_object::ObjectModule,
    func: cranelift_module::FuncId,
) -> (r: cranelift::prelude::Signature)
    requires
        valid_func_id(*module, func),
    ensures
        sig_params_model(r) == module_decl_params(*module, func_id_index(func)),
        sig_returns_model(r) == module_decl_returns(*module, func_id_index(func)),
{
    module.declarations().get_function_decl(func).signature.clone()
}

/// Relies on cranelift's `Module::declare_func_in_func`, which indexes the
/// declaration store: makes a declared function of this module callable
/// from the function being built. The declarations themselves are
/// untouched.
#[verifier::external_body]
pub fn declare_func_in_func(
    module: &mut cranelift_object::ObjectModule,
    func: cranelift_module::FuncId,
    fb: &mut cranelift::prelude::FunctionBuilder,
) -> (r: cranelift::codegen::ir::FuncRef)
    requires
        valid_func_id(*old(module), func),
    ensures
        fb_quiet(*old(fb), *final(fb)),
        fb_has_func(*final(fb), r),
        module_preserved(*old(module), *final(module)),
        module_defined(*final(module)) == module_defined(*old(module)),
        forall|n: Seq<char>|
            module_name_free(*final(module), n) == module_name_free(*old(module), n),
{
    module.declare_func_in_func(func, fb.func)
}

/// Relies on cranelift's `Module::define_function`, which indexes the
/// declaration store: hands the finished function body of a declared
/// function over to the module. The declarations themselves are untouched;
/// a second definition of one function is refused, and a function counts
/// as defined only when compilation succeeded.
#[verifier::external_body]
pub fn define_function(
    module: &mut cranelift_object::ObjectModule,
    id: cranelift_module::FuncId,
    ctx: &mut cranelift::codegen::Context,
) -> (r: Result<(), cranelift_module::ModuleError>)
    requires
        valid_func_id(*old(module), id),
    ensures
        module_preserved(*old(module), *final(module)),
        forall|n: Seq<char>|
            module_name_free(*final(module), n) == module_name_free(*old(module), n),
        match r {
            Ok(_) => !module_defined(*old(module)).contains(func_id_index(id)) && module_defined(
                *final(module),
            ) == module_defined(*old(module)).insert(func_id_index(id)),
            Err(_) => module_defined(*final(module)) == module_defined(*old(module)),
        },
{
    module.define_function(id, ctx)
}

/// Relies on `Signature::params.len`.
#[verifier::external_body]
pub fn sig_param_count(s: &cranelift::prelude::Signature) -> (r: usize)
    ensures
        r == sig_params_model(*s).len(),
{
    s.params.len()
}

/// Relies on `Signature::returns.len`.
#[verifier::external_body]
pub fn sig_return_count(s: &cranelift::prelude::Signature) -> (r: usize)
    ensures
        r == sig_returns_model(*s).len(),
{
    s.returns.len()
}

/// Relies on indexing `Signature::params` and pushing onto another
/// signature's: copies one declared parameter verbatim.
#[verifier::external_body]
pub fn sig_copy_param(
    dst: &mut cranelift::prelude::Signature,
    src: &cranelift::prelude::Signature,
    i: usize,
)
    requires
        i < sig_params_model(*src).len(),
    ensures
        sig_params_model(*final(dst)) == sig_params_model(*old(dst)).push(
            sig_params_model(*src)[i as int],
        ),
        sig_returns_model(*final(dst)) == sig_returns_model(*old(dst)),
{
    dst.params.push(src.params[i]);
}

/// Relies on indexing `Signature::returns` and pushing onto another
/// signature's: copies one declared return verbatim.
#[verifier::external_body]
pub fn sig_copy_return(
    dst: &mut cranelift::prelude::Signature,
    src: &cranelift::prelude::Signature,
    i: usize,
)
    requires
        i < sig_returns_model(*src).len(),
    ensures
        sig_returns_model(*final(dst)) == sig_returns_model(*old(dst)).push(
            sig_returns_model(*src)[i as int],
        ),
        sig_params_model(*final(dst)) == sig_params_model(*old(dst)),
{
    dst.returns.push(src.returns[i]);
}

/// Relies on `format!`, which embeds the key's decimal digits: the
/// forwarding function's symbol, a pure function of the key, distinct for
/// distinct keys and free of null bytes.
#[verifier::external_body]
pub fn forward_symbol(key: u64) -> (r: String)
    ensures
        r@ == symbol_of(key),
        forall|k2: u64| k2 != key ==> symbol_of(k2) != r@,
        !r@.contains('\0'),
{
    format!("closure_forward_{key}")
}

} // verus!
