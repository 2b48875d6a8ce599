//! The Layout Resolver: the immutable table of named aggregate definitions,
//! and the size, offset and passing-mode decisions derived from it.
//!
//! The table is built once, before any lowering begins, and is read-only
//! afterwards. Aggregates are identified by the index at which they were
//! added; a definition may only reference aggregates added before it, so
//! every layout question terminates.

use vstd::prelude::*;

verus! {

/// Width in bytes of the one integer scalar type of the source language.
pub const INT_BYTES: u32 = 4;

/// An aggregate whose flattened scalar count is at most this passes by
/// scalars; anything larger passes behind a pointer. A policy constant,
/// not a language rule.
pub const PASS_BY_SCALARS_LIMIT: usize = 2;

/// Upper bound on the byte size of one aggregate, so that every offset
/// fits comfortably in the backend's 32-bit signed offsets.
pub const MAX_AGGREGATE_SIZE: u32 = 0x7fff_ffff;

/// A source-language type: the unit type, the fixed-width integer scalar,
/// or a reference to a named aggregate definition by its index.
#[derive(Clone, Copy, PartialEq, Eq, Structural, Debug)]
pub enum Ty {
    Unit,
    Int,
    Struct(usize),
}

/// Whether an aggregate crosses a call boundary flattened into scalar
/// registers or behind a pointer.
#[derive(Clone, Copy, PartialEq, Eq, Structural, Debug)]
pub enum Mode {
    ByScalars,
    ByPointer,
}

/// One named field of an aggregate definition.
pub struct FieldDef {
    pub name: String,
    pub ty: Ty,
}

/// A named aggregate: its ordered, offset-determining field list.
pub struct AggregateDef {
    pub name: String,
    pub fields: Vec<FieldDef>,
}

/// A declared function: parameter types and return type.
pub struct FnDef {
    pub name: String,
    pub params: Vec<Ty>,
    pub ret: Ty,
}

/// The resolver's state: every aggregate and function definition, plus the
/// target's pointer width in bytes.
pub struct LookupTable {
    pub aggregates: Vec<AggregateDef>,
    pub functions: Vec<FnDef>,
    pub ptr_bytes: u32,
}

/// The scalar widths the backend can represent as integer types.
pub open spec fn valid_width(w: u32) -> bool {
    w == 1 || w == 2 || w == 4 || w == 8
}

/// Termination measure: a struct reference ranks above everything the
/// well-formed table lets it mention.
pub open spec fn ty_rank(ty: Ty) -> int {
    match ty {
        Ty::Struct(s) => s + 1,
        _ => 0,
    }
}

/// A type is valid for a table when every aggregate it references exists;
/// `bound` additionally caps which aggregates it may reference.
pub open spec fn ty_valid_below(ty: Ty, bound: int) -> bool {
    match ty {
        Ty::Struct(s) => s < bound,
        _ => true,
    }
}

/// The flattened scalar widths of a type: one entry per leaf scalar field,
/// in declaration order, recursing through nested aggregates.
pub open spec fn flat_widths(t: LookupTable, ty: Ty) -> Seq<u32>
    decreases ty_rank(ty), 1int, 0int,
{
    match ty {
        Ty::Unit => seq![],
        Ty::Int => seq![INT_BYTES],
        Ty::Struct(s) => {
            if s < t.aggregates@.len() {
                fields_flat_widths(t, s as int, 0)
            } else {
                seq![]
            }
        },
    }
}

/// Flattened widths of fields `k..` of aggregate `s`.
pub open spec fn fields_flat_widths(t: LookupTable, s: int, k: int) -> Seq<u32>
    decreases s + 1, 0int, agg_field_len(t, s) - k,
{
    if 0 <= s < t.aggregates@.len() && 0 <= k < agg_field_len(t, s) {
        let fty = t.aggregates@[s].fields@[k].ty;
        let head = if ty_rank(fty) <= s {
            flat_widths(t, fty)
        } else {
            seq![]
        };
        head + fields_flat_widths(t, s, k + 1)
    } else {
        seq![]
    }
}

/// Number of fields of aggregate `s`.
pub open spec fn agg_field_len(t: LookupTable, s: int) -> int {
    t.aggregates@[s].fields@.len() as int
}

/// Sum of a sequence of widths.
pub open spec fn width_sum(ws: Seq<u32>) -> int
    decreases ws.len(),
{
    if ws.len() == 0 {
        0
    } else {
        ws[0] + width_sum(ws.drop_first())
    }
}

/// The byte size of a type under the packed (no padding) layout policy:
/// the sum of its flattened scalar widths.
pub open spec fn spec_size_of(t: LookupTable, ty: Ty) -> int {
    width_sum(flat_widths(t, ty))
}

/// The byte offset of field `i` of aggregate `s`: the summed sizes of the
/// fields declared before it.
pub open spec fn spec_offset_of(t: LookupTable, s: int, i: int) -> int
    decreases i,
{
    if i <= 0 {
        0
    } else {
        spec_offset_of(t, s, i - 1) + spec_size_of(t, t.aggregates@[s].fields@[i - 1].ty)
    }
}

/// The type of field `k` of aggregate `s`.
pub open spec fn field_ty(t: LookupTable, s: int, k: int) -> Ty {
    t.aggregates@[s].fields@[k].ty
}

/// The name of field `k` of aggregate `s`.
pub open spec fn field_name(t: LookupTable, s: int, k: int) -> Seq<char> {
    t.aggregates@[s].fields@[k].name@
}

/// The passing mode of aggregate `s`: by scalars when its flattened scalar
/// count is within the policy limit, behind a pointer otherwise. A
/// zero-field aggregate therefore always passes by scalars.
pub open spec fn spec_mode(t: LookupTable, s: usize) -> Mode {
    if flat_widths(t, Ty::Struct(s)).len() <= PASS_BY_SCALARS_LIMIT {
        Mode::ByScalars
    } else {
        Mode::ByPointer
    }
}

/// The size of aggregate `s`, as a function of its index.
pub open spec fn spec_agg_size(t: LookupTable, s: usize) -> int {
    spec_size_of(t, Ty::Struct(s))
}

/// One aggregate definition is well formed: every field references only
/// aggregates declared before this one, and field names are unique.
pub open spec fn agg_wf(t: LookupTable, s: int) -> bool {
    &&& (forall|k: int|
        0 <= k < agg_field_len(t, s) ==> ty_rank(#[trigger] field_ty(t, s, k)) <= s)
    &&& (forall|k1: int, k2: int|
        0 <= k1 < k2 < agg_field_len(t, s) ==> field_name(t, s, k1) != field_name(t, s, k2))
}

/// One function definition is well formed: its parameter and return types
/// reference only declared aggregates.
pub open spec fn fn_wf(t: LookupTable, f: int) -> bool {
    &&& (forall|j: int|
        0 <= j < t.functions@[f].params@.len() ==> ty_valid_below(
            #[trigger] t.functions@[f].params@[j],
            t.aggregates@.len() as int,
        ))
    &&& ty_valid_below(t.functions@[f].ret, t.aggregates@.len() as int)
}

/// The resolver's invariant, established at construction and kept for the
/// lifetime of the compilation unit: a valid pointer width, the zero-field
/// unit aggregate at index 0, definitions that reference only earlier
/// definitions, unique field names, bounded aggregate sizes, and function
/// signatures over declared types only.
pub open spec fn table_wf(t: LookupTable) -> bool {
    &&& (t.ptr_bytes == 4 || t.ptr_bytes == 8)
    &&& t.aggregates@.len() >= 1
    &&& agg_field_len(t, 0) == 0
    &&& (forall|s: int| 0 <= s < t.aggregates@.len() ==> agg_wf(t, s))
    &&& (forall|s: usize|
        s < t.aggregates@.len() ==> #[trigger] spec_agg_size(t, s) <= MAX_AGGREGATE_SIZE)
    &&& (forall|f: int| 0 <= f < t.functions@.len() ==> fn_wf(t, f))
}

/// A type all of whose aggregate references exist in the table.
pub open spec fn ty_valid(t: LookupTable, ty: Ty) -> bool {
    ty_valid_below(ty, t.aggregates@.len() as int)
}

/// The sum of a width sequence is never negative.
pub proof fn lemma_width_sum_nonneg(ws: Seq<u32>)
    ensures
        width_sum(ws) >= 0,
    decreases ws.len(),
{
    if ws.len() != 0 {
        lemma_width_sum_nonneg(ws.drop_first());
    }
}

/// Summing distributes over concatenation of width sequences.
pub proof fn lemma_width_sum_concat(a: Seq<u32>, b: Seq<u32>)
    ensures
        width_sum(a + b) == width_sum(a) + width_sum(b),
    decreases a.len(),
{
    if a.len() == 0 {
        assert(a + b =~= b);
    } else {
        assert((a + b).drop_first() =~= a.drop_first() + b);
        lemma_width_sum_concat(a.drop_first(), b);
    }
}

/// Walking field offsets forward keeps the running total in step with the
/// widths still to be flattened: the offset of field `i` plus the size of
/// everything from field `i` on equals the whole aggregate's size.
pub proof fn lemma_offset_plus_suffix(t: LookupTable, s: usize, i: int)
    requires
        s < t.aggregates@.len(),
        agg_wf(t, s as int),
        0 <= i <= agg_field_len(t, s as int),
    ensures
        spec_offset_of(t, s as int, i) + width_sum(fields_flat_widths(t, s as int, i))
            == spec_agg_size(t, s),
    decreases i,
{
    assert(flat_widths(t, Ty::Struct(s)) == fields_flat_widths(t, s as int, 0));
    if i == 0 {
    } else {
        lemma_offset_plus_suffix(t, s, i - 1);
        let fty = field_ty(t, s as int, i - 1);
        assert(ty_rank(fty) <= s);
        assert(fields_flat_widths(t, s as int, i - 1) == flat_widths(t, fty)
            + fields_flat_widths(t, s as int, i));
        lemma_width_sum_concat(flat_widths(t, fty), fields_flat_widths(t, s as int, i));
    }
}

/// No-padding policy: the size of an aggregate is exactly the sum of its
/// fields' sizes (the offset one past the last field).
pub proof fn lemma_size_is_field_sum(t: LookupTable, s: usize)
    requires
        table_wf(t),
        s < t.aggregates@.len(),
    ensures
        spec_agg_size(t, s) == spec_offset_of(t, s as int, agg_field_len(t, s as int)),
{
    let flen = agg_field_len(t, s as int);
    lemma_offset_plus_suffix(t, s, flen);
    assert(fields_flat_widths(t, s as int, flen) =~= Seq::<u32>::empty());
}

/// Field offsets never decrease, and each offset stays within the
/// aggregate's size.
pub proof fn lemma_offset_bounds(t: LookupTable, s: usize, i: int)
    requires
        table_wf(t),
        s < t.aggregates@.len(),
        0 <= i <= agg_field_len(t, s as int),
    ensures
        0 <= spec_offset_of(t, s as int, i) <= spec_agg_size(t, s),
    decreases i,
{
    lemma_offset_plus_suffix(t, s, i);
    lemma_width_sum_nonneg(fields_flat_widths(t, s as int, i));
    if i == 0 {
    } else {
        lemma_offset_bounds(t, s, i - 1);
        lemma_width_sum_nonneg(flat_widths(t, field_ty(t, s as int, i - 1)));
    }
}

/// Strict monotonicity of offsets: a field with a positive size ends
/// strictly before the next field begins. (A zero-sized field — a unit or
/// an empty aggregate — shares its offset with its successor, so those are
/// excluded.)
pub proof fn lemma_offsets_strictly_monotone(t: LookupTable, s: usize, i: int)
    requires
        table_wf(t),
        s < t.aggregates@.len(),
        0 <= i,
        i + 1 < agg_field_len(t, s as int),
        spec_size_of(t, field_ty(t, s as int, i)) > 0,
    ensures
        spec_offset_of(t, s as int, i) < spec_offset_of(t, s as int, i + 1),
{
}

/// The last field ends exactly at the aggregate's size: its offset plus its
/// size equals (and so never exceeds) the size of the whole aggregate.
pub proof fn lemma_last_field_fits(t: LookupTable, s: usize)
    requires
        table_wf(t),
        s < t.aggregates@.len(),
        agg_field_len(t, s as int) > 0,
    ensures
        spec_offset_of(t, s as int, agg_field_len(t, s as int) - 1) + spec_size_of(
            t,
            field_ty(t, s as int, agg_field_len(t, s as int) - 1),
        ) == spec_agg_size(t, s),
{
    lemma_size_is_field_sum(t, s);
}

/// Passing-mode determinism: the mode is a pure function of the table and
/// the aggregate, so any two computations of it within one compilation
/// agree.
pub proof fn lemma_passing_mode_deterministic(t: LookupTable, s: usize, m1: Mode, m2: Mode)
    requires
        m1 == spec_mode(t, s),
        m2 == spec_mode(t, s),
    ensures
        m1 == m2,
{
}

/// Every flattened scalar of a source type is the integer scalar.
pub proof fn lemma_flat_widths_int(t: LookupTable, ty: Ty)
    ensures
        forall|j: int|
            0 <= j < flat_widths(t, ty).len() ==> #[trigger] flat_widths(t, ty)[j] == INT_BYTES,
    decreases ty_rank(ty), 1int, 0int,
{
    match ty {
        Ty::Unit => {
            assert(flat_widths(t, ty).len() == 0);
        },
        Ty::Int => {
            assert(flat_widths(t, ty) == seq![INT_BYTES]);
        },
        Ty::Struct(s) => {
            if s < t.aggregates@.len() {
                lemma_fields_flat_widths_int(t, s as int, 0);
                assert(flat_widths(t, ty) == fields_flat_widths(t, s as int, 0));
            } else {
                assert(flat_widths(t, ty).len() == 0);
            }
        },
    }
}

/// Every flattened scalar contributed by fields `k..` of aggregate `s` is
/// the integer scalar.
pub proof fn lemma_fields_flat_widths_int(t: LookupTable, s: int, k: int)
    ensures
        forall|j: int|
            0 <= j < fields_flat_widths(t, s, k).len() ==> #[trigger] fields_flat_widths(
                t,
                s,
                k,
            )[j] == INT_BYTES,
    decreases s + 1, 0int, agg_field_len(t, s) - k,
{
    if 0 <= s < t.aggregates@.len() && 0 <= k < agg_field_len(t, s) {
        let fty = t.aggregates@[s].fields@[k].ty;
        let head = if ty_rank(fty) <= s {
            flat_widths(t, fty)
        } else {
            seq![]
        };
        let tail = fields_flat_widths(t, s, k + 1);
        if ty_rank(fty) <= s {
            lemma_flat_widths_int(t, fty);
        }
        lemma_fields_flat_widths_int(t, s, k + 1);
        assert(fields_flat_widths(t, s, k) == head + tail);
        assert forall|j: int| 0 <= j < fields_flat_widths(t, s, k).len() implies #[trigger]
        fields_flat_widths(t, s, k)[j] == INT_BYTES by {
            if j < head.len() {
                assert(fields_flat_widths(t, s, k)[j] == head[j]);
            } else {
                assert(fields_flat_widths(t, s, k)[j] == tail[j - head.len()]);
            }
        }
    } else {
        assert(fields_flat_widths(t, s, k).len() == 0);
    }
}

/// The name of aggregate `s`.
pub open spec fn agg_name(t: LookupTable, s: int) -> Seq<char> {
    t.aggregates@[s].name@
}

/// The summed sizes (in the table `t`) of the first `i` prospective fields.
pub open spec fn fields_size_sum(t: LookupTable, fields: Seq<FieldDef>, i: int) -> int
    decreases i,
{
    if i <= 0 {
        0
    } else {
        fields_size_sum(t, fields, i - 1) + spec_size_of(t, fields[i - 1].ty)
    }
}

/// What a prospective aggregate definition must satisfy to be accepted:
/// fields reference only declared aggregates, field names are unique, and
/// the summed size stays within the aggregate size bound.
pub open spec fn new_agg_ok(t: LookupTable, fields: Seq<FieldDef>) -> bool {
    &&& (forall|k: int|
        0 <= k < fields.len() ==> ty_valid_below(#[trigger] fields[k].ty, t.aggregates@.len() as int))
    &&& (forall|k1: int, k2: int|
        0 <= k1 < k2 < fields.len() ==> fields[k1].name@ != fields[k2].name@)
    &&& fields_size_sum(t, fields, fields.len() as int) <= MAX_AGGREGATE_SIZE
}

/// A sequence of equal widths sums to that width times its length.
pub proof fn lemma_width_sum_const(ws: Seq<u32>, c: u32)
    requires
        forall|j: int| 0 <= j < ws.len() ==> ws[j] == c,
    ensures
        width_sum(ws) == c * ws.len(),
    decreases ws.len(),
{
    if ws.len() == 0 {
    } else {
        assert(forall|j: int|
            0 <= j < ws.drop_first().len() ==> #[trigger] ws.drop_first()[j] == ws[j + 1]);
        lemma_width_sum_const(ws.drop_first(), c);
        assert(width_sum(ws) == c + c * (ws.len() - 1)) by (nonlinear_arith)
            requires
                width_sum(ws) == ws[0] + width_sum(ws.drop_first()),
                ws[0] == c,
                width_sum(ws.drop_first()) == c * (ws.len() - 1),
        ;
        assert(c + c * (ws.len() - 1) == c * ws.len()) by (nonlinear_arith);
    }
}

/// Two tables that agree on a prefix of aggregate definitions agree on the
/// flattened widths of every type whose references stay inside that prefix.
/// Appending a definition therefore never changes an existing layout.
pub proof fn lemma_extend_flat_widths(t1: LookupTable, t2: LookupTable, ty: Ty)
    requires
        t1.aggregates@.len() <= t2.aggregates@.len(),
        forall|s: int|
            0 <= s < t1.aggregates@.len() ==> t2.aggregates@[s] == t1.aggregates@[s],
        ty_rank(ty) <= t1.aggregates@.len(),
    ensures
        flat_widths(t2, ty) == flat_widths(t1, ty),
    decreases ty_rank(ty), 1int, 0int,
{
    match ty {
        Ty::Unit => {},
        Ty::Int => {},
        Ty::Struct(s) => {
            lemma_extend_fields_flat_widths(t1, t2, s as int, 0);
        },
    }
}

/// Companion to `lemma_extend_flat_widths`, over the field suffixes of one
/// preserved aggregate.
pub proof fn lemma_extend_fields_flat_widths(t1: LookupTable, t2: LookupTable, s: int, k: int)
    requires
        t1.aggregates@.len() <= t2.aggregates@.len(),
        forall|s2: int|
            0 <= s2 < t1.aggregates@.len() ==> t2.aggregates@[s2] == t1.aggregates@[s2],
        s < t1.aggregates@.len(),
    ensures
        fields_flat_widths(t2, s, k) == fields_flat_widths(t1, s, k),
    decreases s + 1, 0int, agg_field_len(t1, s) - k,
{
    if 0 <= s && 0 <= k < agg_field_len(t1, s) {
        let fty = t1.aggregates@[s].fields@[k].ty;
        assert(t2.aggregates@[s] == t1.aggregates@[s]);
        if ty_rank(fty) <= s {
            lemma_extend_flat_widths(t1, t2, fty);
        }
        lemma_extend_fields_flat_widths(t1, t2, s, k + 1);
    } else if 0 <= s {
        assert(t2.aggregates@[s] == t1.aggregates@[s]);
    }
}

/// Appending a definition leaves the offsets of every preserved aggregate
/// unchanged too.
pub proof fn lemma_extend_offsets(t1: LookupTable, t2: LookupTable, s: usize, i: int)
    requires
        t1.aggregates@.len() <= t2.aggregates@.len(),
        forall|s2: int|
            0 <= s2 < t1.aggregates@.len() ==> t2.aggregates@[s2] == t1.aggregates@[s2],
        s < t1.aggregates@.len(),
        agg_wf(t1, s as int),
        0 <= i <= agg_field_len(t1, s as int),
    ensures
        spec_offset_of(t2, s as int, i) == spec_offset_of(t1, s as int, i),
    decreases i,
{
    if i > 0 {
        lemma_extend_offsets(t1, t2, s, i - 1);
        let fty = field_ty(t1, s as int, i - 1);
        assert(t2.aggregates@[s as int] == t1.aggregates@[s as int]);
        assert(ty_rank(fty) <= s);
        lemma_extend_flat_widths(t1, t2, fty);
    }
}

/// The offsets inside a freshly appended aggregate are the partial sums of
/// its fields' sizes as computed in the table it was added to.
pub proof fn lemma_new_agg_offsets(t1: LookupTable, t2: LookupTable, fields: Seq<FieldDef>, i: int)
    requires
        t2.aggregates@.len() == t1.aggregates@.len() + 1,
        forall|s2: int|
            0 <= s2 < t1.aggregates@.len() ==> t2.aggregates@[s2] == t1.aggregates@[s2],
        t2.aggregates@[t1.aggregates@.len() as int].fields@ == fields,
        forall|k: int|
            0 <= k < fields.len() ==> ty_valid_below(
                #[trigger] fields[k].ty,
                t1.aggregates@.len() as int,
            ),
        0 <= i <= fields.len(),
    ensures
        spec_offset_of(t2, t1.aggregates@.len() as int, i) == fields_size_sum(t1, fields, i),
    decreases i,
{
    let n = t1.aggregates@.len() as int;
    if i > 0 {
        lemma_new_agg_offsets(t1, t2, fields, i - 1);
        let fty = fields[i - 1].ty;
        assert(field_ty(t2, n, i - 1) == fty);
        lemma_extend_flat_widths(t1, t2, fty);
    }
}

/// Partial sums of prospective field sizes only grow.
pub proof fn lemma_fields_size_sum_mono(t: LookupTable, fields: Seq<FieldDef>, i: int, j: int)
    requires
        0 <= i <= j,
    ensures
        fields_size_sum(t, fields, i) <= fields_size_sum(t, fields, j),
    decreases j - i,
{
    if i < j {
        lemma_fields_size_sum_mono(t, fields, i, j - 1);
        lemma_width_sum_nonneg(flat_widths(t, fields[j - 1].ty));
    }
}

impl LookupTable {
    /// A fresh table for a target with the given pointer width. It starts
    /// with only the distinguished zero-field aggregate that stands for the
    /// unit type's storage.
    pub fn new(ptr_bytes: u32) -> (r: LookupTable)
        requires
            ptr_bytes == 4 || ptr_bytes == 8,
        ensures
            table_wf(r),
            r.aggregates@.len() == 1,
            agg_field_len(r, 0) == 0,
            r.functions@.len() == 0,
            r.ptr_bytes == ptr_bytes,
    {
        let mut aggregates: Vec<AggregateDef> = Vec::new();
        aggregates.push(AggregateDef { name: "unit".to_owned(), fields: Vec::new() });
        let r = LookupTable { aggregates, functions: Vec::new(), ptr_bytes };
        proof {
            assert(agg_field_len(r, 0) == 0);
            assert(fields_flat_widths(r, 0, 0) =~= Seq::<u32>::empty());
            assert(spec_agg_size(r, 0) == 0);
            assert forall|s: usize| s < r.aggregates@.len() implies #[trigger] spec_agg_size(r, s)
                <= MAX_AGGREGATE_SIZE by {
                assert(s == 0);
            }
        }
        r
    }

    /// How many aggregates are declared.
    pub fn aggregate_count(&self) -> (r: usize)
        ensures
            r == self.aggregates@.len(),
    {
        self.aggregates.len()
    }

    /// How many fields aggregate `s` declares.
    pub fn field_count(&self, s: usize) -> (r: usize)
        requires
            s < self.aggregates@.len(),
        ensures
            r == agg_field_len(*self, s as int),
    {
        self.aggregates[s].fields.len()
    }

    /// The declared type of field `i` of aggregate `s`.
    pub fn type_of_field(&self, s: usize, i: usize) -> (r: Ty)
        requires
            table_wf(*self),
            s < self.aggregates@.len(),
            i < agg_field_len(*self, s as int),
        ensures
            r == field_ty(*self, s as int, i as int),
            ty_valid(*self, r),
            ty_rank(r) <= s,
    {
        proof {
            assert(agg_wf(*self, s as int));
        }
        self.aggregates[s].fields[i].ty
    }

    /// The flattened scalar widths of a type, one entry per leaf scalar, in
    /// declaration order.
    pub fn flat_widths_of(&self, ty: Ty) -> (r: Vec<u32>)
        requires
            table_wf(*self),
            ty_valid(*self, ty),
        ensures
            r@ == flat_widths(*self, ty),
        decreases ty_rank(ty),
    {
        match ty {
            Ty::Unit => {
                let r: Vec<u32> = Vec::new();
                proof {
                    assert(r@ =~= flat_widths(*self, ty));
                }
                r
            },
            Ty::Int => {
                let mut r: Vec<u32> = Vec::new();
                r.push(INT_BYTES);
                proof {
                    assert(r@ =~= flat_widths(*self, ty));
                }
                r
            },
            Ty::Struct(s) => {
                let flen = self.aggregates[s].fields.len();
                let mut out: Vec<u32> = Vec::new();
                let mut k: usize = 0;
                proof {
                    assert(agg_wf(*self, s as int));
                }
                while k < flen
                    invariant
                        table_wf(*self),
                        ty == Ty::Struct(s),
                        s < self.aggregates@.len(),
                        flen == agg_field_len(*self, s as int),
                        k <= flen,
                        out@ + fields_flat_widths(*self, s as int, k as int)
                            == fields_flat_widths(*self, s as int, 0),
                    decreases flen - k,
                {
                    let fty = self.aggregates[s].fields[k].ty;
                    proof {
                        assert(agg_wf(*self, s as int));
                        assert(fty == field_ty(*self, s as int, k as int));
                        assert(ty_rank(fty) <= s);
                    }
                    let mut part = self.flat_widths_of(fty);
                    let ghost prev = out@;
                    out.append(&mut part);
                    proof {
                        assert(fields_flat_widths(*self, s as int, k as int) == flat_widths(
                            *self,
                            fty,
                        ) + fields_flat_widths(*self, s as int, k as int + 1));
                        assert(out@ + fields_flat_widths(*self, s as int, k as int + 1)
                            =~= prev + fields_flat_widths(*self, s as int, k as int));
                    }
                    k = k + 1;
                }
                proof {
                    assert(fields_flat_widths(*self, s as int, flen as int) =~= Seq::<
                        u32,
                    >::empty());
                    assert(out@ =~= out@ + fields_flat_widths(*self, s as int, flen as int));
                }
                out
            },
        }
    }

    /// The byte size of a type under the packed layout policy: the sum of
    /// its flattened scalar widths.
    pub fn size_of(&self, ty: Ty) -> (r: u32)
        requires
            table_wf(*self),
            ty_valid(*self, ty),
        ensures
            r == spec_size_of(*self, ty),
            r <= MAX_AGGREGATE_SIZE,
        decreases ty_rank(ty),
    {
        match ty {
            Ty::Unit => {
                proof {
                    assert(flat_widths(*self, ty) =~= Seq::<u32>::empty());
                    assert(width_sum(Seq::<u32>::empty()) == 0);
                    assert(spec_size_of(*self, ty) == 0);
                }
                0
            },
            Ty::Int => {
                proof {
                    assert(flat_widths(*self, ty) == seq![INT_BYTES]);
                    assert(seq![INT_BYTES].drop_first() =~= Seq::<u32>::empty());
                    assert(width_sum(Seq::<u32>::empty()) == 0);
                    assert(spec_size_of(*self, ty) == INT_BYTES);
                }
                INT_BYTES
            },
            Ty::Struct(s) => {
                let flen = self.aggregates[s].fields.len();
                let mut acc: u32 = 0;
                let mut k: usize = 0;
                proof {
                    assert(agg_wf(*self, s as int));
                }
                while k < flen
                    invariant
                        table_wf(*self),
                        ty == Ty::Struct(s),
                        s < self.aggregates@.len(),
                        flen == agg_field_len(*self, s as int),
                        k <= flen,
                        acc == spec_offset_of(*self, s as int, k as int),
                    decreases flen - k,
                {
                    let fty = self.aggregates[s].fields[k].ty;
                    proof {
                        assert(agg_wf(*self, s as int));
                        assert(fty == field_ty(*self, s as int, k as int));
                        assert(ty_rank(fty) <= s);
                    }
                    let fsz = self.size_of(fty);
                    proof {
                        lemma_offset_bounds(*self, s, k as int + 1);
                        assert(spec_agg_size(*self, s) <= MAX_AGGREGATE_SIZE);
                    }
                    acc = acc + fsz;
                    k = k + 1;
                }
                proof {
                    lemma_size_is_field_sum(*self, s);
                }
                acc
            },
        }
    }

    /// The byte offset of field `i` of aggregate `s` under the packed
    /// layout policy: the summed sizes of the fields declared before it.
    /// The field's own size still fits between its offset and the
    /// aggregate's size.
    pub fn offset_of(&self, s: usize, i: usize) -> (r: u32)
        requires
            table_wf(*self),
            s < self.aggregates@.len(),
            i < agg_field_len(*self, s as int),
        ensures
            r == spec_offset_of(*self, s as int, i as int),
            r + spec_size_of(*self, field_ty(*self, s as int, i as int)) <= spec_agg_size(
                *self,
                s,
            ),
    {
        let mut acc: u32 = 0;
        let mut k: usize = 0;
        proof {
            assert(agg_wf(*self, s as int));
        }
        while k < i
            invariant
                table_wf(*self),
                s < self.aggregates@.len(),
                i < agg_field_len(*self, s as int),
                k <= i,
                acc == spec_offset_of(*self, s as int, k as int),
            decreases i - k,
        {
            let fty = self.aggregates[s].fields[k].ty;
            proof {
                assert(agg_wf(*self, s as int));
                assert(fty == field_ty(*self, s as int, k as int));
                assert(ty_rank(fty) <= s);
            }
            let fsz = self.size_of(fty);
            proof {
                lemma_offset_bounds(*self, s, k as int + 1);
                assert(spec_agg_size(*self, s) <= MAX_AGGREGATE_SIZE);
            }
            acc = acc + fsz;
            k = k + 1;
        }
        proof {
            lemma_offset_bounds(*self, s, i as int + 1);
            assert(spec_offset_of(*self, s as int, i as int + 1) == spec_offset_of(
                *self,
                s as int,
                i as int,
            ) + spec_size_of(*self, field_ty(*self, s as int, i as int)));
            lemma_offset_plus_suffix(*self, s, i as int + 1);
            lemma_width_sum_nonneg(fields_flat_widths(*self, s as int, i as int + 1));
        }
        acc
    }

    /// The passing mode of aggregate `s`: by scalars when the flattened
    /// scalar count is within the policy limit, behind a pointer otherwise.
    pub fn passing_mode(&self, s: usize) -> (r: Mode)
        requires
            table_wf(*self),
            s < self.aggregates@.len(),
        ensures
            r == spec_mode(*self, s),
    {
        let ws = self.flat_widths_of(Ty::Struct(s));
        if ws.len() <= PASS_BY_SCALARS_LIMIT {
            Mode::ByScalars
        } else {
            Mode::ByPointer
        }
    }

    /// Look a field up by name within aggregate `s`: the index of the first
    /// (and, by the table invariant, only) field with that name, or `None`
    /// when no field has it.
    pub fn resolve_field(&self, s: usize, name: &String) -> (r: Option<usize>)
        requires
            table_wf(*self),
            s < self.aggregates@.len(),
        ensures
            match r {
                Some(i) => i < agg_field_len(*self, s as int) && field_name(
                    *self,
                    s as int,
                    i as int,
                ) == name@ && (forall|j: int|
                    0 <= j < i ==> field_name(*self, s as int, j) != name@),
                None => forall|j: int|
                    0 <= j < agg_field_len(*self, s as int) ==> field_name(*self, s as int, j)
                        != name@,
            },
    {
        let flen = self.aggregates[s].fields.len();
        let mut k: usize = 0;
        while k < flen
            invariant
                table_wf(*self),
                s < self.aggregates@.len(),
                flen == agg_field_len(*self, s as int),
                k <= flen,
                forall|j: int| 0 <= j < k ==> field_name(*self, s as int, j) != name@,
            decreases flen - k,
        {
            if self.aggregates[s].fields[k].name == *name {
                return Some(k);
            }
            k = k + 1;
        }
        None
    }

    /// Declare a new aggregate. It is accepted — and its index returned —
    /// exactly when its fields reference only already-declared aggregates,
    /// its field names are unique, and its size stays within the bound;
    /// otherwise the table is left unchanged. Accepting a definition never
    /// changes the layout of any earlier one.
    pub fn add_aggregate(&mut self, name: String, fields: Vec<FieldDef>) -> (r: Option<usize>)
        requires
            table_wf(*old(self)),
        ensures
            table_wf(*final(self)),
            match r {
                Some(id) => {
                    &&& id == old(self).aggregates@.len()
                    &&& final(self).aggregates@ == old(self).aggregates@.push(
                        (AggregateDef { name: name, fields: fields }),
                    )
                    &&& final(self).functions@ == old(self).functions@
                    &&& final(self).ptr_bytes == old(self).ptr_bytes
                    &&& new_agg_ok(*old(self), fields@)
                    &&& spec_agg_size(*final(self), id) == fields_size_sum(
                        *old(self),
                        fields@,
                        fields@.len() as int,
                    )
                    &&& (forall|ty: Ty|
                        ty_valid(*old(self), ty) ==> flat_widths(*final(self), ty) == flat_widths(
                            *old(self),
                            ty,
                        ))
                },
                None => *final(self) == *old(self) && !new_agg_ok(*old(self), fields@),
            },
    {
        let n = self.aggregates.len();
        let flen = fields.len();
        let mut k: usize = 0;
        while k < flen
            invariant
                *self == *old(self),
                table_wf(*self),
                n == self.aggregates@.len(),
                flen == fields@.len(),
                k <= flen,
                forall|j: int| 0 <= j < k ==> ty_valid_below(#[trigger] fields@[j].ty, n as int),
            decreases flen - k,
        {
            match fields[k].ty {
                Ty::Struct(j) => {
                    if j >= n {
                        return None;
                    }
                },
                _ => {},
            }
            k = k + 1;
        }
        let mut k1: usize = 0;
        while k1 < flen
            invariant
                *self == *old(self),
                table_wf(*self),
                flen == fields@.len(),
                k1 <= flen,
                forall|j1: int, j2: int|
                    0 <= j1 < j2 < flen && j1 < k1 ==> fields@[j1].name@ != fields@[j2].name@,
            decreases flen - k1,
        {
            let mut k2: usize = k1 + 1;
            while k2 < flen
                invariant
                    *self == *old(self),
                    table_wf(*self),
                    flen == fields@.len(),
                    k1 < flen,
                    k1 < k2 <= flen,
                    forall|j2: int| k1 < j2 < k2 ==> fields@[k1 as int].name@ != fields@[j2].name@,
                decreases flen - k2,
            {
                if fields[k1].name == fields[k2].name {
                    return None;
                }
                k2 = k2 + 1;
            }
            k1 = k1 + 1;
        }
        let mut acc: u64 = 0;
        let mut k3: usize = 0;
        while k3 < flen
            invariant
                *self == *old(self),
                table_wf(*self),
                n == self.aggregates@.len(),
                flen == fields@.len(),
                k3 <= flen,
                forall|j: int| 0 <= j < flen ==> ty_valid_below(#[trigger] fields@[j].ty, n as int),
                acc == fields_size_sum(*self, fields@, k3 as int),
                acc <= MAX_AGGREGATE_SIZE,
            decreases flen - k3,
        {
            let fty = fields[k3].ty;
            let fsz = self.size_of(fty);
            acc = acc + fsz as u64;
            if acc > MAX_AGGREGATE_SIZE as u64 {
                proof {
                    lemma_fields_size_sum_mono(*self, fields@, k3 as int + 1, flen as int);
                }
                return None;
            }
            k3 = k3 + 1;
        }
        let ghost t1 = *self;
        let ghost fields_v = fields@;
        self.aggregates.push(AggregateDef { name, fields });
        proof {
            let t2 = *self;
            assert(t2.aggregates@[n as int].fields@ == fields_v);
            assert forall|s2: int| 0 <= s2 < n implies t2.aggregates@[s2] == t1.aggregates@[s2] by {
            }
            // The new definition is well formed on its own.
            assert(agg_wf(t2, n as int)) by {
                assert(agg_field_len(t2, n as int) == flen);
                assert forall|k: int|
                    0 <= k < agg_field_len(t2, n as int) implies ty_rank(
                    #[trigger] field_ty(t2, n as int, k),
                ) <= n by {
                    assert(field_ty(t2, n as int, k) == fields_v[k].ty);
                    assert(ty_valid_below(fields_v[k].ty, n as int));
                }
                assert forall|k1: int, k2: int|
                    0 <= k1 < k2 < agg_field_len(t2, n as int) implies field_name(t2, n as int, k1)
                    != field_name(t2, n as int, k2) by {
                    assert(field_name(t2, n as int, k1) == fields_v[k1].name@);
                    assert(field_name(t2, n as int, k2) == fields_v[k2].name@);
                }
            }
            // Every preserved definition keeps its shape and its layout.
            assert forall|s2: int| 0 <= s2 < t2.aggregates@.len() implies agg_wf(t2, s2) by {
                if s2 < n {
                    assert(t2.aggregates@[s2] == t1.aggregates@[s2]);
                    assert(agg_wf(t1, s2));
                    assert forall|k: int|
                        0 <= k < agg_field_len(t2, s2) implies ty_rank(
                        #[trigger] field_ty(t2, s2, k),
                    ) <= s2 by {
                        assert(field_ty(t2, s2, k) == field_ty(t1, s2, k));
                    }
                    assert forall|k1: int, k2: int|
                        0 <= k1 < k2 < agg_field_len(t2, s2) implies field_name(t2, s2, k1)
                        != field_name(t2, s2, k2) by {
                        assert(field_name(t2, s2, k1) == field_name(t1, s2, k1));
                        assert(field_name(t2, s2, k2) == field_name(t1, s2, k2));
                    }
                }
            }
            assert forall|s2: usize| s2 < t2.aggregates@.len() implies #[trigger] spec_agg_size(
                t2,
                s2,
            ) <= MAX_AGGREGATE_SIZE by {
                if s2 < n {
                    lemma_extend_flat_widths(t1, t2, Ty::Struct(s2));
                    assert(spec_agg_size(t1, s2) <= MAX_AGGREGATE_SIZE);
                } else {
                    assert(s2 == n);
                    lemma_new_agg_offsets(t1, t2, fields_v, flen as int);
                    lemma_offset_plus_suffix(t2, s2, flen as int);
                    assert(fields_flat_widths(t2, n as int, flen as int) =~= Seq::<u32>::empty());
                }
            }
            assert forall|f: int| 0 <= f < t2.functions@.len() implies fn_wf(t2, f) by {
                assert(fn_wf(t1, f));
                assert(t2.functions@[f] == t1.functions@[f]);
                assert forall|j: int|
                    0 <= j < t2.functions@[f].params@.len() implies ty_valid_below(
                    #[trigger] t2.functions@[f].params@[j],
                    t2.aggregates@.len() as int,
                ) by {
                    assert(t2.functions@[f].params@[j] == t1.functions@[f].params@[j]);
                }
            }
            assert(agg_field_len(t2, 0) == 0) by {
                assert(t2.aggregates@[0] == t1.aggregates@[0]);
            }
            assert(spec_agg_size(t2, n) == fields_size_sum(t1, fields_v, flen as int)) by {
                lemma_new_agg_offsets(t1, t2, fields_v, flen as int);
                lemma_offset_plus_suffix(t2, n, flen as int);
                assert(fields_flat_widths(t2, n as int, flen as int) =~= Seq::<u32>::empty());
            }
            assert forall|ty: Ty| ty_valid(t1, ty) implies flat_widths(t2, ty) == flat_widths(
                t1,
                ty,
            ) by {
                lemma_extend_flat_widths(t1, t2, ty);
            }
        }
        Some(n)
    }

    /// Declare a new function. It is accepted — and its index returned —
    /// exactly when its parameter and return types reference only declared
    /// aggregates; otherwise the table is left unchanged.
    pub fn add_function(&mut self, name: String, params: Vec<Ty>, ret: Ty) -> (r: Option<usize>)
        requires
            table_wf(*old(self)),
        ensures
            table_wf(*final(self)),
            match r {
                Some(id) => {
                    &&& id == old(self).functions@.len()
                    &&& final(self).functions@ == old(self).functions@.push(
                        (FnDef { name: name, params: params, ret: ret }),
                    )
                    &&& final(self).aggregates@ == old(self).aggregates@
                    &&& final(self).ptr_bytes == old(self).ptr_bytes
                    &&& (forall|j: int|
                        0 <= j < params@.len() ==> ty_valid(*old(self), #[trigger] params@[j]))
                    &&& ty_valid(*old(self), ret)
                    &&& (forall|ty: Ty|
                        ty_valid(*old(self), ty) ==> flat_widths(*final(self), ty) == flat_widths(
                            *old(self),
                            ty,
                        ))
                },
                None => *final(self) == *old(self) && ((exists|j: int|
                    0 <= j < params@.len() && !ty_valid(*old(self), #[trigger] params@[j]))
                    || !ty_valid(*old(self), ret)),
            },
    {
        let n = self.aggregates.len();
        let plen = params.len();
        match ret {
            Ty::Struct(j) => {
                if j >= n {
                    return None;
                }
            },
            _ => {},
        }
        let mut k: usize = 0;
        while k < plen
            invariant
                *self == *old(self),
                table_wf(*self),
                n == self.aggregates@.len(),
                plen == params@.len(),
                k <= plen,
                forall|j: int| 0 <= j < k ==> ty_valid_below(#[trigger] params@[j], n as int),
            decreases plen - k,
        {
            match params[k] {
                Ty::Struct(j) => {
                    if j >= n {
                        return None;
                    }
                },
                _ => {},
            }
            k = k + 1;
        }
        let id = self.functions.len();
        let ghost t1 = *self;
        self.functions.push(FnDef { name, params, ret });
        proof {
            let t2 = *self;
            assert(t2.aggregates@ == t1.aggregates@);
            assert forall|s2: int| 0 <= s2 < t2.aggregates@.len() implies agg_wf(t2, s2) by {
                assert(agg_wf(t1, s2));
                assert forall|k: int|
                    0 <= k < agg_field_len(t2, s2) implies ty_rank(
                    #[trigger] field_ty(t2, s2, k),
                ) <= s2 by {
                    assert(field_ty(t2, s2, k) == field_ty(t1, s2, k));
                }
                assert forall|k1: int, k2: int|
                    0 <= k1 < k2 < agg_field_len(t2, s2) implies field_name(t2, s2, k1)
                    != field_name(t2, s2, k2) by {
                    assert(field_name(t2, s2, k1) == field_name(t1, s2, k1));
                    assert(field_name(t2, s2, k2) == field_name(t1, s2, k2));
                }
            }
            assert forall|s2: usize| s2 < t2.aggregates@.len() implies #[trigger] spec_agg_size(
                t2,
                s2,
            ) <= MAX_AGGREGATE_SIZE by {
                lemma_extend_flat_widths(t1, t2, Ty::Struct(s2));
                assert(spec_agg_size(t1, s2) <= MAX_AGGREGATE_SIZE);
            }
            assert forall|f: int| 0 <= f < t2.functions@.len() implies fn_wf(t2, f) by {
                if f < t1.functions@.len() {
                    assert(t2.functions@[f] == t1.functions@[f]);
                    assert(fn_wf(t1, f));
                } else {
                    assert(t2.functions@[f].params@ == params@);
                }
            }
            assert forall|ty: Ty| ty_valid(t1, ty) implies flat_widths(t2, ty) == flat_widths(
                t1,
                ty,
            ) by {
                lemma_extend_flat_widths(t1, t2, ty);
            }
        }
        Some(id)
    }


    /// The sample table the worked examples use: a two-field `Point`
    /// aggregate, a `Player` aggregate nesting it, and the two functions
    /// `main` and `move_right` over them. Every acceptance check is proved
    /// to pass, so the shape of the result is pinned exactly.
    pub fn hardcoded(ptr_bytes: u32) -> (r: LookupTable)
        requires
            ptr_bytes == 4 || ptr_bytes == 8,
        ensures
            table_wf(r),
            r.ptr_bytes == ptr_bytes,
            r.aggregates@.len() == 3,
            agg_name(r, 1) == "Point"@,
            agg_field_len(r, 1) == 2,
            field_ty(r, 1, 0) == Ty::Int,
            field_ty(r, 1, 1) == Ty::Int,
            field_name(r, 1, 0) == "x"@,
            field_name(r, 1, 1) == "y"@,
            agg_name(r, 2) == "Player"@,
            agg_field_len(r, 2) == 2,
            field_ty(r, 2, 0) == Ty::Int,
            field_ty(r, 2, 1) == Ty::Struct(1),
            field_name(r, 2, 0) == "id"@,
            field_name(r, 2, 1) == "position"@,
            spec_agg_size(r, 1) == 8,
            spec_agg_size(r, 2) == 12,
            r.functions@.len() == 2,
            r.functions@[0].name@ == "main"@,
            r.functions@[0].params@.len() == 0,
            r.functions@[0].ret == Ty::Int,
            r.functions@[1].name@ == "move_right"@,
            r.functions@[1].params@ == seq![Ty::Struct(2), Ty::Int],
            r.functions@[1].ret == Ty::Struct(2),
    {
        let mut t = LookupTable::new(ptr_bytes);
        proof {
            assert(spec_size_of(t, Ty::Int) == 4) by {
                assert(flat_widths(t, Ty::Int) == seq![INT_BYTES]);
                assert(seq![INT_BYTES].drop_first() =~= Seq::<u32>::empty());
                assert(width_sum(Seq::<u32>::empty()) == 0);
            }
        }

        let mut point_fields: Vec<FieldDef> = Vec::new();
        point_fields.push(FieldDef { name: "x".to_owned(), ty: Ty::Int });
        point_fields.push(FieldDef { name: "y".to_owned(), ty: Ty::Int });
        proof {
            reveal_strlit("x");
            reveal_strlit("y");
            assert(("x")@ != ("y")@) by {
                assert(("x")@[0] == 'x');
                assert(("y")@[0] == 'y');
            }
            assert(point_fields@[0].ty == Ty::Int);
            assert(point_fields@[1].ty == Ty::Int);
            assert(point_fields@[0].name@ == ("x")@);
            assert(point_fields@[1].name@ == ("y")@);
            assert(fields_size_sum(t, point_fields@, 0) == 0);
            assert(fields_size_sum(t, point_fields@, 1) == 4);
            assert(fields_size_sum(t, point_fields@, 2) == 8);
            assert(new_agg_ok(t, point_fields@));
        }
        let ghost t1 = t;
        let ghost pf = point_fields@;
        let point = match t.add_aggregate("Point".to_owned(), point_fields) {
            Some(id) => id,
            None => {
                proof {
                    assert(false);
                }
                unreached()
            },
        };

        proof {
            assert(spec_size_of(t, Ty::Int) == 4) by {
                assert(flat_widths(t, Ty::Int) == seq![INT_BYTES]);
                assert(seq![INT_BYTES].drop_first() =~= Seq::<u32>::empty());
                assert(width_sum(Seq::<u32>::empty()) == 0);
            }
            assert(point == 1);
            assert(pf.len() == 2);
            assert(spec_agg_size(t, point) == fields_size_sum(t1, pf, 2));
            assert(spec_size_of(t, Ty::Struct(point)) == 8);
        }
        let mut player_fields: Vec<FieldDef> = Vec::new();
        player_fields.push(FieldDef { name: "id".to_owned(), ty: Ty::Int });
        player_fields.push(FieldDef { name: "position".to_owned(), ty: Ty::Struct(point) });
        proof {
            reveal_strlit("id");
            reveal_strlit("position");
            assert(("id")@ != ("position")@) by {
                assert(("id")@.len() == 2);
                assert(("position")@.len() == 8);
            }
            assert(player_fields@[0].ty == Ty::Int);
            assert(player_fields@[1].ty == Ty::Struct(point));
            assert(player_fields@[0].name@ == ("id")@);
            assert(player_fields@[1].name@ == ("position")@);
            assert(fields_size_sum(t, player_fields@, 0) == 0);
            assert(fields_size_sum(t, player_fields@, 1) == 4);
            assert(fields_size_sum(t, player_fields@, 2) == 12);
            assert(new_agg_ok(t, player_fields@));
        }
        let ghost t2 = t;
        let ghost plf = player_fields@;
        let player = match t.add_aggregate("Player".to_owned(), player_fields) {
            Some(id) => id,
            None => {
                proof {
                    assert(false);
                }
                unreached()
            },
        };

        match t.add_function("main".to_owned(), Vec::new(), Ty::Int) {
            Some(_) => {},
            None => {
                proof {
                    assert(false);
                }
                unreached()
            },
        }
        let mut mr_params: Vec<Ty> = Vec::new();
        mr_params.push(Ty::Struct(player));
        mr_params.push(Ty::Int);
        let ghost mr_params_v = mr_params@;
        match t.add_function("move_right".to_owned(), mr_params, Ty::Struct(player)) {
            Some(_) => {},
            None => {
                proof {
                    assert(mr_params_v[0] == Ty::Struct(2));
                    assert(false);
                }
                unreached()
            },
        }
        proof {
            assert(t.functions@[1].params@ =~= seq![Ty::Struct(2), Ty::Int]);
        }
        t
    }

    /// Look an aggregate up by name: the index of the first aggregate with
    /// that name, or `None` when no aggregate has it.
    pub fn resolve_aggregate(&self, name: &String) -> (r: Option<usize>)
        requires
            table_wf(*self),
        ensures
            match r {
                Some(s) => s < self.aggregates@.len() && agg_name(*self, s as int) == name@ && (
                forall|j: int| 0 <= j < s ==> agg_name(*self, j) != name@),
                None => forall|j: int|
                    0 <= j < self.aggregates@.len() ==> agg_name(*self, j) != name@,
            },
    {
        let n = self.aggregates.len();
        let mut k: usize = 0;
        while k < n
            invariant
                n == self.aggregates@.len(),
                k <= n,
                forall|j: int| 0 <= j < k ==> agg_name(*self, j) != name@,
            decreases n - k,
        {
            if self.aggregates[k].name == *name {
                return Some(k);
            }
            k = k + 1;
        }
        None
    }
}

} // verus!

