//! The Virtual Value model: how one source-level value is represented
//! while a function body is lowered. A value is either one backend scalar,
//! an aggregate materialized in memory (a base pointer plus a cumulative
//! byte offset — nested access is offset addition, never a copy), or an
//! aggregate whose fields are still held individually and have not been
//! committed to memory.
//!
//! A unit value is an uncommitted aggregate with no fields: it carries no
//! runtime storage at all.
//!
//! Contracts speak of a value's mathematical view, `ValueModel`, so that
//! two values that represent the same thing are equal regardless of which
//! allocation holds their field lists.

use vstd::prelude::*;
use crate::types::{
    LookupTable, Ty, agg_field_len, agg_wf, field_ty, spec_agg_size, ty_rank, MAX_AGGREGATE_SIZE,
};

verus! {

/// The index of the distinguished zero-field aggregate that stands for the
/// unit type's storage.
pub const UNIT_AGGREGATE: usize = 0;

/// One source-level value during lowering.
pub enum VirtualValue {
    /// A single scalar, register-resident.
    Scalar(cranelift::prelude::Value),
    /// An aggregate living in memory at `offset` bytes past `base`.
    /// Field access is lazy pointer arithmetic on the offset.
    StackAggregate { type_id: usize, base: cranelift::prelude::Value, offset: u32 },
    /// An aggregate whose fields are still individual virtual values, not
    /// yet committed to any memory location.
    UnstableAggregate { type_id: usize, fields: Vec<VirtualValue> },
}

/// The mathematical view of a virtual value.
#[verifier::ext_equal]
pub enum ValueModel {
    Scalar(cranelift::prelude::Value),
    Stack { type_id: usize, base: cranelift::prelude::Value, offset: u32 },
    Unstable { type_id: usize, fields: Seq<ValueModel> },
}

/// The view of one virtual value.
pub open spec fn vv_model(vv: VirtualValue) -> ValueModel
    decreases vv, 0int,
{
    match vv {
        VirtualValue::Scalar(v) => ValueModel::Scalar(v),
        VirtualValue::StackAggregate { type_id, base, offset } => ValueModel::Stack {
            type_id,
            base,
            offset,
        },
        VirtualValue::UnstableAggregate { type_id, fields } => ValueModel::Unstable {
            type_id,
            fields: vv_models(fields, 0),
        },
    }
}

/// The views of the field list `fields[k..]`.
pub open spec fn vv_models(fields: Vec<VirtualValue>, k: int) -> Seq<ValueModel>
    decreases fields, fields@.len() - k + 1int,
{
    if 0 <= k < fields@.len() {
        seq![vv_model(fields@[k])] + vv_models(fields, k + 1)
    } else {
        seq![]
    }
}

impl View for VirtualValue {
    type V = ValueModel;

    open spec fn view(&self) -> ValueModel {
        vv_model(*self)
    }
}

/// The views of a field list line up with the fields, one for one.
pub proof fn lemma_vv_models_index(fields: Vec<VirtualValue>, k: int)
    requires
        0 <= k <= fields@.len(),
    ensures
        vv_models(fields, k).len() == fields@.len() - k,
        forall|i: int|
            k <= i < fields@.len() ==> vv_models(fields, k)[i - k] == #[trigger] vv_model(
                fields@[i],
            ),
    decreases fields@.len() - k,
{
    if k < fields@.len() {
        lemma_vv_models_index(fields, k + 1);
    }
}

/// The aggregate index a virtual value claims to be of (the unit aggregate
/// for a plain scalar, which claims no aggregate type).
pub open spec fn vv_type_id(m: ValueModel) -> usize {
    match m {
        ValueModel::Scalar(_) => UNIT_AGGREGATE,
        ValueModel::Stack { type_id, .. } => type_id,
        ValueModel::Unstable { type_id, .. } => type_id,
    }
}

/// The sub-value of an uncommitted aggregate at field index `i`.
pub open spec fn vv_field(m: ValueModel, i: int) -> ValueModel {
    match m {
        ValueModel::Unstable { fields, .. } => fields[i],
        _ => m,
    }
}

/// A unit value: an uncommitted aggregate with no fields.
pub open spec fn vv_is_unit(m: ValueModel) -> bool {
    match m {
        ValueModel::Unstable { type_id, fields } => type_id == UNIT_AGGREGATE && fields.len() == 0,
        _ => false,
    }
}

/// A virtual value has the shape its declared type demands: a scalar for
/// the integer type, the unit value for the unit type, and for an
/// aggregate type either a memory-resident form (whose whole extent stays
/// within the backend's offset range) or an uncommitted form with one
/// well-formed sub-value per declared field.
pub open spec fn vv_wf(t: LookupTable, m: ValueModel, ty: Ty) -> bool
    decreases ty_rank(ty), 1int, 0int,
{
    match ty {
        Ty::Unit => vv_is_unit(m),
        Ty::Int => m is Scalar,
        Ty::Struct(s) => s < t.aggregates@.len() && match m {
            ValueModel::Scalar(_) => false,
            ValueModel::Stack { type_id, base, offset } => type_id == s && offset + spec_agg_size(
                t,
                s,
            ) <= MAX_AGGREGATE_SIZE,
            ValueModel::Unstable { type_id, fields } => type_id == s && fields.len()
                == agg_field_len(t, s as int) && vv_fields_wf(t, fields, s as int, 0),
        },
    }
}

/// The fields `k..` of an uncommitted aggregate of type `s` are well
/// formed for their declared types.
pub open spec fn vv_fields_wf(t: LookupTable, fields: Seq<ValueModel>, s: int, k: int) -> bool
    decreases s + 1, 0int, agg_field_len(t, s) - k,
{
    if 0 <= s < t.aggregates@.len() && 0 <= k < agg_field_len(t, s) {
        let fty = field_ty(t, s, k);
        let head = if ty_rank(fty) <= s {
            vv_wf(t, fields[k], fty)
        } else {
            false
        };
        head && vv_fields_wf(t, fields, s, k + 1)
    } else {
        true
    }
}

/// Unfolding helper: each field of a well-formed uncommitted aggregate is
/// itself well formed for its declared type.
pub proof fn lemma_vv_fields_wf_at(
    t: LookupTable,
    fields: Seq<ValueModel>,
    s: int,
    k: int,
    i: int,
)
    requires
        0 <= s < t.aggregates@.len(),
        vv_fields_wf(t, fields, s, k),
        0 <= k <= i < agg_field_len(t, s),
    ensures
        vv_wf(t, fields[i], field_ty(t, s, i)),
        ty_rank(field_ty(t, s, i)) <= s,
    decreases i - k,
{
    if k < i {
        lemma_vv_fields_wf_at(t, fields, s, k + 1, i);
    }
}

/// The converse: sub-values well formed one by one make the field suffix
/// well formed.
pub proof fn lemma_vv_fields_wf_build(t: LookupTable, fields: Seq<ValueModel>, s: int, k: int)
    requires
        0 <= s < t.aggregates@.len(),
        agg_wf(t, s),
        forall|i: int|
            k <= i < agg_field_len(t, s) ==> vv_wf(t, #[trigger] fields[i], field_ty(t, s, i)),
    ensures
        vv_fields_wf(t, fields, s, k),
    decreases agg_field_len(t, s) - k,
{
    if 0 <= k < agg_field_len(t, s) {
        lemma_vv_fields_wf_build(t, fields, s, k + 1);
    }
}

impl VirtualValue {
    /// The unit value: an uncommitted aggregate with no fields.
    pub fn unit() -> (r: VirtualValue)
        ensures
            vv_is_unit(r@),
            forall|t: LookupTable| vv_wf(t, r@, Ty::Unit),
    {
        let r = VirtualValue::UnstableAggregate { type_id: UNIT_AGGREGATE, fields: Vec::new() };
        proof {
            assert(vv_is_unit(r@));
        }
        r
    }

    /// The backend scalar inside a scalar value; taking a scalar out of an
    /// aggregate shape is a lowering-logic bug, so aggregates are excluded.
    pub fn as_scalar(&self) -> (r: cranelift::prelude::Value)
        requires
            self@ is Scalar,
        ensures
            self@ == ValueModel::Scalar(r),
    {
        match self {
            VirtualValue::Scalar(v) => *v,
            _ => unreached(),
        }
    }

    /// A deep copy with the same view.
    pub fn duplicate(&self) -> (r: VirtualValue)
        ensures
            r@ == self@,
        decreases *self,
    {
        match self {
            VirtualValue::Scalar(v) => VirtualValue::Scalar(*v),
            VirtualValue::StackAggregate { type_id, base, offset } => {
                VirtualValue::StackAggregate { type_id: *type_id, base: *base, offset: *offset }
            },
            VirtualValue::UnstableAggregate { type_id, fields } => {
                let mut out: Vec<VirtualValue> = Vec::new();
                let mut k: usize = 0;
                while k < fields.len()
                    invariant
                        k <= fields@.len(),
                        out@.len() == k,
                        forall|j: int| 0 <= j < k ==> (#[trigger] out@[j])@ == fields@[j]@,
                        *self == (VirtualValue::UnstableAggregate {
                            type_id: *type_id,
                            fields: *fields,
                        }),
                    decreases fields@.len() - k,
                {
                    proof {
                        let fv = self->UnstableAggregate_fields;
                        assert(decreases_to!(*self => self->UnstableAggregate_fields));
                        assert(decreases_to!(fv => fv@));
                        assert(decreases_to!(fv@ => fv@[k as int]));
                    }
                    let copy = fields[k].duplicate();
                    out.push(copy);
                    k = k + 1;
                }
                let r = VirtualValue::UnstableAggregate { type_id: *type_id, fields: out };
                proof {
                    lemma_vv_models_index(out, 0);
                    lemma_vv_models_index(*fields, 0);
                    assert forall|i: int|
                        0 <= i < vv_models(out, 0).len() implies vv_models(out, 0)[i]
                        == vv_models(*fields, 0)[i] by {
                        assert(vv_models(out, 0)[i] == vv_model(out@[i]));
                        assert(vv_models(*fields, 0)[i] == vv_model(fields@[i]));
                        assert(out@[i]@ == fields@[i]@);
                    }
                    assert(vv_models(out, 0) =~= vv_models(*fields, 0));
                    assert(r@ =~= self@);
                }
                r
            },
        }
    }
}

/// The first value bound to `name` in a field-binding list, if any.
pub open spec fn binding_for(
    bindings: Seq<(String, VirtualValue)>,
    name: Seq<char>,
) -> Option<ValueModel>
    decreases bindings.len(),
{
    if bindings.len() == 0 {
        Option::None
    } else if bindings[0].0@ == name {
        Option::Some(bindings[0].1@)
    } else {
        binding_for(bindings.drop_first(), name)
    }
}

/// Look a name up in a field-binding list: a value whose view is that of
/// the first value bound to the name.
pub fn find_binding(bindings: &Vec<(String, VirtualValue)>, name: &String) -> (r: Option<
    VirtualValue,
>)
    ensures
        match r {
            Some(v) => binding_for(bindings@, name@) == Some(v@),
            None => binding_for(bindings@, name@) is None,
        },
{
    let n = bindings.len();
    let mut k: usize = 0;
    proof {
        assert(bindings@.skip(0) =~= bindings@);
    }
    while k < n
        invariant
            n == bindings@.len(),
            k <= n,
            binding_for(bindings@, name@) == binding_for(bindings@.skip(k as int), name@),
        decreases n - k,
    {
        proof {
            assert(bindings@.skip(k as int)[0] == bindings@[k as int]);
            assert(bindings@.skip(k as int).drop_first() =~= bindings@.skip(k as int + 1));
        }
        if bindings[k].0 == *name {
            let v = bindings[k].1.duplicate();
            return Some(v);
        }
        k = k + 1;
    }
    proof {
        assert(bindings@.skip(n as int).len() == 0);
    }
    None
}

} // verus!
