//! The aligned layout policy: how a flat list of scalar fields is placed
//! in memory when every field must sit at a multiple of its own natural
//! alignment, and the whole aggregate must be padded to the alignment of
//! its largest field. This is the reference policy for production use; the
//! resolver's packed layout deliberately omits the padding.
//!
//! An aggregate is given here as its list of scalar field widths in bytes.

use vstd::prelude::*;
use crate::types::valid_width;

verus! {

/// Bound on the number of scalar fields one aligned aggregate may have, so
/// that offsets (at most 16 bytes per field, padding included) fit in a
/// 32-bit size.
pub const MAX_ALIGNED_FIELDS: usize = 0x0100_0000;

/// `x` rounded up to the next multiple of `a`.
pub open spec fn spec_align_up(x: int, a: int) -> int {
    x + ((a - x % a) % a)
}

/// The alignment of a scalar field: its own width.
pub open spec fn spec_scalar_align(w: u32) -> int {
    w as int
}

/// The byte offset of field `i`: the previous field's end, rounded up to
/// this field's alignment.
pub open spec fn spec_aligned_offset(ws: Seq<u32>, i: int) -> int
    decreases i,
{
    if i <= 0 {
        0
    } else {
        spec_align_up(spec_aligned_offset(ws, i - 1) + ws[i - 1], spec_scalar_align(ws[i]))
    }
}

/// Where the last field ends: the aggregate's size before trailing padding.
pub open spec fn spec_aligned_end(ws: Seq<u32>) -> int {
    if ws.len() == 0 {
        0
    } else {
        spec_aligned_offset(ws, ws.len() - 1) + ws[ws.len() - 1]
    }
}

/// The aggregate's own alignment: that of its largest field (1 when there
/// are no fields).
pub open spec fn spec_struct_align(ws: Seq<u32>) -> int
    decreases ws.len(),
{
    if ws.len() == 0 {
        1
    } else {
        let rest = spec_struct_align(ws.drop_last());
        if ws[ws.len() - 1] >= rest {
            ws[ws.len() - 1] as int
        } else {
            rest
        }
    }
}

/// The aggregate's size: where its last field ends, rounded up to the
/// aggregate's own alignment.
pub open spec fn spec_aligned_size(ws: Seq<u32>) -> int {
    spec_align_up(spec_aligned_end(ws), spec_struct_align(ws))
}

/// All field widths are scalar widths the backend knows.
pub open spec fn widths_valid(ws: Seq<u32>) -> bool {
    forall|j: int| 0 <= j < ws.len() ==> valid_width(#[trigger] ws[j])
}

/// Rounding up to one of the scalar alignments lands on a multiple of it,
/// never passes the next one, and never moves backwards.
pub proof fn lemma_align_up(x: int, a: int)
    requires
        x >= 0,
        a == 1 || a == 2 || a == 4 || a == 8,
    ensures
        x <= spec_align_up(x, a) < x + a,
        spec_align_up(x, a) % a == 0,
{
}

/// Field offsets are non-negative and grow at most 16 bytes per field.
pub proof fn lemma_aligned_offset_bound(ws: Seq<u32>, i: int)
    requires
        widths_valid(ws),
        0 <= i < ws.len(),
    ensures
        0 <= spec_aligned_offset(ws, i) <= 16 * i,
    decreases i,
{
    if i == 0 {
    } else {
        lemma_aligned_offset_bound(ws, i - 1);
        lemma_align_up(
            spec_aligned_offset(ws, i - 1) + ws[i - 1],
            spec_scalar_align(ws[i]),
        );
    }
}

/// Aligned-layout law: every field's offset is a multiple of that field's
/// own alignment.
pub proof fn lemma_aligned_offset_divisible(ws: Seq<u32>, i: int)
    requires
        widths_valid(ws),
        0 <= i < ws.len(),
    ensures
        spec_aligned_offset(ws, i) % spec_scalar_align(ws[i]) == 0,
{
    assert(valid_width(ws[i]));
    if i == 0 {
        assert(spec_aligned_offset(ws, 0) == 0);
    } else {
        lemma_aligned_offset_bound(ws, i - 1);
        lemma_align_up(
            spec_aligned_offset(ws, i - 1) + ws[i - 1],
            spec_scalar_align(ws[i]),
        );
    }
}

/// The aggregate's alignment is one of the scalar alignments, and at least
/// as large as every field's.
pub proof fn lemma_struct_align_bounds(ws: Seq<u32>)
    requires
        widths_valid(ws),
    ensures
        spec_struct_align(ws) == 1 || spec_struct_align(ws) == 2 || spec_struct_align(ws) == 4
            || spec_struct_align(ws) == 8,
        forall|j: int| 0 <= j < ws.len() ==> ws[j] <= spec_struct_align(ws),
    decreases ws.len(),
{
    if ws.len() > 0 {
        assert(forall|j: int| 0 <= j < ws.drop_last().len() ==> ws.drop_last()[j] == ws[j]);
        lemma_struct_align_bounds(ws.drop_last());
    }
}

/// Aligned-layout law: the aggregate's size is a multiple of its own
/// alignment.
pub proof fn lemma_aligned_size_divisible(ws: Seq<u32>)
    requires
        widths_valid(ws),
    ensures
        spec_aligned_size(ws) % spec_struct_align(ws) == 0,
{
    lemma_struct_align_bounds(ws);
    if ws.len() == 0 {
        lemma_align_up(0, spec_struct_align(ws));
    } else {
        lemma_aligned_offset_bound(ws, ws.len() - 1);
        lemma_align_up(spec_aligned_end(ws), spec_struct_align(ws));
    }
}

/// Strict monotonicity of aligned offsets: every field ends strictly
/// before the next field begins (every scalar width is positive).
pub proof fn lemma_aligned_offsets_strictly_monotone(ws: Seq<u32>, i: int)
    requires
        widths_valid(ws),
        0 <= i,
        i + 1 < ws.len(),
    ensures
        spec_aligned_offset(ws, i) < spec_aligned_offset(ws, i + 1),
{
    lemma_aligned_offset_bound(ws, i);
    lemma_align_up(spec_aligned_offset(ws, i) + ws[i], spec_scalar_align(ws[i + 1]));
}

/// The last field ends within the aggregate's size.
pub proof fn lemma_aligned_last_fits(ws: Seq<u32>)
    requires
        widths_valid(ws),
        ws.len() > 0,
    ensures
        spec_aligned_offset(ws, ws.len() - 1) + ws[ws.len() - 1] <= spec_aligned_size(ws),
{
    lemma_struct_align_bounds(ws);
    lemma_aligned_offset_bound(ws, ws.len() - 1);
    lemma_align_up(spec_aligned_end(ws), spec_struct_align(ws));
}

/// `x` rounded up to the next multiple of the scalar alignment `a`.
pub fn align_up(x: u32, a: u32) -> (r: u32)
    requires
        valid_width(a),
        x + a <= u32::MAX,
    ensures
        r == spec_align_up(x as int, a as int),
{
    proof {
        lemma_align_up(x as int, a as int);
    }
    let rem = x % a;
    if rem == 0 {
        x
    } else {
        x + (a - rem)
    }
}

/// The alignment of one scalar field: its own width.
pub fn alignment_of_scalar_type(of: u32) -> (r: u32)
    ensures
        r == spec_scalar_align(of),
{
    of
}

/// The alignment of a whole aggregate: its largest field's alignment.
pub fn alignment_of_struct(fields: &Vec<u32>) -> (r: u32)
    requires
        widths_valid(fields@),
    ensures
        r == spec_struct_align(fields@),
{
    let mut alignment: u32 = 1;
    let mut j: usize = 0;
    while j < fields.len()
        invariant
            widths_valid(fields@),
            j <= fields@.len(),
            alignment == spec_struct_align(fields@.take(j as int)),
            alignment == 1 || alignment == 2 || alignment == 4 || alignment == 8,
        decreases fields@.len() - j,
    {
        let w = fields[j];
        proof {
            assert(valid_width(fields@[j as int]));
            assert(fields@.take(j as int + 1).drop_last() =~= fields@.take(j as int));
            assert(fields@.take(j as int + 1)[j as int] == fields@[j as int]);
        }
        if w > alignment {
            alignment = w;
        }
        j = j + 1;
    }
    proof {
        assert(fields@.take(fields@.len() as int) =~= fields@);
    }
    alignment
}

/// The byte offset of field `field` under the aligned layout policy.
pub fn offset_of_field(field: usize, fields: &Vec<u32>) -> (r: u32)
    requires
        widths_valid(fields@),
        field < fields@.len(),
        fields@.len() <= MAX_ALIGNED_FIELDS,
    ensures
        r == spec_aligned_offset(fields@, field as int),
{
    let mut offset: u32 = 0;
    let mut i: usize = 0;
    while i < field
        invariant
            widths_valid(fields@),
            field < fields@.len(),
            fields@.len() <= MAX_ALIGNED_FIELDS,
            i <= field,
            offset == spec_aligned_offset(fields@, i as int),
            offset <= 16 * i,
        decreases field - i,
    {
        proof {
            assert(valid_width(fields@[i as int]));
            assert(valid_width(fields@[i as int + 1]));
            lemma_align_up(
                offset + fields@[i as int],
                spec_scalar_align(fields@[i as int + 1]),
            );
        }
        let next = align_up(offset + fields[i], fields[i + 1]);
        offset = next;
        i = i + 1;
    }
    offset
}

/// The byte size of an aggregate under the aligned layout policy: each
/// field is padded to its own alignment, and the aggregate is padded to
/// its largest field's alignment.
pub fn size_of_struct(fields: &Vec<u32>) -> (r: u32)
    requires
        widths_valid(fields@),
        fields@.len() <= MAX_ALIGNED_FIELDS,
    ensures
        r == spec_aligned_size(fields@),
{
    let n = fields.len();
    let align = alignment_of_struct(fields);
    proof {
        lemma_struct_align_bounds(fields@);
    }
    if n == 0 {
        proof {
            lemma_align_up(0, spec_struct_align(fields@));
        }
        0
    } else {
        let last_off = offset_of_field(n - 1, fields);
        proof {
            lemma_aligned_offset_bound(fields@, n as int - 1);
            assert(valid_width(fields@[n as int - 1]));
        }
        let end = last_off + fields[n - 1];
        align_up(end, align)
    }
}

} // verus!
