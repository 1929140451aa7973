//! The span enumerator: the byte ranges a compiled layout occupies.
//!
//! Spans exist for validation and introspection only, never for access: a
//! caller typically checks that the minimum span offset is 0 and that the
//! maximum span end equals the expected total record size, cross-checking
//! an externally supplied table against its source. Offsets are reported
//! in 64-bit arithmetic, so enumeration is total: no stride or length in
//! range can overflow a span.

use vstd::prelude::*;
use crate::compile::{
    ArrayFieldLayout, FieldLayout, MatrixArrayFieldLayout, RecordLayout, SimpleFieldLayout,
    SpecFieldLayout,
};
use crate::matrix_types::MatrixKind;
use crate::primitive_types::PrimitiveKind;

verus! {

broadcast use {vstd::std_specs::vec::group_vec_axioms, crate::compile::group_layout_view_lemmas};

/// One physical byte range consumed by a field: `length` bytes starting at
/// `offset`.
#[derive(Clone, Copy, PartialEq, Eq, Structural, Debug)]
pub struct FieldSpan {
    /// Byte offset of the range, relative to the record's start.
    pub offset: u64,
    /// Byte length of the range.
    pub length: u64,
}

/// The single span of a scalar or vector field.
pub open spec fn spec_primitive_span(k: PrimitiveKind, l: SimpleFieldLayout) -> Seq<FieldSpan> {
    seq![FieldSpan { offset: l.offset as u64, length: k.spec_size() as u64 }]
}

/// The first `i` spans of a strided primitive array: element `j` occupies
/// one value-sized range at `offset + j * stride`.
pub open spec fn spec_array_spans(k: PrimitiveKind, l: ArrayFieldLayout, i: int) -> Seq<FieldSpan>
    decreases i,
{
    if i <= 0 {
        Seq::empty()
    } else {
        spec_array_spans(k, l, i - 1).push(
            FieldSpan {
                offset: (l.offset + (i - 1) * l.stride) as u64,
                length: k.spec_size() as u64,
            },
        )
    }
}

/// The first `c` column spans of one matrix whose columns start at
/// `offset` and are `stride` apart: one range of `4 * rows` bytes per
/// column.
pub open spec fn spec_matrix_spans(mk: MatrixKind, offset: int, stride: int, c: int) -> Seq<
    FieldSpan,
>
    decreases c,
{
    if c <= 0 {
        Seq::empty()
    } else {
        spec_matrix_spans(mk, offset, stride, c - 1).push(
            FieldSpan {
                offset: (offset + (c - 1) * stride) as u64,
                length: (4 * mk.spec_rows()) as u64,
            },
        )
    }
}

/// The spans of the first `i` matrices of a matrix array: matrix `j`
/// contributes its column spans starting at `offset + j * array_stride`.
pub open spec fn spec_matrix_array_spans(mk: MatrixKind, l: MatrixArrayFieldLayout, i: int) -> Seq<
    FieldSpan,
>
    decreases i,
{
    if i <= 0 {
        Seq::empty()
    } else {
        spec_matrix_array_spans(mk, l, i - 1) + spec_matrix_spans(
            mk,
            l.offset + (i - 1) * l.array_stride,
            l.matrix_stride as int,
            mk.spec_cols(),
        )
    }
}

/// All spans of one compiled field, in enumeration order.
pub open spec fn spec_field_spans(f: SpecFieldLayout) -> Seq<FieldSpan>
    decreases f, 0int,
{
    match f {
        SpecFieldLayout::Primitive(k, l) => spec_primitive_span(k, l),
        SpecFieldLayout::PrimitiveArray(k, len, l) => spec_array_spans(k, l, len as int),
        SpecFieldLayout::Matrix(mk, l) => spec_matrix_spans(
            mk,
            l.offset as int,
            l.stride as int,
            mk.spec_cols(),
        ),
        SpecFieldLayout::MatrixArray(mk, len, l) => spec_matrix_array_spans(mk, l, len as int),
        SpecFieldLayout::Struct(fs) => spec_record_spans(fs, fs.len() as int),
        SpecFieldLayout::StructArray(ls) => spec_record_list_spans(ls, ls.len() as int),
    }
}

/// The concatenated spans of the first `i` fields of a compiled record,
/// in declaration order.
pub open spec fn spec_record_spans(fs: Seq<(Seq<char>, SpecFieldLayout)>, i: int) -> Seq<FieldSpan>
    decreases fs, i,
{
    if i <= 0 || i > fs.len() {
        Seq::empty()
    } else {
        spec_record_spans(fs, i - 1) + spec_field_spans(fs[i - 1].1)
    }
}

/// The concatenated spans of the first `j` elements of a record array.
pub open spec fn spec_record_list_spans(ls: Seq<Seq<(Seq<char>, SpecFieldLayout)>>, j: int) -> Seq<
    FieldSpan,
>
    decreases ls, j,
{
    if j <= 0 || j > ls.len() {
        Seq::empty()
    } else {
        spec_record_list_spans(ls, j - 1) + spec_record_spans(ls[j - 1], ls[j - 1].len() as int)
    }
}

/// Appends the column spans of one matrix located at `offset` with the
/// given column stride.
fn matrix_spans_into(mk: MatrixKind, offset: u64, stride: u64, out: &mut Vec<FieldSpan>)
    requires
        offset < 0x1_0000_0000u64,
        stride <= 0xffffu64,
    ensures
        final(out)@ == old(out)@ + spec_matrix_spans(
            mk,
            offset as int,
            stride as int,
            mk.spec_cols(),
        ),
{
    let cols = mk.cols();
    let rows = mk.rows();
    let mut c: u16 = 0;
    proof {
        assert(out@ + spec_matrix_spans(mk, offset as int, stride as int, 0) =~= out@);
    }
    while c < cols
        invariant
            cols as int == mk.spec_cols(),
            rows as int == mk.spec_rows(),
            c <= cols,
            offset < 0x1_0000_0000u64,
            stride <= 0xffffu64,
            out@ == old(out)@ + spec_matrix_spans(mk, offset as int, stride as int, c as int),
        decreases cols - c,
    {
        proof {
            assert((c as u64) * stride <= 4u64 * 0xffffu64) by (nonlinear_arith)
                requires
                    c as u64 <= 4u64,
                    stride <= 0xffffu64,
            ;
        }
        let span = FieldSpan { offset: offset + (c as u64) * stride, length: 4 * (rows as u64) };
        out.push(span);
        proof {
            assert(out@ =~= old(out)@ + spec_matrix_spans(
                mk,
                offset as int,
                stride as int,
                c as int + 1,
            ));
        }
        c = c + 1;
    }
}

/// Appends all spans of one compiled field.
fn field_spans_into(f: &FieldLayout, out: &mut Vec<FieldSpan>)
    ensures
        final(out)@ == old(out)@ + spec_field_spans(f@),
    decreases *f, 0int,
{
    match f {
        FieldLayout::Primitive(k, l) => {
            let span = FieldSpan { offset: l.offset as u64, length: k.size() as u64 };
            out.push(span);
            proof {
                assert(out@ =~= old(out)@ + spec_primitive_span(*k, *l));
            }
        },
        FieldLayout::PrimitiveArray(k, len, l) => {
            let size = k.size();
            let mut i: u16 = 0;
            proof {
                assert(out@ + spec_array_spans(*k, *l, 0) =~= out@);
            }
            while i < *len
                invariant
                    size as int == k.spec_size(),
                    i <= *len,
                    out@ == old(out)@ + spec_array_spans(*k, *l, i as int),
                decreases *len - i,
            {
                proof {
                    assert((i as u64) * (l.stride as u64) <= 0xfffeu64 * 0xffffu64)
                        by (nonlinear_arith)
                        requires
                            i as u64 <= 0xfffeu64,
                            l.stride as u64 <= 0xffffu64,
                    ;
                }
                let span = FieldSpan {
                    offset: (l.offset as u64) + (i as u64) * (l.stride as u64),
                    length: size as u64,
                };
                out.push(span);
                proof {
                    assert(out@ =~= old(out)@ + spec_array_spans(*k, *l, i as int + 1));
                }
                i = i + 1;
            }
        },
        FieldLayout::Matrix(mk, l) => {
            matrix_spans_into(*mk, l.offset as u64, l.stride as u64, out);
        },
        FieldLayout::MatrixArray(mk, len, l) => {
            let mut i: u16 = 0;
            proof {
                assert(out@ + spec_matrix_array_spans(*mk, *l, 0) =~= out@);
            }
            while i < *len
                invariant
                    i <= *len,
                    out@ == old(out)@ + spec_matrix_array_spans(*mk, *l, i as int),
                decreases *len - i,
            {
                proof {
                    assert((i as u64) * (l.array_stride as u64) <= 0xfffeu64 * 0xffffu64)
                        by (nonlinear_arith)
                        requires
                            i as u64 <= 0xfffeu64,
                            l.array_stride as u64 <= 0xffffu64,
                    ;
                }
                let base = (l.offset as u64) + (i as u64) * (l.array_stride as u64);
                matrix_spans_into(*mk, base, l.matrix_stride as u64, out);
                proof {
                    assert(out@ =~= old(out)@ + spec_matrix_array_spans(*mk, *l, i as int + 1));
                }
                i = i + 1;
            }
        },
        FieldLayout::Struct(rl) => {
            record_spans_into(rl, out);
        },
        FieldLayout::StructArray(ls) => {
            record_list_spans_into(ls, out);
        },
    }
}

/// Appends the spans of every field of a compiled record, in declaration
/// order.
fn record_spans_into(layout: &RecordLayout, out: &mut Vec<FieldSpan>)
    ensures
        final(out)@ == old(out)@ + spec_record_spans(layout@, layout@.len() as int),
    decreases *layout, 0int,
{
    let n = layout.fields.len();
    let mut i: usize = 0;
    proof {
        assert(layout@ == crate::compile::spec_layout_fields(layout.fields@));
        assert(out@ + spec_record_spans(layout@, 0) =~= out@);
    }
    while i < n
        invariant
            n == layout.fields.len(),
            layout@.len() == n,
            i <= n,
            out@ == old(out)@ + spec_record_spans(layout@, i as int),
        decreases n - i,
    {
        proof {
            crate::compile::lemma_layout_fields_index(layout.fields@, i as int);
        }
        field_spans_into(&layout.fields[i].1, out);
        proof {
            assert(out@ =~= old(out)@ + spec_record_spans(layout@, i as int + 1));
        }
        i = i + 1;
    }
}

/// Appends the spans of every element layout of a record array, in
/// element order.
fn record_list_spans_into(ls: &Vec<RecordLayout>, out: &mut Vec<FieldSpan>)
    ensures
        final(out)@ == old(out)@ + spec_record_list_spans(
            crate::compile::spec_layout_list(ls@),
            ls@.len() as int,
        ),
    decreases *ls, 0int,
{
    let m = ls.len();
    let mut j: usize = 0;
    proof {
        assert(out@ + spec_record_list_spans(crate::compile::spec_layout_list(ls@), 0) =~= out@);
    }
    while j < m
        invariant
            m == ls.len(),
            j <= m,
            out@ == old(out)@ + spec_record_list_spans(
                crate::compile::spec_layout_list(ls@),
                j as int,
            ),
        decreases m - j,
    {
        record_spans_into(&ls[j], out);
        proof {
            assert(out@ =~= old(out)@ + spec_record_list_spans(
                crate::compile::spec_layout_list(ls@),
                j as int + 1,
            ));
        }
        j = j + 1;
    }
}

/// Returns every span a compiled layout occupies, in enumeration order:
/// fields in declaration order, array elements in index order, matrix
/// columns in column order.
pub fn get_field_spans(layout: &RecordLayout) -> (r: Vec<FieldSpan>)
    ensures
        r@ == spec_record_spans(layout@, layout@.len() as int),
{
    let mut out: Vec<FieldSpan> = Vec::new();
    record_spans_into(layout, &mut out);
    proof {
        assert(Seq::<FieldSpan>::empty() + spec_record_spans(layout@, layout@.len() as int)
            =~= spec_record_spans(layout@, layout@.len() as int));
    }
    out
}

} // verus!
