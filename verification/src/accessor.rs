//! The accessor binder: typed, bounds-checked views over a byte buffer.
//!
//! Binding a compiled `RecordLayout` produces a `RecordAccessor`: one
//! typed view per declared field, addressed absolutely from the buffer's
//! start. An accessor holds addressing data only; every read and write
//! takes the buffer itself, checks the declared index bounds, and goes
//! through the single word primitive of `crate::words`. Index bounds are
//! the only automatic check: each operation requires the buffer to cover
//! the accessor's extent, and a caller is expected to check that once,
//! for instance against the span enumerator.

use vstd::prelude::*;
use crate::compile::{FieldLayout, MatrixArrayFieldLayout, RecordLayout, SpecFieldLayout, spec_layout_list};
use crate::matrix_types::MatrixKind;
use crate::primitive_types::PrimitiveKind;
use crate::schema::{LengthType, StrideType};
use crate::words::{read_word, with_word, word_at, write_word};

verus! {

broadcast use {vstd::std_specs::vec::group_vec_axioms, crate::compile::group_layout_view_lemmas};

/// Why a buffer access failed. The fault is final: no access is retried
/// or clamped.
#[derive(Clone, Copy, PartialEq, Eq, Structural, Debug)]
pub enum AccessError {
    /// An array, lane, column or row index at or beyond the declared
    /// bound.
    IndexOutOfRange,
}

/// Typed view of one scalar or vector field: `lanes` 32-bit words
/// starting at an absolute byte offset.
#[derive(Clone, Copy, PartialEq, Eq, Structural, Debug)]
pub struct PrimitiveAccessor {
    /// The field's declared kind.
    pub kind: PrimitiveKind,
    /// Absolute byte offset of the value in the buffer.
    pub offset: usize,
}

impl PrimitiveAccessor {
    /// Absolute byte address of lane `lane`.
    pub open spec fn spec_addr(self, lane: int) -> int {
        self.offset + 4 * lane
    }

    /// One byte past the last byte this view can touch.
    pub open spec fn spec_extent(self) -> int {
        self.offset + 4 * self.kind.spec_lanes()
    }

    /// Reads lane `lane` of the value. Faults if and only if `lane` is at
    /// or beyond the kind's lane count.
    pub fn read(&self, bytes: &Vec<u8>, lane: usize) -> (r: Result<u32, AccessError>)
        requires
            self.spec_extent() <= bytes@.len(),
        ensures
            lane < self.kind.spec_lanes() ==> r == Ok::<u32, AccessError>(
                word_at(bytes@, self.spec_addr(lane as int)),
            ),
            lane >= self.kind.spec_lanes() ==> r == Err::<u32, AccessError>(
                AccessError::IndexOutOfRange,
            ),
    {
        let _n: usize = bytes.len();
        if lane >= self.kind.lanes() as usize {
            Err(AccessError::IndexOutOfRange)
        } else {
            Ok(read_word(bytes, self.offset + 4 * lane))
        }
    }

    /// Writes `v` to lane `lane` of the value. Faults, leaving the buffer
    /// unchanged, if and only if `lane` is at or beyond the kind's lane
    /// count.
    pub fn write(&self, bytes: &mut Vec<u8>, lane: usize, v: u32) -> (r: Result<(), AccessError>)
        requires
            self.spec_extent() <= old(bytes)@.len(),
        ensures
            lane < self.kind.spec_lanes() ==> r == Ok::<(), AccessError>(()) && final(bytes)@
                == with_word(old(bytes)@, self.spec_addr(lane as int), v),
            lane >= self.kind.spec_lanes() ==> r == Err::<(), AccessError>(
                AccessError::IndexOutOfRange,
            ) && final(bytes)@ == old(bytes)@,
    {
        let _n: usize = bytes.len();
        if lane >= self.kind.lanes() as usize {
            Err(AccessError::IndexOutOfRange)
        } else {
            write_word(bytes, self.offset + 4 * lane, v);
            Ok(())
        }
    }
}

/// Typed view of a strided array of scalars or vectors: element `i`, lane
/// `l` lives at `offset + i * stride + 4 * l`. The stride may place
/// elements anywhere, including interleaved closer than one element's
/// footprint.
#[derive(Clone, Copy, PartialEq, Eq, Structural, Debug)]
pub struct PrimitiveArrayAccessor {
    /// The element kind.
    pub kind: PrimitiveKind,
    /// Absolute byte offset of element 0 in the buffer.
    pub offset: usize,
    /// Byte distance between consecutive elements.
    pub stride: StrideType,
    /// Declared element count; every access is checked against it.
    pub length: LengthType,
}

impl PrimitiveArrayAccessor {
    /// Absolute byte address of lane `lane` of element `index`.
    pub open spec fn spec_addr(self, index: int, lane: int) -> int {
        self.offset + index * self.stride + 4 * lane
    }

    /// One byte past the last byte this view can touch.
    pub open spec fn spec_extent(self) -> int {
        if self.length == 0 {
            0
        } else {
            self.offset + (self.length - 1) * self.stride + 4 * self.kind.spec_lanes()
        }
    }

    /// Reads lane `lane` of element `index`. Faults if and only if
    /// `index` is at or beyond the declared length, or `lane` at or
    /// beyond the kind's lane count.
    pub fn read(&self, bytes: &Vec<u8>, index: usize, lane: usize) -> (r: Result<u32, AccessError>)
        requires
            self.spec_extent() <= bytes@.len(),
        ensures
            index < self.length && lane < self.kind.spec_lanes() ==> r == Ok::<u32, AccessError>(
                word_at(bytes@, self.spec_addr(index as int, lane as int)),
            ),
            index >= self.length || lane >= self.kind.spec_lanes() ==> r == Err::<
                u32,
                AccessError,
            >(AccessError::IndexOutOfRange),
    {
        let _n: usize = bytes.len();
        if index >= self.length as usize || lane >= self.kind.lanes() as usize {
            Err(AccessError::IndexOutOfRange)
        } else {
            proof {
                self.lemma_addr_in_extent(index as int, lane as int);
            }
            Ok(read_word(bytes, self.offset + index * self.stride as usize + 4 * lane))
        }
    }

    /// Writes `v` to lane `lane` of element `index`. Faults, leaving the
    /// buffer unchanged, if and only if `index` or `lane` is out of
    /// bounds.
    pub fn write(&self, bytes: &mut Vec<u8>, index: usize, lane: usize, v: u32) -> (r: Result<
        (),
        AccessError,
    >)
        requires
            self.spec_extent() <= old(bytes)@.len(),
        ensures
            index < self.length && lane < self.kind.spec_lanes() ==> r == Ok::<(), AccessError>(())
                && final(bytes)@ == with_word(
                old(bytes)@,
                self.spec_addr(index as int, lane as int),
                v,
            ),
            index >= self.length || lane >= self.kind.spec_lanes() ==> r == Err::<
                (),
                AccessError,
            >(AccessError::IndexOutOfRange) && final(bytes)@ == old(bytes)@,
    {
        let _n: usize = bytes.len();
        if index >= self.length as usize || lane >= self.kind.lanes() as usize {
            Err(AccessError::IndexOutOfRange)
        } else {
            proof {
                self.lemma_addr_in_extent(index as int, lane as int);
            }
            write_word(bytes, self.offset + index * self.stride as usize + 4 * lane, v);
            Ok(())
        }
    }

    /// Every in-bounds address lies within the view's extent.
    pub proof fn lemma_addr_in_extent(self, index: int, lane: int)
        requires
            0 <= index < self.length,
            0 <= lane < self.kind.spec_lanes(),
        ensures
            self.spec_addr(index, lane) + 4 <= self.spec_extent(),
            index * self.stride <= (self.length - 1) * self.stride,
    {
        assert(index * self.stride <= (self.length - 1) * self.stride) by (nonlinear_arith)
            requires
                0 <= index <= self.length - 1,
                self.stride >= 0,
        ;
    }
}

/// Typed view of one matrix: column `c` is a run of `rows` 32-bit words
/// at `offset + c * stride`.
#[derive(Clone, Copy, PartialEq, Eq, Structural, Debug)]
pub struct MatrixAccessor {
    /// The matrix kind.
    pub kind: MatrixKind,
    /// Absolute byte offset of column 0 in the buffer.
    pub offset: usize,
    /// Byte distance between consecutive columns.
    pub stride: StrideType,
}

impl MatrixAccessor {
    /// Absolute byte address of row `row` of column `col`.
    pub open spec fn spec_addr(self, col: int, row: int) -> int {
        self.offset + col * self.stride + 4 * row
    }

    /// One byte past the last byte this view can touch.
    pub open spec fn spec_extent(self) -> int {
        self.offset + (self.kind.spec_cols() - 1) * self.stride + 4 * self.kind.spec_rows()
    }

    /// Reads row `row` of column `col`. Faults if and only if `col` is at
    /// or beyond the column count, or `row` at or beyond the row count.
    pub fn read(&self, bytes: &Vec<u8>, col: usize, row: usize) -> (r: Result<u32, AccessError>)
        requires
            self.spec_extent() <= bytes@.len(),
        ensures
            col < self.kind.spec_cols() && row < self.kind.spec_rows() ==> r == Ok::<
                u32,
                AccessError,
            >(word_at(bytes@, self.spec_addr(col as int, row as int))),
            col >= self.kind.spec_cols() || row >= self.kind.spec_rows() ==> r == Err::<
                u32,
                AccessError,
            >(AccessError::IndexOutOfRange),
    {
        let _n: usize = bytes.len();
        if col >= self.kind.cols() as usize || row >= self.kind.rows() as usize {
            Err(AccessError::IndexOutOfRange)
        } else {
            proof {
                self.lemma_addr_in_extent(col as int, row as int);
            }
            Ok(read_word(bytes, self.offset + col * self.stride as usize + 4 * row))
        }
    }

    /// Writes `v` to row `row` of column `col`. Faults, leaving the
    /// buffer unchanged, if and only if `col` or `row` is out of bounds.
    pub fn write(&self, bytes: &mut Vec<u8>, col: usize, row: usize, v: u32) -> (r: Result<
        (),
        AccessError,
    >)
        requires
            self.spec_extent() <= old(bytes)@.len(),
        ensures
            col < self.kind.spec_cols() && row < self.kind.spec_rows() ==> r == Ok::<
                (),
                AccessError,
            >(()) && final(bytes)@ == with_word(
                old(bytes)@,
                self.spec_addr(col as int, row as int),
                v,
            ),
            col >= self.kind.spec_cols() || row >= self.kind.spec_rows() ==> r == Err::<
                (),
                AccessError,
            >(AccessError::IndexOutOfRange) && final(bytes)@ == old(bytes)@,
    {
        let _n: usize = bytes.len();
        if col >= self.kind.cols() as usize || row >= self.kind.rows() as usize {
            Err(AccessError::IndexOutOfRange)
        } else {
            proof {
                self.lemma_addr_in_extent(col as int, row as int);
            }
            write_word(bytes, self.offset + col * self.stride as usize + 4 * row, v);
            Ok(())
        }
    }

    /// Every in-bounds address lies within the view's extent.
    pub proof fn lemma_addr_in_extent(self, col: int, row: int)
        requires
            0 <= col < self.kind.spec_cols(),
            0 <= row < self.kind.spec_rows(),
        ensures
            self.spec_addr(col, row) + 4 <= self.spec_extent(),
            col * self.stride <= (self.kind.spec_cols() - 1) * self.stride,
    {
        assert(col * self.stride <= (self.kind.spec_cols() - 1) * self.stride)
            by (nonlinear_arith)
            requires
                0 <= col <= self.kind.spec_cols() - 1,
                self.stride >= 0,
        ;
    }
}

/// The bound view of one record field.
pub enum FieldAccessor {
    /// A scalar or vector view.
    Primitive(PrimitiveAccessor),
    /// A strided array view.
    PrimitiveArray(PrimitiveArrayAccessor),
    /// A single-matrix view.
    Matrix(MatrixAccessor),
    /// One matrix view per element of a matrix array.
    MatrixArray(Vec<MatrixAccessor>),
    /// A nested record's view.
    Struct(RecordAccessor),
    /// One record view per element of a record array.
    StructArray(Vec<RecordAccessor>),
}

/// The bound view of one record: one typed view per declared field, in
/// declaration order.
pub struct RecordAccessor {
    /// The (name, view) pairs, in declaration order.
    pub fields: Vec<(String, FieldAccessor)>,
}

/// Mathematical model of a bound field view.
pub ghost enum SpecFieldAccessor {
    /// Model of `FieldAccessor::Primitive`.
    Primitive(PrimitiveAccessor),
    /// Model of `FieldAccessor::PrimitiveArray`.
    PrimitiveArray(PrimitiveArrayAccessor),
    /// Model of `FieldAccessor::Matrix`.
    Matrix(MatrixAccessor),
    /// Model of `FieldAccessor::MatrixArray`.
    MatrixArray(Seq<MatrixAccessor>),
    /// Model of `FieldAccessor::Struct`.
    Struct(Seq<(Seq<char>, SpecFieldAccessor)>),
    /// Model of `FieldAccessor::StructArray`.
    StructArray(Seq<Seq<(Seq<char>, SpecFieldAccessor)>>),
}

/// The model of a sequence of bound fields, element by element.
pub open spec fn spec_accessor_fields(fs: Seq<(String, FieldAccessor)>) -> Seq<
    (Seq<char>, SpecFieldAccessor),
>
    decreases fs,
{
    if fs.len() == 0 {
        Seq::empty()
    } else {
        spec_accessor_fields(fs.drop_last()).push((fs[fs.len() - 1].0@, fs[fs.len() - 1].1@))
    }
}

/// The model of a list of bound record views, element by element.
pub open spec fn spec_accessor_list(ls: Seq<RecordAccessor>) -> Seq<
    Seq<(Seq<char>, SpecFieldAccessor)>,
>
    decreases ls,
{
    if ls.len() == 0 {
        Seq::empty()
    } else {
        spec_accessor_list(ls.drop_last()).push(ls[ls.len() - 1]@)
    }
}

impl View for FieldAccessor {
    type V = SpecFieldAccessor;

    open spec fn view(&self) -> SpecFieldAccessor
        decreases self,
    {
        match self {
            FieldAccessor::Primitive(a) => SpecFieldAccessor::Primitive(*a),
            FieldAccessor::PrimitiveArray(a) => SpecFieldAccessor::PrimitiveArray(*a),
            FieldAccessor::Matrix(a) => SpecFieldAccessor::Matrix(*a),
            FieldAccessor::MatrixArray(ms) => SpecFieldAccessor::MatrixArray(ms@),
            FieldAccessor::Struct(r) => SpecFieldAccessor::Struct(r@),
            FieldAccessor::StructArray(ls) => SpecFieldAccessor::StructArray(
                spec_accessor_list(ls@),
            ),
        }
    }
}

impl View for RecordAccessor {
    type V = Seq<(Seq<char>, SpecFieldAccessor)>;

    open spec fn view(&self) -> Seq<(Seq<char>, SpecFieldAccessor)>
        decreases self,
    {
        spec_accessor_fields(self.fields@)
    }
}

/// A bound record's model has one element per field.
pub broadcast proof fn lemma_accessor_fields_len(fs: Seq<(String, FieldAccessor)>)
    ensures
        (#[trigger] spec_accessor_fields(fs)).len() == fs.len(),
    decreases fs.len(),
{
    if fs.len() > 0 {
        lemma_accessor_fields_len(fs.drop_last());
        assert(spec_accessor_fields(fs) == spec_accessor_fields(fs.drop_last()).push(
            (fs[fs.len() - 1].0@, fs[fs.len() - 1].1@),
        ));
    }
}

/// Each element of a bound record's model is the model of the field at
/// the same position.
pub broadcast proof fn lemma_accessor_fields_index(fs: Seq<(String, FieldAccessor)>, i: int)
    requires
        0 <= i < fs.len(),
    ensures
        #[trigger] spec_accessor_fields(fs)[i] == (fs[i].0@, fs[i].1@),
    decreases fs.len(),
{
    lemma_accessor_fields_len(fs.drop_last());
    assert(spec_accessor_fields(fs) == spec_accessor_fields(fs.drop_last()).push(
        (fs[fs.len() - 1].0@, fs[fs.len() - 1].1@),
    ));
    if i < fs.len() - 1 {
        lemma_accessor_fields_index(fs.drop_last(), i);
    }
}

/// An accessor list's model has one element per record view.
pub broadcast proof fn lemma_accessor_list_len(ls: Seq<RecordAccessor>)
    ensures
        (#[trigger] spec_accessor_list(ls)).len() == ls.len(),
    decreases ls.len(),
{
    if ls.len() > 0 {
        lemma_accessor_list_len(ls.drop_last());
        assert(spec_accessor_list(ls) == spec_accessor_list(ls.drop_last()).push(
            ls[ls.len() - 1]@,
        ));
    }
}

/// Each element of an accessor list's model is the model of the record
/// view at the same position.
pub broadcast proof fn lemma_accessor_list_index(ls: Seq<RecordAccessor>, i: int)
    requires
        0 <= i < ls.len(),
    ensures
        #[trigger] spec_accessor_list(ls)[i] == ls[i]@,
    decreases ls.len(),
{
    lemma_accessor_list_len(ls.drop_last());
    assert(spec_accessor_list(ls) == spec_accessor_list(ls.drop_last()).push(ls[ls.len() - 1]@));
    if i < ls.len() - 1 {
        lemma_accessor_list_index(ls.drop_last(), i);
    }
}

/// The index and length facts about bound-view models, for use at call
/// sites.
pub broadcast group group_accessor_view_lemmas {
    lemma_accessor_fields_len,
    lemma_accessor_fields_index,
    lemma_accessor_list_len,
    lemma_accessor_list_index,
}

/// The model of binding a matrix array: the first `i` element views, one
/// per matrix, at `offset + j * array_stride`, each with the matrix's own
/// column stride.
pub open spec fn spec_bind_matrix_array(
    mk: MatrixKind,
    l: MatrixArrayFieldLayout,
    i: int,
) -> Seq<MatrixAccessor>
    decreases i,
{
    if i <= 0 {
        Seq::empty()
    } else {
        spec_bind_matrix_array(mk, l, i - 1).push(
            MatrixAccessor {
                kind: mk,
                offset: (l.offset + (i - 1) * l.array_stride) as usize,
                stride: l.matrix_stride,
            },
        )
    }
}

/// The model of binding one compiled field into its view.
pub open spec fn spec_bind_field(f: SpecFieldLayout) -> SpecFieldAccessor
    decreases f, 0int,
{
    match f {
        SpecFieldLayout::Primitive(k, l) => SpecFieldAccessor::Primitive(
            PrimitiveAccessor { kind: k, offset: l.offset as usize },
        ),
        SpecFieldLayout::PrimitiveArray(k, len, l) => SpecFieldAccessor::PrimitiveArray(
            PrimitiveArrayAccessor {
                kind: k,
                offset: l.offset as usize,
                stride: l.stride,
                length: len,
            },
        ),
        SpecFieldLayout::Matrix(mk, l) => SpecFieldAccessor::Matrix(
            MatrixAccessor { kind: mk, offset: l.offset as usize, stride: l.stride },
        ),
        SpecFieldLayout::MatrixArray(mk, len, l) => SpecFieldAccessor::MatrixArray(
            spec_bind_matrix_array(mk, l, len as int),
        ),
        SpecFieldLayout::Struct(fs) => SpecFieldAccessor::Struct(
            spec_bind_record(fs, fs.len() as int),
        ),
        SpecFieldLayout::StructArray(ls) => SpecFieldAccessor::StructArray(
            spec_bind_record_list(ls, ls.len() as int),
        ),
    }
}

/// The model of binding the first `i` fields of a compiled record.
pub open spec fn spec_bind_record(fs: Seq<(Seq<char>, SpecFieldLayout)>, i: int) -> Seq<
    (Seq<char>, SpecFieldAccessor),
>
    decreases fs, i,
{
    if i <= 0 || i > fs.len() {
        Seq::empty()
    } else {
        spec_bind_record(fs, i - 1).push((fs[i - 1].0, spec_bind_field(fs[i - 1].1)))
    }
}

/// The model of binding the first `j` element layouts of a record array.
pub open spec fn spec_bind_record_list(ls: Seq<Seq<(Seq<char>, SpecFieldLayout)>>, j: int) -> Seq<
    Seq<(Seq<char>, SpecFieldAccessor)>,
>
    decreases ls, j,
{
    if j <= 0 || j > ls.len() {
        Seq::empty()
    } else {
        spec_bind_record_list(ls, j - 1).push(spec_bind_record(ls[j - 1], ls[j - 1].len() as int))
    }
}

/// Binds one compiled field into its view.
#[verifier::loop_isolation(false)]
fn bind_field(f: &FieldLayout) -> (r: FieldAccessor)
    ensures
        r@ == spec_bind_field(f@),
    decreases *f, 0int,
{
    match f {
        FieldLayout::Primitive(k, l) => FieldAccessor::Primitive(
            PrimitiveAccessor { kind: *k, offset: l.offset as usize },
        ),
        FieldLayout::PrimitiveArray(k, len, l) => FieldAccessor::PrimitiveArray(
            PrimitiveArrayAccessor {
                kind: *k,
                offset: l.offset as usize,
                stride: l.stride,
                length: *len,
            },
        ),
        FieldLayout::Matrix(mk, l) => FieldAccessor::Matrix(
            MatrixAccessor { kind: *mk, offset: l.offset as usize, stride: l.stride },
        ),
        FieldLayout::MatrixArray(mk, len, l) => {
            let mut views: Vec<MatrixAccessor> = Vec::new();
            let mut i: u16 = 0;
            while i < *len
                invariant
                    i <= *len,
                    views@ == spec_bind_matrix_array(*mk, *l, i as int),
                decreases *len - i,
            {
                proof {
                    assert((i as usize) * (l.array_stride as usize) <= 0xfffe * 0xffff)
                        by (nonlinear_arith)
                        requires
                            i as usize <= 0xfffe,
                            l.array_stride as usize <= 0xffff,
                    ;
                }
                let ghost pre = views@;
                let base: usize = (l.offset as usize) + (i as usize) * (l.array_stride as usize);
                views.push(MatrixAccessor { kind: *mk, offset: base, stride: l.matrix_stride });
                proof {
                    assert(spec_bind_matrix_array(*mk, *l, i as int + 1) == spec_bind_matrix_array(
                        *mk,
                        *l,
                        i as int,
                    ).push(
                        MatrixAccessor {
                            kind: *mk,
                            offset: (l.offset + (i as int) * l.array_stride) as usize,
                            stride: l.matrix_stride,
                        },
                    ));
                    assert(views@ =~= pre.push(
                        MatrixAccessor { kind: *mk, offset: base, stride: l.matrix_stride },
                    ));
                }
                i = i + 1;
            }
            FieldAccessor::MatrixArray(views)
        },
        FieldLayout::Struct(rl) => FieldAccessor::Struct(bind_record(rl)),
        FieldLayout::StructArray(ls) => {
            let m = ls.len();
            let mut views: Vec<RecordAccessor> = Vec::new();
            let mut j: usize = 0;
            while j < m
                invariant
                    m == ls.len(),
                    j <= m,
                    views@.len() == j,
                    spec_accessor_list(views@) == spec_bind_record_list(
                        spec_layout_list(ls@),
                        j as int,
                    ),
                decreases m - j,
            {
                let ghost pre = views@;
                let bound = bind_record(&ls[j]);
                views.push(bound);
                proof {
                    crate::compile::lemma_layout_list_index(ls@, j as int);
                    assert(views@.drop_last() =~= pre);
                    assert(spec_accessor_list(views@) == spec_accessor_list(pre).push(
                        views@[j as int]@,
                    ));
                    assert(spec_bind_record_list(
                        spec_layout_list(ls@),
                        j as int + 1,
                    ) == spec_bind_record_list(spec_layout_list(ls@), j as int).push(
                        spec_bind_record(
                            spec_layout_list(ls@)[j as int],
                            spec_layout_list(ls@)[j as int].len() as int,
                        ),
                    ));
                }
                j = j + 1;
            }
            FieldAccessor::StructArray(views)
        },
    }
}

/// Binds every field of a compiled record, in declaration order.
fn bind_record(layout: &RecordLayout) -> (r: RecordAccessor)
    ensures
        r@ == spec_bind_record(layout@, layout@.len() as int),
    decreases *layout, 0int,
{
    let n = layout.fields.len();
    let mut out: Vec<(String, FieldAccessor)> = Vec::new();
    let mut i: usize = 0;
    proof {
        assert(layout@ == crate::compile::spec_layout_fields(layout.fields@));
    }
    while i < n
        invariant
            n == layout.fields.len(),
            layout@.len() == n,
            i <= n,
            out@.len() == i,
            spec_accessor_fields(out@) == spec_bind_record(layout@, i as int),
        decreases n - i,
    {
        let ghost pre = out@;
        let name = layout.fields[i].0.clone();
        let view = bind_field(&layout.fields[i].1);
        out.push((name, view));
        proof {
            crate::compile::lemma_layout_fields_index(layout.fields@, i as int);
            assert(out@.drop_last() =~= pre);
            assert(spec_accessor_fields(out@) == spec_accessor_fields(pre).push(
                (out@[i as int].0@, out@[i as int].1@),
            ));
            assert(spec_bind_record(layout@, i as int + 1) == spec_bind_record(
                layout@,
                i as int,
            ).push((layout@[i as int].0, spec_bind_field(layout@[i as int].1))));
        }
        i = i + 1;
    }
    RecordAccessor { fields: out }
}

/// The first bound view declared under `name`, or `None` when the name is
/// absent.
pub open spec fn spec_accessor_lookup(
    fields: Seq<(Seq<char>, SpecFieldAccessor)>,
    name: Seq<char>,
) -> Option<SpecFieldAccessor>
    decreases fields.len(),
{
    if fields.len() == 0 {
        None
    } else if fields[0].0 == name {
        Some(fields[0].1)
    } else {
        spec_accessor_lookup(fields.drop_first(), name)
    }
}

impl RecordAccessor {
    /// Returns the bound view of the field declared under `field_name`, or
    /// `None` when the name is absent.
    pub fn field(&self, field_name: &str) -> (r: Option<&FieldAccessor>)
        ensures
            match r {
                Some(a) => spec_accessor_lookup(self@, field_name@) == Some(a@),
                None => spec_accessor_lookup(self@, field_name@) is None,
            },
    {
        let wanted: String = field_name.to_owned();
        let n = self.fields.len();
        let mut i: usize = 0;
        proof {
            lemma_accessor_fields_len(self.fields@);
            assert(self@.skip(0) =~= self@);
        }
        while i < n
            invariant
                n == self.fields.len(),
                self@.len() == n,
                i <= n,
                wanted@ == field_name@,
                spec_accessor_lookup(self@, field_name@) == spec_accessor_lookup(
                    self@.skip(i as int),
                    field_name@,
                ),
            decreases n - i,
        {
            let hit = self.fields[i].0 == wanted;
            proof {
                lemma_accessor_fields_index(self.fields@, i as int);
                assert(self@.skip(i as int)[0] == self@[i as int]);
            }
            if hit {
                return Some(&self.fields[i].1);
            }
            proof {
                assert(self@.skip(i as int).drop_first() =~= self@.skip(i as int + 1));
            }
            i = i + 1;
        }
        proof {
            assert(self@.skip(n as int).len() == 0);
        }
        None
    }
}

/// Binding of a compiled layout into a typed accessor. Binding never
/// fails: a compiled layout is already validated.
pub trait AccessDynamicField {
    /// The bound accessor at spec level.
    spec fn spec_accessor_from_layout(&self) -> Seq<(Seq<char>, SpecFieldAccessor)>;

    /// Binds this layout into one typed view per declared field.
    fn accessor_from_layout(&self) -> (r: RecordAccessor)
        ensures
            r@ == self.spec_accessor_from_layout(),
    ;
}

impl AccessDynamicField for RecordLayout {
    open spec fn spec_accessor_from_layout(&self) -> Seq<(Seq<char>, SpecFieldAccessor)> {
        spec_bind_record(self@, self@.len() as int)
    }

    fn accessor_from_layout(&self) -> (r: RecordAccessor) {
        bind_record(self)
    }
}

impl RecordLayout {
    /// Binds this layout into one typed view per declared field. The
    /// views address the buffer a caller will pass to each read or write.
    pub fn accessor(&self) -> (r: RecordAccessor)
        ensures
            r@ == spec_bind_record(self@, self@.len() as int),
    {
        bind_record(self)
    }
}

} // verus!
