//! The field-layout compiler: schema table in, validated layout out.
//!
//! Compiling walks a record declaration in order, fetches each field's
//! descriptor from the table by name, checks that the descriptor's variant
//! matches the declared kind, and assembles a concrete `RecordLayout`.
//! Any failure aborts the whole record's compile; no partial layout
//! escapes. The result is immutable addressing data, reusable across many
//! buffers, holding no reference back to the table.

use vstd::prelude::*;
use crate::decl::{FieldKind, RecordDecl, SpecFieldKind};
use crate::matrix_types::MatrixKind;
use crate::primitive_types::PrimitiveKind;
use crate::schema::{
    LayoutInfo, LayoutTable, LengthType, LoadStructLayout, OffsetType, SpecLayoutInfo, StrideType,
    spec_lookup,
};

verus! {

broadcast use {
    vstd::std_specs::vec::group_vec_axioms,
    crate::schema::group_schema_view_lemmas,
    crate::decl::group_decl_view_lemmas,
};

/// Why a compile failed. Any failure aborts the whole record's compile.
#[derive(Clone, Copy, PartialEq, Eq, Structural, Debug)]
pub enum CompileError {
    /// A declared field name is absent from the layout table.
    MissingField,
    /// A descriptor's variant does not match the declared field kind.
    SchemaMismatch,
    /// A record-array descriptor carries a different number of element
    /// tables than the declared array length.
    LengthMismatch,
}

/// Validated location of a scalar or vector field: a byte offset.
#[derive(Clone, Copy, PartialEq, Eq, Structural, Debug)]
pub struct SimpleFieldLayout {
    /// Byte offset of the value, relative to the record's start.
    pub offset: OffsetType,
}

/// Validated location of an evenly strided field: an array of primitives,
/// or the columns of one matrix.
#[derive(Clone, Copy, PartialEq, Eq, Structural, Debug)]
pub struct ArrayFieldLayout {
    /// Byte offset of the first element, relative to the record's start.
    pub offset: OffsetType,
    /// Byte distance between consecutive elements.
    pub stride: StrideType,
}

/// Validated location of an array of matrices. The array stride may be
/// smaller than one matrix's footprint: consecutive matrices may
/// interleave column by column.
#[derive(Clone, Copy, PartialEq, Eq, Structural, Debug)]
pub struct MatrixArrayFieldLayout {
    /// Byte offset of the first matrix, relative to the record's start.
    pub offset: OffsetType,
    /// Byte distance between consecutive matrices of the array.
    pub array_stride: StrideType,
    /// Byte distance between consecutive columns of one matrix.
    pub matrix_stride: StrideType,
}

/// The validated, concrete layout of one compiled field.
pub enum FieldLayout {
    /// A scalar or vector at a fixed offset.
    Primitive(PrimitiveKind, SimpleFieldLayout),
    /// A fixed-length strided array of scalars or vectors.
    PrimitiveArray(PrimitiveKind, LengthType, ArrayFieldLayout),
    /// One matrix: its columns start at `offset` and are `stride` apart.
    Matrix(MatrixKind, ArrayFieldLayout),
    /// A fixed-length array of matrices with independent array and column
    /// strides.
    MatrixArray(MatrixKind, LengthType, MatrixArrayFieldLayout),
    /// A nested record's compiled layout.
    Struct(RecordLayout),
    /// One independently compiled layout per element of a record array.
    StructArray(Vec<RecordLayout>),
}

/// The compiled layout of one record: a validated field layout per
/// declared field, in declaration order.
pub struct RecordLayout {
    /// The (name, layout) pairs, in declaration order.
    pub fields: Vec<(String, FieldLayout)>,
}

/// Mathematical model of a compiled field layout.
pub ghost enum SpecFieldLayout {
    /// Model of `FieldLayout::Primitive`.
    Primitive(PrimitiveKind, SimpleFieldLayout),
    /// Model of `FieldLayout::PrimitiveArray`.
    PrimitiveArray(PrimitiveKind, u16, ArrayFieldLayout),
    /// Model of `FieldLayout::Matrix`.
    Matrix(MatrixKind, ArrayFieldLayout),
    /// Model of `FieldLayout::MatrixArray`.
    MatrixArray(MatrixKind, u16, MatrixArrayFieldLayout),
    /// Model of `FieldLayout::Struct`.
    Struct(Seq<(Seq<char>, SpecFieldLayout)>),
    /// Model of `FieldLayout::StructArray`.
    StructArray(Seq<Seq<(Seq<char>, SpecFieldLayout)>>),
}

/// The model of a sequence of compiled fields, element by element.
pub open spec fn spec_layout_fields(fs: Seq<(String, FieldLayout)>) -> Seq<
    (Seq<char>, SpecFieldLayout),
>
    decreases fs,
{
    if fs.len() == 0 {
        Seq::empty()
    } else {
        spec_layout_fields(fs.drop_last()).push((fs[fs.len() - 1].0@, fs[fs.len() - 1].1@))
    }
}

/// The model of a list of compiled record layouts, element by element.
pub open spec fn spec_layout_list(ls: Seq<RecordLayout>) -> Seq<Seq<(Seq<char>, SpecFieldLayout)>>
    decreases ls,
{
    if ls.len() == 0 {
        Seq::empty()
    } else {
        spec_layout_list(ls.drop_last()).push(ls[ls.len() - 1]@)
    }
}

impl View for FieldLayout {
    type V = SpecFieldLayout;

    open spec fn view(&self) -> SpecFieldLayout
        decreases self,
    {
        match self {
            FieldLayout::Primitive(k, l) => SpecFieldLayout::Primitive(*k, *l),
            FieldLayout::PrimitiveArray(k, len, l) => SpecFieldLayout::PrimitiveArray(
                *k,
                *len,
                *l,
            ),
            FieldLayout::Matrix(mk, l) => SpecFieldLayout::Matrix(*mk, *l),
            FieldLayout::MatrixArray(mk, len, l) => SpecFieldLayout::MatrixArray(*mk, *len, *l),
            FieldLayout::Struct(r) => SpecFieldLayout::Struct(r@),
            FieldLayout::StructArray(ls) => SpecFieldLayout::StructArray(spec_layout_list(ls@)),
        }
    }
}

impl View for RecordLayout {
    type V = Seq<(Seq<char>, SpecFieldLayout)>;

    open spec fn view(&self) -> Seq<(Seq<char>, SpecFieldLayout)>
        decreases self,
    {
        spec_layout_fields(self.fields@)
    }
}

/// A compiled record's model has one element per field.
pub broadcast proof fn lemma_layout_fields_len(fs: Seq<(String, FieldLayout)>)
    ensures
        (#[trigger] spec_layout_fields(fs)).len() == fs.len(),
    decreases fs.len(),
{
    if fs.len() > 0 {
        lemma_layout_fields_len(fs.drop_last());
        assert(spec_layout_fields(fs) == spec_layout_fields(fs.drop_last()).push(
            (fs[fs.len() - 1].0@, fs[fs.len() - 1].1@),
        ));
    }
}

/// Each element of a compiled record's model is the model of the field at
/// the same position.
pub broadcast proof fn lemma_layout_fields_index(fs: Seq<(String, FieldLayout)>, i: int)
    requires
        0 <= i < fs.len(),
    ensures
        #[trigger] spec_layout_fields(fs)[i] == (fs[i].0@, fs[i].1@),
    decreases fs.len(),
{
    lemma_layout_fields_len(fs.drop_last());
    assert(spec_layout_fields(fs) == spec_layout_fields(fs.drop_last()).push(
        (fs[fs.len() - 1].0@, fs[fs.len() - 1].1@),
    ));
    if i < fs.len() - 1 {
        lemma_layout_fields_index(fs.drop_last(), i);
    }
}

/// A layout list's model has one element per layout.
pub broadcast proof fn lemma_layout_list_len(ls: Seq<RecordLayout>)
    ensures
        (#[trigger] spec_layout_list(ls)).len() == ls.len(),
    decreases ls.len(),
{
    if ls.len() > 0 {
        lemma_layout_list_len(ls.drop_last());
        assert(spec_layout_list(ls) == spec_layout_list(ls.drop_last()).push(ls[ls.len() - 1]@));
    }
}

/// Each element of a layout list's model is the model of the layout at the
/// same position.
pub broadcast proof fn lemma_layout_list_index(ls: Seq<RecordLayout>, i: int)
    requires
        0 <= i < ls.len(),
    ensures
        #[trigger] spec_layout_list(ls)[i] == ls[i]@,
    decreases ls.len(),
{
    lemma_layout_list_len(ls.drop_last());
    assert(spec_layout_list(ls) == spec_layout_list(ls.drop_last()).push(ls[ls.len() - 1]@));
    if i < ls.len() - 1 {
        lemma_layout_list_index(ls.drop_last(), i);
    }
}

/// The index and length facts about compiled-layout models, for use at
/// call sites.
pub broadcast group group_layout_view_lemmas {
    lemma_layout_fields_len,
    lemma_layout_fields_index,
    lemma_layout_list_len,
    lemma_layout_list_index,
}

/// The model of compiling one field: the declared kind against the
/// descriptor found under the field's name.
pub open spec fn spec_load_field(kind: SpecFieldKind, desc: SpecLayoutInfo) -> Result<
    SpecFieldLayout,
    CompileError,
>
    decreases kind, kind, 0int,
{
    match kind {
        SpecFieldKind::Primitive(k) => match desc {
            SpecLayoutInfo::PrimitiveField(o) => Ok(
                SpecFieldLayout::Primitive(k, SimpleFieldLayout { offset: o }),
            ),
            _ => Err(CompileError::SchemaMismatch),
        },
        SpecFieldKind::PrimitiveArray(k, len) => match desc {
            SpecLayoutInfo::ArrayField(o, s) => Ok(
                SpecFieldLayout::PrimitiveArray(k, len, ArrayFieldLayout { offset: o, stride: s }),
            ),
            _ => Err(CompileError::SchemaMismatch),
        },
        SpecFieldKind::Matrix(mk) => match desc {
            SpecLayoutInfo::ArrayField(o, s) => Ok(
                SpecFieldLayout::Matrix(mk, ArrayFieldLayout { offset: o, stride: s }),
            ),
            _ => Err(CompileError::SchemaMismatch),
        },
        SpecFieldKind::MatrixArray(mk, len) => match desc {
            SpecLayoutInfo::MatrixArrayField(o, a, m) => Ok(
                SpecFieldLayout::MatrixArray(
                    mk,
                    len,
                    MatrixArrayFieldLayout { offset: o, array_stride: a, matrix_stride: m },
                ),
            ),
            _ => Err(CompileError::SchemaMismatch),
        },
        SpecFieldKind::Struct(decl2) => match desc {
            SpecLayoutInfo::StructField(table2) => match spec_load_fields(
                decl2,
                table2,
                decl2.len() as int,
            ) {
                Ok(fs) => Ok(SpecFieldLayout::Struct(fs)),
                Err(e) => Err(e),
            },
            _ => Err(CompileError::SchemaMismatch),
        },
        SpecFieldKind::StructArray(decl2, len) => match desc {
            SpecLayoutInfo::StructArrayField(tables) => if tables.len() != len as int {
                Err(CompileError::LengthMismatch)
            } else {
                match spec_load_record_array(decl2, tables, tables.len() as int) {
                    Ok(ls) => Ok(SpecFieldLayout::StructArray(ls)),
                    Err(e) => Err(e),
                }
            },
            _ => Err(CompileError::SchemaMismatch),
        },
    }
}

/// The model of compiling the first `i` declared fields against `table`,
/// in declaration order; the earliest failure wins.
pub open spec fn spec_load_fields(
    decl: Seq<(Seq<char>, SpecFieldKind)>,
    table: Seq<(Seq<char>, SpecLayoutInfo)>,
    i: int,
) -> Result<Seq<(Seq<char>, SpecFieldLayout)>, CompileError>
    decreases decl, table, i,
{
    if i <= 0 || i > decl.len() {
        Ok(Seq::empty())
    } else {
        match spec_load_fields(decl, table, i - 1) {
            Err(e) => Err(e),
            Ok(fs) => match spec_lookup(table, decl[i - 1].0) {
                None => Err(CompileError::MissingField),
                Some(desc) => match spec_load_field(decl[i - 1].1, desc) {
                    Err(e) => Err(e),
                    Ok(fl) => Ok(fs.push((decl[i - 1].0, fl))),
                },
            },
        }
    }
}

/// The model of compiling one declaration against the first `j` element
/// tables of a record array.
pub open spec fn spec_load_record_array(
    decl: Seq<(Seq<char>, SpecFieldKind)>,
    tables: Seq<Seq<(Seq<char>, SpecLayoutInfo)>>,
    j: int,
) -> Result<Seq<Seq<(Seq<char>, SpecFieldLayout)>>, CompileError>
    decreases decl, tables, j,
{
    if j <= 0 || j > tables.len() {
        Ok(Seq::empty())
    } else {
        match spec_load_record_array(decl, tables, j - 1) {
            Err(e) => Err(e),
            Ok(ls) => match spec_load_fields(decl, tables[j - 1], decl.len() as int) {
                Err(e) => Err(e),
                Ok(fs) => Ok(ls.push(fs)),
            },
        }
    }
}

/// The model of compiling a whole record declaration against a table.
pub open spec fn spec_load_record(
    decl: Seq<(Seq<char>, SpecFieldKind)>,
    table: Seq<(Seq<char>, SpecLayoutInfo)>,
) -> Result<Seq<(Seq<char>, SpecFieldLayout)>, CompileError> {
    spec_load_fields(decl, table, decl.len() as int)
}

/// A failure among the first `i` fields decides the whole record's
/// compile.
pub proof fn lemma_load_fields_error(
    decl: Seq<(Seq<char>, SpecFieldKind)>,
    table: Seq<(Seq<char>, SpecLayoutInfo)>,
    i: int,
    j: int,
    e: CompileError,
)
    requires
        0 <= i <= j <= decl.len(),
        spec_load_fields(decl, table, i) == Err::<
            Seq<(Seq<char>, SpecFieldLayout)>,
            CompileError,
        >(e),
    ensures
        spec_load_fields(decl, table, j) == Err::<
            Seq<(Seq<char>, SpecFieldLayout)>,
            CompileError,
        >(e),
    decreases j,
{
    if j > i {
        lemma_load_fields_error(decl, table, i, j - 1, e);
    }
}

/// A failure among the first `j` element tables decides the whole record
/// array's compile.
pub proof fn lemma_load_record_array_error(
    decl: Seq<(Seq<char>, SpecFieldKind)>,
    tables: Seq<Seq<(Seq<char>, SpecLayoutInfo)>>,
    j: int,
    j2: int,
    e: CompileError,
)
    requires
        0 <= j <= j2 <= tables.len(),
        spec_load_record_array(decl, tables, j) == Err::<
            Seq<Seq<(Seq<char>, SpecFieldLayout)>>,
            CompileError,
        >(e),
    ensures
        spec_load_record_array(decl, tables, j2) == Err::<
            Seq<Seq<(Seq<char>, SpecFieldLayout)>>,
            CompileError,
        >(e),
    decreases j2,
{
    if j2 > j {
        lemma_load_record_array_error(decl, tables, j, j2 - 1, e);
    }
}

/// Compiles one field: matches the declared kind against the descriptor
/// found under the field's name, recursing into nested records.
pub fn load_field(kind: &FieldKind, desc: &LayoutInfo) -> (r: Result<FieldLayout, CompileError>)
    ensures
        match r {
            Ok(fl) => spec_load_field(kind@, desc@) == Ok::<SpecFieldLayout, CompileError>(fl@),
            Err(e) => spec_load_field(kind@, desc@) == Err::<SpecFieldLayout, CompileError>(e),
        },
    decreases *kind, *kind, 0int,
{
    match kind {
        FieldKind::Primitive(k) => match desc {
            LayoutInfo::PrimitiveField(o) => Ok(
                FieldLayout::Primitive(*k, SimpleFieldLayout { offset: *o }),
            ),
            _ => Err(CompileError::SchemaMismatch),
        },
        FieldKind::PrimitiveArray(k, len) => match desc {
            LayoutInfo::ArrayField(o, s) => Ok(
                FieldLayout::PrimitiveArray(*k, *len, ArrayFieldLayout { offset: *o, stride: *s }),
            ),
            _ => Err(CompileError::SchemaMismatch),
        },
        FieldKind::Matrix(mk) => match desc {
            LayoutInfo::ArrayField(o, s) => Ok(
                FieldLayout::Matrix(*mk, ArrayFieldLayout { offset: *o, stride: *s }),
            ),
            _ => Err(CompileError::SchemaMismatch),
        },
        FieldKind::MatrixArray(mk, len) => match desc {
            LayoutInfo::MatrixArrayField(o, a, m) => Ok(
                FieldLayout::MatrixArray(
                    *mk,
                    *len,
                    MatrixArrayFieldLayout {
                        offset: *o,
                        array_stride: *a,
                        matrix_stride: *m,
                    },
                ),
            ),
            _ => Err(CompileError::SchemaMismatch),
        },
        FieldKind::Struct(decl2) => match desc {
            LayoutInfo::StructField(table2) => match load_record(decl2, table2) {
                Ok(rl) => Ok(FieldLayout::Struct(rl)),
                Err(e) => Err(e),
            },
            _ => Err(CompileError::SchemaMismatch),
        },
        FieldKind::StructArray(decl2, len) => match desc {
            LayoutInfo::StructArrayField(tables) => if tables.len() != *len as usize {
                Err(CompileError::LengthMismatch)
            } else {
                match load_record_array(decl2, tables) {
                    Ok(ls) => Ok(FieldLayout::StructArray(ls)),
                    Err(e) => Err(e),
                }
            },
            _ => Err(CompileError::SchemaMismatch),
        },
    }
}

/// Compiles a whole record declaration against a table, field by field in
/// declaration order. Any failure aborts the whole compile.
pub fn load_record(decl: &RecordDecl, table: &LayoutTable) -> (r: Result<
    RecordLayout,
    CompileError,
>)
    ensures
        match r {
            Ok(l) => spec_load_record(decl@, table@) == Ok::<
                Seq<(Seq<char>, SpecFieldLayout)>,
                CompileError,
            >(l@),
            Err(e) => spec_load_record(decl@, table@) == Err::<
                Seq<(Seq<char>, SpecFieldLayout)>,
                CompileError,
            >(e),
        },
    decreases *decl, *table, 0int,
{
    let n = decl.fields.len();
    let mut out: Vec<(String, FieldLayout)> = Vec::new();
    let mut i: usize = 0;
    proof {
        assert(decl@ == crate::decl::spec_decl_fields(decl.fields@));
    }
    while i < n
        invariant
            n == decl.fields.len(),
            decl@.len() == n,
            i <= n,
            out@.len() == i,
            spec_load_fields(decl@, table@, i as int) == Ok::<
                Seq<(Seq<char>, SpecFieldLayout)>,
                CompileError,
            >(spec_layout_fields(out@)),
        decreases n - i,
    {
        let name = &decl.fields[i].0;
        let kind = &decl.fields[i].1;
        proof {
            crate::decl::lemma_decl_fields_index(decl.fields@, i as int);
            assert(decl@[i as int] == (name@, kind@));
        }
        match table.get_field_layout(name.as_str()) {
            None => {
                proof {
                    lemma_load_fields_error(
                        decl@,
                        table@,
                        i + 1,
                        n as int,
                        CompileError::MissingField,
                    );
                }
                return Err(CompileError::MissingField);
            },
            Some(desc) => match load_field(kind, desc) {
                Err(e) => {
                    proof {
                        lemma_load_fields_error(decl@, table@, i + 1, n as int, e);
                    }
                    return Err(e);
                },
                Ok(fl) => {
                    let ghost pre = out@;
                    let owned_name = name.clone();
                    out.push((owned_name, fl));
                    proof {
                        assert(out@.drop_last() =~= pre);
                    }
                    i = i + 1;
                },
            },
        }
    }
    Ok(RecordLayout { fields: out })
}

/// Compiles one declaration against each element table of a record array,
/// in element order.
pub fn load_record_array(decl: &RecordDecl, tables: &Vec<LayoutTable>) -> (r: Result<
    Vec<RecordLayout>,
    CompileError,
>)
    ensures
        match r {
            Ok(ls) => spec_load_record_array(decl@, crate::schema::spec_table_list(tables@), tables@.len() as int)
                == Ok::<Seq<Seq<(Seq<char>, SpecFieldLayout)>>, CompileError>(spec_layout_list(ls@)),
            Err(e) => spec_load_record_array(decl@, crate::schema::spec_table_list(tables@), tables@.len() as int)
                == Err::<Seq<Seq<(Seq<char>, SpecFieldLayout)>>, CompileError>(e),
        },
    decreases *decl, *tables, 0int,
{
    let m = tables.len();
    let mut out: Vec<RecordLayout> = Vec::new();
    let mut j: usize = 0;
    while j < m
        invariant
            m == tables.len(),
            j <= m,
            out@.len() == j,
            spec_load_record_array(decl@, crate::schema::spec_table_list(tables@), j as int)
                == Ok::<Seq<Seq<(Seq<char>, SpecFieldLayout)>>, CompileError>(spec_layout_list(out@)),
        decreases m - j,
    {
        match load_record(decl, &tables[j]) {
            Err(e) => {
                proof {
                    lemma_load_record_array_error(
                        decl@,
                        crate::schema::spec_table_list(tables@),
                        j + 1,
                        m as int,
                        e,
                    );
                }
                return Err(e);
            },
            Ok(rl) => {
                let ghost pre = out@;
                out.push(rl);
                proof {
                    assert(out@.drop_last() =~= pre);
                }
                j = j + 1;
            },
        }
    }
    Ok(out)
}

/// Declarations that compile into a layout against a run-time table.
pub trait DynamicLayout {
    /// The compile result at spec level.
    spec fn spec_load_layout(&self, table: Seq<(Seq<char>, SpecLayoutInfo)>) -> Result<
        Seq<(Seq<char>, SpecFieldLayout)>,
        CompileError,
    >;

    /// Compiles this declaration against `table` into a reusable layout.
    fn load_layout(&self, table: &LayoutTable) -> (r: Result<RecordLayout, CompileError>)
        ensures
            match r {
                Ok(l) => self.spec_load_layout(table@) == Ok::<
                    Seq<(Seq<char>, SpecFieldLayout)>,
                    CompileError,
                >(l@),
                Err(e) => self.spec_load_layout(table@) == Err::<
                    Seq<(Seq<char>, SpecFieldLayout)>,
                    CompileError,
                >(e),
            },
    ;
}

impl DynamicLayout for RecordDecl {
    open spec fn spec_load_layout(&self, table: Seq<(Seq<char>, SpecLayoutInfo)>) -> Result<
        Seq<(Seq<char>, SpecFieldLayout)>,
        CompileError,
    > {
        spec_load_record(self@, table)
    }

    fn load_layout(&self, table: &LayoutTable) -> (r: Result<RecordLayout, CompileError>) {
        load_record(self, table)
    }
}

/// Marker for declarations that may stand as a nested record field or as
/// the element type of a record array.
pub trait StructField: DynamicLayout {

}

impl StructField for RecordDecl {

}

} // verus!
