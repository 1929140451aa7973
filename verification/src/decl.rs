//! Record declarations: the registration side of the engine.
//!
//! A caller declares each record type once as an ordered list of
//! (field name, field kind) pairs. The declaration is independent of any
//! particular schema table; compiling pairs the two and validates them
//! against each other.

use vstd::prelude::*;
use crate::matrix_types::MatrixKind;
use crate::primitive_types::PrimitiveKind;
use crate::schema::LengthType;

verus! {

/// The declared kind of one record field.
pub enum FieldKind {
    /// One scalar or vector value.
    Primitive(PrimitiveKind),
    /// A fixed-length array of scalar or vector values.
    PrimitiveArray(PrimitiveKind, LengthType),
    /// One matrix.
    Matrix(MatrixKind),
    /// A fixed-length array of matrices.
    MatrixArray(MatrixKind, LengthType),
    /// A nested record.
    Struct(RecordDecl),
    /// A fixed-length array of nested records.
    StructArray(RecordDecl, LengthType),
}

/// The ordered (name, kind) declaration of one record type.
pub struct RecordDecl {
    /// The declared fields, in declaration order.
    pub fields: Vec<(String, FieldKind)>,
}

/// Mathematical model of a field kind: the same shape with declarations as
/// sequences and names as character sequences.
pub ghost enum SpecFieldKind {
    /// Model of `FieldKind::Primitive`.
    Primitive(PrimitiveKind),
    /// Model of `FieldKind::PrimitiveArray`.
    PrimitiveArray(PrimitiveKind, u16),
    /// Model of `FieldKind::Matrix`.
    Matrix(MatrixKind),
    /// Model of `FieldKind::MatrixArray`.
    MatrixArray(MatrixKind, u16),
    /// Model of `FieldKind::Struct`.
    Struct(Seq<(Seq<char>, SpecFieldKind)>),
    /// Model of `FieldKind::StructArray`.
    StructArray(Seq<(Seq<char>, SpecFieldKind)>, u16),
}

/// The model of a sequence of declared fields, element by element.
pub open spec fn spec_decl_fields(fs: Seq<(String, FieldKind)>) -> Seq<(Seq<char>, SpecFieldKind)>
    decreases fs,
{
    if fs.len() == 0 {
        Seq::empty()
    } else {
        spec_decl_fields(fs.drop_last()).push((fs[fs.len() - 1].0@, fs[fs.len() - 1].1@))
    }
}

impl View for FieldKind {
    type V = SpecFieldKind;

    open spec fn view(&self) -> SpecFieldKind
        decreases self,
    {
        match self {
            FieldKind::Primitive(k) => SpecFieldKind::Primitive(*k),
            FieldKind::PrimitiveArray(k, len) => SpecFieldKind::PrimitiveArray(*k, *len),
            FieldKind::Matrix(mk) => SpecFieldKind::Matrix(*mk),
            FieldKind::MatrixArray(mk, len) => SpecFieldKind::MatrixArray(*mk, *len),
            FieldKind::Struct(d) => SpecFieldKind::Struct(d@),
            FieldKind::StructArray(d, len) => SpecFieldKind::StructArray(d@, *len),
        }
    }
}

impl View for RecordDecl {
    type V = Seq<(Seq<char>, SpecFieldKind)>;

    open spec fn view(&self) -> Seq<(Seq<char>, SpecFieldKind)>
        decreases self,
    {
        spec_decl_fields(self.fields@)
    }
}

/// A declaration's model has one element per declared field.
pub broadcast proof fn lemma_decl_fields_len(fs: Seq<(String, FieldKind)>)
    ensures
        (#[trigger] spec_decl_fields(fs)).len() == fs.len(),
    decreases fs.len(),
{
    if fs.len() > 0 {
        lemma_decl_fields_len(fs.drop_last());
        assert(spec_decl_fields(fs) == spec_decl_fields(fs.drop_last()).push(
            (fs[fs.len() - 1].0@, fs[fs.len() - 1].1@),
        ));
    }
}

/// Each element of a declaration's model is the model of the field at the
/// same position.
pub broadcast proof fn lemma_decl_fields_index(fs: Seq<(String, FieldKind)>, i: int)
    requires
        0 <= i < fs.len(),
    ensures
        #[trigger] spec_decl_fields(fs)[i] == (fs[i].0@, fs[i].1@),
    decreases fs.len(),
{
    lemma_decl_fields_len(fs.drop_last());
    assert(spec_decl_fields(fs) == spec_decl_fields(fs.drop_last()).push(
        (fs[fs.len() - 1].0@, fs[fs.len() - 1].1@),
    ));
    if i < fs.len() - 1 {
        lemma_decl_fields_index(fs.drop_last(), i);
    }
}

/// The index and length facts about declaration models, for use at call
/// sites.
pub broadcast group group_decl_view_lemmas {
    lemma_decl_fields_len,
    lemma_decl_fields_index,
}

} // verus!
