//! Typed, named field access over raw byte buffers whose field offsets and
//! strides are only known at run time.
//!
//! A caller declares a record's fields once (name and kind), supplies a
//! run-time table mapping names to byte locations, compiles the two into a
//! validated `RecordLayout`, and binds the layout into a `RecordAccessor`
//! that reads and writes a byte buffer through bounds-checked typed views.
//!
//! All values are 32-bit words stored little-endian; a float or integer
//! travels through the library as its bit pattern.

pub mod accessor;
pub mod compile;
pub mod decl;
pub mod laws;
pub mod matrix_types;
pub mod primitive_types;
pub mod schema;
pub mod spans;
pub mod vector_types;
pub mod words;

pub use accessor::AccessDynamicField;
pub use accessor::AccessError;
pub use accessor::FieldAccessor;
pub use accessor::MatrixAccessor;
pub use accessor::PrimitiveAccessor;
pub use accessor::PrimitiveArrayAccessor;
pub use accessor::RecordAccessor;
pub use compile::ArrayFieldLayout;
pub use compile::CompileError;
pub use compile::DynamicLayout;
pub use compile::FieldLayout;
pub use compile::MatrixArrayFieldLayout;
pub use compile::RecordLayout;
pub use compile::SimpleFieldLayout;
pub use compile::StructField;
pub use decl::FieldKind;
pub use decl::RecordDecl;
pub use matrix_types::MatrixKind;
pub use primitive_types::PrimitiveKind;
pub use schema::LayoutInfo;
pub use schema::LayoutTable;
pub use schema::LengthType;
pub use schema::LoadStructLayout;
pub use schema::OffsetType;
pub use schema::StrideType;
pub use spans::FieldSpan;
pub use spans::get_field_spans;
