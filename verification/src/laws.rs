//! The laws the engine guarantees, stated once and proved for every
//! input.

use vstd::prelude::*;
use crate::accessor::{
    MatrixAccessor, PrimitiveAccessor, PrimitiveArrayAccessor, spec_bind_record,
};
use crate::compile::{
    CompileError, RecordLayout, SpecFieldLayout, spec_load_fields, spec_load_record,
};
use crate::decl::{RecordDecl, SpecFieldKind};
use crate::schema::{LayoutTable, SpecLayoutInfo};
use crate::spans::spec_record_spans;
use crate::words::{
    lemma_with_word_frame, lemma_word_disjoint, lemma_word_round_trip, with_word, word_at,
};

verus! {

/// Round trip through a scalar or vector view: after writing value `v` at
/// lane `lane`, reading the same lane returns `v` bit for bit.
///
/// A write through `PrimitiveAccessor::write` turns a buffer `b` into
/// `with_word(b, addr, v)`, and a read of the same lane returns the word
/// at `addr`; this law connects the two.
pub proof fn lemma_primitive_round_trip(acc: PrimitiveAccessor, b: Seq<u8>, lane: int, v: u32)
    requires
        0 <= lane < acc.kind.spec_lanes(),
        acc.spec_extent() <= b.len(),
    ensures
        word_at(with_word(b, acc.spec_addr(lane), v), acc.spec_addr(lane)) == v,
{
    lemma_word_round_trip(b, acc.spec_addr(lane), v);
}

/// Round trip through a strided array view: after writing value `v` at
/// element `index`, lane `lane`, reading the same place returns `v` bit
/// for bit.
pub proof fn lemma_array_round_trip(
    acc: PrimitiveArrayAccessor,
    b: Seq<u8>,
    index: int,
    lane: int,
    v: u32,
)
    requires
        0 <= index < acc.length,
        0 <= lane < acc.kind.spec_lanes(),
        acc.spec_extent() <= b.len(),
    ensures
        word_at(with_word(b, acc.spec_addr(index, lane), v), acc.spec_addr(index, lane)) == v,
{
    acc.lemma_addr_in_extent(index, lane);
    lemma_word_round_trip(b, acc.spec_addr(index, lane), v);
}

/// Round trip through a matrix view: after writing value `v` at column
/// `col`, row `row`, reading the same place returns `v` bit for bit.
pub proof fn lemma_matrix_round_trip(acc: MatrixAccessor, b: Seq<u8>, col: int, row: int, v: u32)
    requires
        0 <= col < acc.kind.spec_cols(),
        0 <= row < acc.kind.spec_rows(),
        acc.spec_extent() <= b.len(),
    ensures
        word_at(with_word(b, acc.spec_addr(col, row), v), acc.spec_addr(col, row)) == v,
{
    acc.lemma_addr_in_extent(col, row);
    lemma_word_round_trip(b, acc.spec_addr(col, row), v);
}

/// A write through a view is local: it changes nothing outside its four
/// target bytes, so the word at any address whose four bytes do not
/// overlap the written word reads back unchanged.
pub proof fn lemma_write_is_local(
    acc: PrimitiveAccessor,
    b: Seq<u8>,
    lane: int,
    v: u32,
    other: int,
)
    requires
        0 <= lane < acc.kind.spec_lanes(),
        acc.spec_extent() <= b.len(),
        0 <= other,
        other + 4 <= b.len(),
        other + 4 <= acc.spec_addr(lane) || acc.spec_addr(lane) + 4 <= other,
    ensures
        with_word(b, acc.spec_addr(lane), v).len() == b.len(),
        forall|i: int|
            0 <= i < b.len() && !(acc.spec_addr(lane) <= i < acc.spec_addr(lane) + 4)
                ==> with_word(b, acc.spec_addr(lane), v)[i] == b[i],
        word_at(with_word(b, acc.spec_addr(lane), v), other) == word_at(b, other),
{
    lemma_with_word_frame(b, acc.spec_addr(lane), v);
    lemma_word_disjoint(b, acc.spec_addr(lane), other, v);
}

/// A successful compile of the first `i` fields yields exactly those
/// fields, under their declared names, in declaration order.
proof fn lemma_load_fields_names(
    decl: Seq<(Seq<char>, SpecFieldKind)>,
    table: Seq<(Seq<char>, SpecLayoutInfo)>,
    i: int,
    fs: Seq<(Seq<char>, SpecFieldLayout)>,
)
    requires
        0 <= i <= decl.len(),
        spec_load_fields(decl, table, i) == Ok::<
            Seq<(Seq<char>, SpecFieldLayout)>,
            CompileError,
        >(fs),
    ensures
        fs.len() == i,
        forall|j: int| 0 <= j < i ==> #[trigger] fs[j].0 == decl[j].0,
    decreases i,
{
    if i > 0 {
        let prev = spec_load_fields(decl, table, i - 1);
        match prev {
            Ok(rest) => {
                lemma_load_fields_names(decl, table, i - 1, rest);
            },
            Err(_) => {
                assert(false);
            },
        }
    }
}

/// A compiled layout holds exactly the declared fields: one per declared
/// name, in declaration order.
pub proof fn lemma_compile_preserves_names(
    decl: Seq<(Seq<char>, SpecFieldKind)>,
    table: Seq<(Seq<char>, SpecLayoutInfo)>,
    fs: Seq<(Seq<char>, SpecFieldLayout)>,
)
    requires
        spec_load_record(decl, table) == Ok::<
            Seq<(Seq<char>, SpecFieldLayout)>,
            CompileError,
        >(fs),
    ensures
        fs.len() == decl.len(),
        forall|j: int| 0 <= j < decl.len() ==> #[trigger] fs[j].0 == decl[j].0,
{
    lemma_load_fields_names(decl, table, decl.len() as int, fs);
}

/// A bound accessor holds exactly the compiled fields: one view per field,
/// under the same name, in the same order.
pub proof fn lemma_bind_preserves_names(
    fs: Seq<(Seq<char>, SpecFieldLayout)>,
    i: int,
)
    requires
        0 <= i <= fs.len(),
    ensures
        spec_bind_record(fs, i).len() == i,
        forall|j: int| 0 <= j < i ==> (#[trigger] spec_bind_record(fs, i)[j]).0 == fs[j].0,
    decreases i,
{
    if i > 0 {
        lemma_bind_preserves_names(fs, i - 1);
        assert forall|j: int| 0 <= j < i implies (#[trigger] spec_bind_record(fs, i)[j]).0
            == fs[j].0 by {
            if j < i - 1 {
                assert(spec_bind_record(fs, i)[j] == spec_bind_record(fs, i - 1)[j]);
            }
        }
    }
}

/// Compiling the same declaration against the same table twice yields
/// layouts with equal models, and therefore identical spans and identical
/// bound accessors.
pub proof fn lemma_idempotent_compile(
    decl: RecordDecl,
    table: LayoutTable,
    l1: RecordLayout,
    l2: RecordLayout,
)
    requires
        spec_load_record(decl@, table@) == Ok::<
            Seq<(Seq<char>, SpecFieldLayout)>,
            CompileError,
        >(l1@),
        spec_load_record(decl@, table@) == Ok::<
            Seq<(Seq<char>, SpecFieldLayout)>,
            CompileError,
        >(l2@),
    ensures
        l1@ == l2@,
        spec_record_spans(l1@, l1@.len() as int) == spec_record_spans(l2@, l2@.len() as int),
        spec_bind_record(l1@, l1@.len() as int) == spec_bind_record(l2@, l2@.len() as int),
{
}

} // verus!
