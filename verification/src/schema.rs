//! The run-time schema: descriptors and tables.
//!
//! A `LayoutTable` is the externally supplied, unvalidated mapping from
//! field names to byte locations, ordered and recursive: a record-kind
//! descriptor owns a nested table, a record-array descriptor one table per
//! element. Lookup by name resolves against a table; against any other
//! descriptor it never resolves, which is how malformed schemas surface.

use vstd::prelude::*;

verus! {

broadcast use vstd::std_specs::vec::group_vec_axioms;

/// Byte offset of a field, relative to the start of its record.
pub type OffsetType = u16;

/// Byte distance between consecutive array elements or matrix columns.
pub type StrideType = u16;

/// A declared element count, or the byte length of a span.
pub type LengthType = u16;

/// Unvalidated declaration of one field's byte location, as supplied by the
/// external schema source.
pub enum LayoutInfo {
    /// A scalar or vector value at a byte offset.
    PrimitiveField(OffsetType),
    /// Evenly strided locations: an array of primitives, or the columns of
    /// one matrix.
    ArrayField(OffsetType, StrideType),
    /// An array of matrices: offset, stride between consecutive matrices,
    /// stride between the columns of one matrix.
    MatrixArrayField(OffsetType, StrideType, StrideType),
    /// A nested record described by its own table.
    StructField(LayoutTable),
    /// An array of records, one independent table per element.
    StructArrayField(Vec<LayoutTable>),
}

/// Ordered (name, descriptor) pairs describing one record.
pub struct LayoutTable {
    /// The (name, descriptor) pairs, in declaration order.
    pub entries: Vec<(String, LayoutInfo)>,
}

/// Mathematical model of a descriptor: the same shape with tables as
/// sequences and names as character sequences.
pub ghost enum SpecLayoutInfo {
    /// Model of `LayoutInfo::PrimitiveField`.
    PrimitiveField(u16),
    /// Model of `LayoutInfo::ArrayField`.
    ArrayField(u16, u16),
    /// Model of `LayoutInfo::MatrixArrayField`.
    MatrixArrayField(u16, u16, u16),
    /// Model of `LayoutInfo::StructField`.
    StructField(Seq<(Seq<char>, SpecLayoutInfo)>),
    /// Model of `LayoutInfo::StructArrayField`.
    StructArrayField(Seq<Seq<(Seq<char>, SpecLayoutInfo)>>),
}

/// The model of a sequence of table entries, element by element.
pub open spec fn spec_table_entries(es: Seq<(String, LayoutInfo)>) -> Seq<
    (Seq<char>, SpecLayoutInfo),
>
    decreases es,
{
    if es.len() == 0 {
        Seq::empty()
    } else {
        spec_table_entries(es.drop_last()).push(
            (es[es.len() - 1].0@, es[es.len() - 1].1@),
        )
    }
}

/// The model of a list of tables, table by table.
pub open spec fn spec_table_list(ts: Seq<LayoutTable>) -> Seq<Seq<(Seq<char>, SpecLayoutInfo)>>
    decreases ts,
{
    if ts.len() == 0 {
        Seq::empty()
    } else {
        spec_table_list(ts.drop_last()).push(ts[ts.len() - 1]@)
    }
}

impl View for LayoutInfo {
    type V = SpecLayoutInfo;

    open spec fn view(&self) -> SpecLayoutInfo
        decreases self,
    {
        match self {
            LayoutInfo::PrimitiveField(o) => SpecLayoutInfo::PrimitiveField(*o),
            LayoutInfo::ArrayField(o, s) => SpecLayoutInfo::ArrayField(*o, *s),
            LayoutInfo::MatrixArrayField(o, a, m) => SpecLayoutInfo::MatrixArrayField(*o, *a, *m),
            LayoutInfo::StructField(t) => SpecLayoutInfo::StructField(t@),
            LayoutInfo::StructArrayField(ts) => SpecLayoutInfo::StructArrayField(
                spec_table_list(ts@),
            ),
        }
    }
}

impl View for LayoutTable {
    type V = Seq<(Seq<char>, SpecLayoutInfo)>;

    open spec fn view(&self) -> Seq<(Seq<char>, SpecLayoutInfo)>
        decreases self,
    {
        spec_table_entries(self.entries@)
    }
}

/// A table's model has one element per entry.
pub broadcast proof fn lemma_table_entries_len(es: Seq<(String, LayoutInfo)>)
    ensures
        (#[trigger] spec_table_entries(es)).len() == es.len(),
    decreases es.len(),
{
    if es.len() > 0 {
        lemma_table_entries_len(es.drop_last());
        assert(spec_table_entries(es) == spec_table_entries(es.drop_last()).push(
            (es[es.len() - 1].0@, es[es.len() - 1].1@),
        ));
    }
}

/// Each element of a table's model is the model of the entry at the same
/// position.
pub broadcast proof fn lemma_table_entries_index(es: Seq<(String, LayoutInfo)>, i: int)
    requires
        0 <= i < es.len(),
    ensures
        #[trigger] spec_table_entries(es)[i] == (es[i].0@, es[i].1@),
    decreases es.len(),
{
    lemma_table_entries_len(es.drop_last());
    assert(spec_table_entries(es) == spec_table_entries(es.drop_last()).push(
        (es[es.len() - 1].0@, es[es.len() - 1].1@),
    ));
    if i < es.len() - 1 {
        lemma_table_entries_index(es.drop_last(), i);
    }
}

/// A table list's model has one element per table.
pub broadcast proof fn lemma_table_list_len(ts: Seq<LayoutTable>)
    ensures
        (#[trigger] spec_table_list(ts)).len() == ts.len(),
    decreases ts.len(),
{
    if ts.len() > 0 {
        lemma_table_list_len(ts.drop_last());
        assert(spec_table_list(ts) == spec_table_list(ts.drop_last()).push(ts[ts.len() - 1]@));
    }
}

/// Each element of a table list's model is the model of the table at the
/// same position.
pub broadcast proof fn lemma_table_list_index(ts: Seq<LayoutTable>, i: int)
    requires
        0 <= i < ts.len(),
    ensures
        #[trigger] spec_table_list(ts)[i] == ts[i]@,
    decreases ts.len(),
{
    lemma_table_list_len(ts.drop_last());
    assert(spec_table_list(ts) == spec_table_list(ts.drop_last()).push(ts[ts.len() - 1]@));
    if i < ts.len() - 1 {
        lemma_table_list_index(ts.drop_last(), i);
    }
}

/// The index and length facts about table models, for use at call sites.
pub broadcast group group_schema_view_lemmas {
    lemma_table_entries_len,
    lemma_table_entries_index,
    lemma_table_list_len,
    lemma_table_list_index,
}

/// The first descriptor declared under `name`, or `None` when the name is
/// absent from the table.
pub open spec fn spec_lookup(table: Seq<(Seq<char>, SpecLayoutInfo)>, name: Seq<char>) -> Option<
    SpecLayoutInfo,
>
    decreases table.len(),
{
    if table.len() == 0 {
        None
    } else if table[0].0 == name {
        Some(table[0].1)
    } else {
        spec_lookup(table.drop_first(), name)
    }
}

/// Lookup of a field's declared location by name.
pub trait LoadStructLayout {
    /// The looked-up descriptor at spec level; `None` when the name does
    /// not resolve here.
    spec fn spec_get_field_layout(&self, name: Seq<char>) -> Option<SpecLayoutInfo>;

    /// Returns the descriptor declared under `field_name`, or `None` when
    /// the name does not resolve here.
    fn get_field_layout(&self, field_name: &str) -> (r: Option<&LayoutInfo>)
        ensures
            match r {
                Some(info) => self.spec_get_field_layout(field_name@) == Some(info@),
                None => self.spec_get_field_layout(field_name@) is None,
            },
    ;
}

impl LoadStructLayout for LayoutTable {
    open spec fn spec_get_field_layout(&self, name: Seq<char>) -> Option<SpecLayoutInfo> {
        spec_lookup(self@, name)
    }

    fn get_field_layout(&self, field_name: &str) -> (r: Option<&LayoutInfo>) {
        let wanted: String = field_name.to_owned();
        let n = self.entries.len();
        let mut i: usize = 0;
        proof {
            lemma_table_entries_len(self.entries@);
            assert(self@.skip(0) =~= self@);
        }
        while i < n
            invariant
                n == self.entries.len(),
                self@.len() == n,
                i <= n,
                wanted@ == field_name@,
                spec_lookup(self@, field_name@) == spec_lookup(self@.skip(i as int), field_name@),
            decreases n - i,
        {
            let hit = self.entries[i].0 == wanted;
            proof {
                lemma_table_entries_index(self.entries@, i as int);
                assert(self@.skip(i as int)[0] == self@[i as int]);
            }
            if hit {
                return Some(&self.entries[i].1);
            }
            proof {
                assert(self@.skip(i as int).drop_first() =~= self@.skip(i as int + 1));
            }
            i = i + 1;
        }
        proof {
            assert(self@.skip(n as int).len() == 0);
        }
        None
    }
}

impl LoadStructLayout for LayoutInfo {
    open spec fn spec_get_field_layout(&self, name: Seq<char>) -> Option<SpecLayoutInfo> {
        match self@ {
            SpecLayoutInfo::StructField(table) => spec_lookup(table, name),
            _ => None,
        }
    }

    fn get_field_layout(&self, field_name: &str) -> (r: Option<&LayoutInfo>) {
        match self {
            LayoutInfo::StructField(inner) => inner.get_field_layout(field_name),
            _ => None,
        }
    }
}

} // verus!
