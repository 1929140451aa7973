use dynamiclayout::accessor::{
    AccessError, FieldAccessor, MatrixAccessor, PrimitiveAccessor, PrimitiveArrayAccessor,
    RecordAccessor,
};
use dynamiclayout::compile::{CompileError, DynamicLayout, RecordLayout};
use dynamiclayout::decl::{FieldKind, RecordDecl};
use dynamiclayout::matrix_types::MatrixKind;
use dynamiclayout::primitive_types::PrimitiveKind;
use dynamiclayout::schema::{LayoutInfo, LayoutTable, LoadStructLayout};
use dynamiclayout::spans::get_field_spans;

fn entry(name: &str, info: LayoutInfo) -> (String, LayoutInfo) {
    (name.to_string(), info)
}

fn field(name: &str, kind: FieldKind) -> (String, FieldKind) {
    (name.to_string(), kind)
}

fn prim<'a>(acc: &'a RecordAccessor, name: &str) -> &'a PrimitiveAccessor {
    match acc.field(name).expect("field") {
        FieldAccessor::Primitive(p) => p,
        _ => panic!("not a primitive field"),
    }
}

fn arr<'a>(acc: &'a RecordAccessor, name: &str) -> &'a PrimitiveArrayAccessor {
    match acc.field(name).expect("field") {
        FieldAccessor::PrimitiveArray(a) => a,
        _ => panic!("not an array field"),
    }
}

fn mat<'a>(acc: &'a RecordAccessor, name: &str) -> &'a MatrixAccessor {
    match acc.field(name).expect("field") {
        FieldAccessor::Matrix(m) => m,
        _ => panic!("not a matrix field"),
    }
}

fn sample_decl() -> RecordDecl {
    RecordDecl {
        fields: vec![
            field("scalar", FieldKind::Primitive(PrimitiveKind::U32)),
            field("vector", FieldKind::Primitive(PrimitiveKind::Vec4)),
            field("array", FieldKind::PrimitiveArray(PrimitiveKind::I32, 8)),
            field("matrix", FieldKind::Matrix(MatrixKind::Matrix3x2)),
            field("matrices", FieldKind::MatrixArray(MatrixKind::Matrix2x3, 2)),
            field(
                "nested",
                FieldKind::Struct(RecordDecl {
                    fields: vec![field("inner", FieldKind::Primitive(PrimitiveKind::F32))],
                }),
            ),
            field(
                "records",
                FieldKind::StructArray(
                    RecordDecl {
                        fields: vec![field("inner", FieldKind::Primitive(PrimitiveKind::F32))],
                    },
                    2,
                ),
            ),
        ],
    }
}

fn sample_table() -> LayoutTable {
    LayoutTable {
        entries: vec![
            entry("scalar", LayoutInfo::PrimitiveField(0)),
            entry("vector", LayoutInfo::PrimitiveField(4)),
            entry("array", LayoutInfo::ArrayField(20, 4)),
            entry("matrix", LayoutInfo::ArrayField(52, 8)),
            entry("matrices", LayoutInfo::MatrixArrayField(76, 12, 24)),
            entry(
                "nested",
                LayoutInfo::StructField(LayoutTable {
                    entries: vec![entry("inner", LayoutInfo::PrimitiveField(124))],
                }),
            ),
            entry(
                "records",
                LayoutInfo::StructArrayField(vec![
                    LayoutTable {
                        entries: vec![entry("inner", LayoutInfo::PrimitiveField(128))],
                    },
                    LayoutTable {
                        entries: vec![entry("inner", LayoutInfo::PrimitiveField(132))],
                    },
                ]),
            ),
        ],
    }
}

const SAMPLE_SIZE: usize = 136;

#[test]
fn round_trip_every_field_kind() {
    let layout = sample_decl().load_layout(&sample_table()).unwrap();
    let acc = layout.accessor();
    let mut bytes = vec![0u8; SAMPLE_SIZE];
    let pattern: u32 = 0xDEADBEEF;

    prim(&acc, "scalar").write(&mut bytes, 0, pattern).unwrap();
    assert_eq!(prim(&acc, "scalar").read(&bytes, 0).unwrap(), pattern);

    for lane in 0..4 {
        prim(&acc, "vector").write(&mut bytes, lane, pattern + lane as u32).unwrap();
        assert_eq!(prim(&acc, "vector").read(&bytes, lane).unwrap(), pattern + lane as u32);
    }

    for i in 0..8 {
        arr(&acc, "array").write(&mut bytes, i, 0, i as u32 * 3).unwrap();
        assert_eq!(arr(&acc, "array").read(&bytes, i, 0).unwrap(), i as u32 * 3);
    }

    for c in 0..3 {
        for r in 0..2 {
            let v = (10 * c + r) as u32;
            mat(&acc, "matrix").write(&mut bytes, c, r, v).unwrap();
            assert_eq!(mat(&acc, "matrix").read(&bytes, c, r).unwrap(), v);
        }
    }

    let matrices = match acc.field("matrices").unwrap() {
        FieldAccessor::MatrixArray(ms) => ms,
        _ => panic!("kind"),
    };
    for (i, m) in matrices.iter().enumerate() {
        for c in 0..2 {
            for r in 0..3 {
                let v = (100 * i + 10 * c + r) as u32;
                m.write(&mut bytes, c, r, v).unwrap();
                assert_eq!(m.read(&bytes, c, r).unwrap(), v);
            }
        }
    }

    let nested = match acc.field("nested").unwrap() {
        FieldAccessor::Struct(r) => r,
        _ => panic!("kind"),
    };
    prim(nested, "inner").write(&mut bytes, 0, 7.5f32.to_bits()).unwrap();
    assert_eq!(prim(nested, "inner").read(&bytes, 0).unwrap(), 7.5f32.to_bits());

    let records = match acc.field("records").unwrap() {
        FieldAccessor::StructArray(rs) => rs,
        _ => panic!("kind"),
    };
    for (i, r) in records.iter().enumerate() {
        let v = (-1.5f32 * (i as f32 + 1.0)).to_bits();
        prim(r, "inner").write(&mut bytes, 0, v).unwrap();
        assert_eq!(prim(r, "inner").read(&bytes, 0).unwrap(), v);
    }
}

#[test]
fn missing_field_error() {
    let table = LayoutTable {
        entries: vec![entry("scalar", LayoutInfo::PrimitiveField(0))],
    };
    let decl = RecordDecl {
        fields: vec![
            field("scalar", FieldKind::Primitive(PrimitiveKind::U32)),
            field("absent", FieldKind::Primitive(PrimitiveKind::U32)),
        ],
    };
    assert!(matches!(decl.load_layout(&table), Err(CompileError::MissingField)));
}

#[test]
fn schema_mismatch_error() {
    let decl = RecordDecl {
        fields: vec![field("array", FieldKind::PrimitiveArray(PrimitiveKind::I32, 8))],
    };
    let table = LayoutTable {
        entries: vec![entry("array", LayoutInfo::PrimitiveField(0))],
    };
    assert!(matches!(decl.load_layout(&table), Err(CompileError::SchemaMismatch)));

    let matrix_decl = RecordDecl {
        fields: vec![field("m", FieldKind::Matrix(MatrixKind::Matrix4))],
    };
    let matrix_table = LayoutTable {
        entries: vec![entry("m", LayoutInfo::MatrixArrayField(0, 4, 16))],
    };
    assert!(matches!(matrix_decl.load_layout(&matrix_table), Err(CompileError::SchemaMismatch)));
}

#[test]
fn length_mismatch_error() {
    let inner = RecordDecl {
        fields: vec![field("x", FieldKind::Primitive(PrimitiveKind::F32))],
    };
    let decl = RecordDecl {
        fields: vec![field("records", FieldKind::StructArray(inner, 2))],
    };
    let table = LayoutTable {
        entries: vec![entry(
            "records",
            LayoutInfo::StructArrayField(vec![LayoutTable {
                entries: vec![entry("x", LayoutInfo::PrimitiveField(0))],
            }]),
        )],
    };
    assert!(matches!(decl.load_layout(&table), Err(CompileError::LengthMismatch)));
}

#[test]
fn array_bounds_fault() {
    let decl = RecordDecl {
        fields: vec![field("array", FieldKind::PrimitiveArray(PrimitiveKind::U32, 8))],
    };
    let table = LayoutTable {
        entries: vec![entry("array", LayoutInfo::ArrayField(0, 4))],
    };
    let layout = decl.load_layout(&table).unwrap();
    let acc = layout.accessor();
    let array = arr(&acc, "array");
    let mut bytes = vec![0u8; 32];

    // Index N-1 never faults; index N always does.
    assert!(array.read(&bytes, 7, 0).is_ok());
    assert_eq!(array.read(&bytes, 8, 0), Err(AccessError::IndexOutOfRange));
    assert!(array.write(&mut bytes, 7, 0, 1).is_ok());
    assert_eq!(array.write(&mut bytes, 8, 0, 1), Err(AccessError::IndexOutOfRange));

    // A faulting write leaves the buffer untouched.
    let before = bytes.clone();
    let _ = array.write(&mut bytes, 8, 0, 0xFFFF_FFFF);
    assert_eq!(bytes, before);
}

#[test]
fn matrix_bounds_fault() {
    let decl = RecordDecl {
        fields: vec![field("matrix", FieldKind::Matrix(MatrixKind::Matrix4))],
    };
    let table = LayoutTable {
        entries: vec![entry("matrix", LayoutInfo::ArrayField(0, 16))],
    };
    let layout = decl.load_layout(&table).unwrap();
    let acc = layout.accessor();
    let matrix = mat(&acc, "matrix");
    let mut bytes = vec![0u8; 64];

    assert!(matrix.read(&bytes, 3, 3).is_ok());
    // Fault in the outer (column) index.
    assert_eq!(matrix.write(&mut bytes, 4, 0, 1), Err(AccessError::IndexOutOfRange));
    // Fault in the nested (row) index.
    assert_eq!(matrix.write(&mut bytes, 0, 4, 1), Err(AccessError::IndexOutOfRange));
}

#[test]
fn lane_bounds_fault() {
    let decl = RecordDecl {
        fields: vec![field("v", FieldKind::Primitive(PrimitiveKind::Vec3))],
    };
    let table = LayoutTable {
        entries: vec![entry("v", LayoutInfo::PrimitiveField(0))],
    };
    let layout = decl.load_layout(&table).unwrap();
    let acc = layout.accessor();
    let bytes = vec![0u8; 12];
    assert!(prim(&acc, "v").read(&bytes, 2).is_ok());
    assert_eq!(prim(&acc, "v").read(&bytes, 3), Err(AccessError::IndexOutOfRange));
}

#[test]
fn idempotent_compile() {
    let l1: RecordLayout = sample_decl().load_layout(&sample_table()).unwrap();
    let l2: RecordLayout = sample_decl().load_layout(&sample_table()).unwrap();

    let s1 = get_field_spans(&l1);
    let s2 = get_field_spans(&l2);
    assert_eq!(s1, s2);

    let mut bytes = vec![0u8; SAMPLE_SIZE];
    for (i, b) in bytes.iter_mut().enumerate() {
        *b = (i % 251) as u8;
    }
    let a1 = l1.accessor();
    let a2 = l2.accessor();
    assert_eq!(
        prim(&a1, "scalar").read(&bytes, 0).unwrap(),
        prim(&a2, "scalar").read(&bytes, 0).unwrap()
    );
    for i in 0..8 {
        assert_eq!(
            arr(&a1, "array").read(&bytes, i, 0).unwrap(),
            arr(&a2, "array").read(&bytes, i, 0).unwrap()
        );
    }
    for c in 0..3 {
        for r in 0..2 {
            assert_eq!(
                mat(&a1, "matrix").read(&bytes, c, r).unwrap(),
                mat(&a2, "matrix").read(&bytes, c, r).unwrap()
            );
        }
    }
}

#[test]
fn interleaved_matrix_array_spans() {
    // Two 2-column x 3-row matrices, interleaved: the array stride (12) is
    // smaller than the column stride (24), so element 1's first column sits
    // between element 0's two columns.
    let decl = RecordDecl {
        fields: vec![field("array", FieldKind::MatrixArray(MatrixKind::Matrix2x3, 2))],
    };
    let table = LayoutTable {
        entries: vec![entry("array", LayoutInfo::MatrixArrayField(0, 12, 24))],
    };
    let layout = decl.load_layout(&table).unwrap();
    let spans = get_field_spans(&layout);
    let got: Vec<(u64, u64)> = spans.iter().map(|s| (s.offset, s.length)).collect();
    assert_eq!(got, vec![(0, 12), (24, 12), (12, 12), (36, 12)]);

    // Element 1, column 0 reads the floats at byte 12, not byte 36.
    let acc = layout.accessor();
    let matrices = match acc.field("array").unwrap() {
        FieldAccessor::MatrixArray(ms) => ms,
        _ => panic!("kind"),
    };
    assert_eq!(matrices[0].offset, 0);
    assert_eq!(matrices[1].offset, 12);
}

#[test]
fn span_coverage_exact() {
    let compound_table = LayoutTable {
        entries: vec![
            entry("one", LayoutInfo::PrimitiveField(40)),
            entry("four", LayoutInfo::PrimitiveField(44)),
            entry("matrix", LayoutInfo::ArrayField(60, 16)),
        ],
    };
    let table = LayoutTable {
        entries: vec![
            entry("three", LayoutInfo::PrimitiveField(0)),
            entry("one", LayoutInfo::PrimitiveField(12)),
            entry("four", LayoutInfo::PrimitiveField(16)),
            entry("two", LayoutInfo::PrimitiveField(32)),
            entry("compound", LayoutInfo::StructField(compound_table)),
        ],
    };
    let decl = RecordDecl {
        fields: vec![
            field("three", FieldKind::Primitive(PrimitiveKind::Vec3)),
            field("one", FieldKind::Primitive(PrimitiveKind::F32)),
            field("four", FieldKind::Primitive(PrimitiveKind::Vec4)),
            field("two", FieldKind::Primitive(PrimitiveKind::Vec2)),
            field(
                "compound",
                FieldKind::Struct(RecordDecl {
                    fields: vec![
                        field("one", FieldKind::Primitive(PrimitiveKind::F32)),
                        field("four", FieldKind::Primitive(PrimitiveKind::Vec4)),
                        field("matrix", FieldKind::Matrix(MatrixKind::Matrix4)),
                    ],
                }),
            ),
        ],
    };
    let layout = decl.load_layout(&table).unwrap();
    let spans = get_field_spans(&layout);
    let got: Vec<(u64, u64)> = spans.iter().map(|s| (s.offset, s.length)).collect();
    assert_eq!(
        got,
        vec![
            (0, 12),
            (12, 4),
            (16, 16),
            (32, 8),
            (40, 4),
            (44, 16),
            (60, 16),
            (76, 16),
            (92, 16),
            (108, 16),
        ]
    );
    assert_eq!(spans.iter().map(|s| s.offset).min().unwrap(), 0);
    assert_eq!(spans.iter().map(|s| s.offset + s.length).max().unwrap(), 124);
}

#[test]
fn duplicate_names_first_wins() {
    let table = LayoutTable {
        entries: vec![
            entry("x", LayoutInfo::PrimitiveField(0)),
            entry("x", LayoutInfo::PrimitiveField(8)),
        ],
    };
    let found = table.get_field_layout("x").unwrap();
    assert!(matches!(found, LayoutInfo::PrimitiveField(0)));
}

#[test]
fn non_record_descriptor_never_resolves() {
    let info = LayoutInfo::ArrayField(0, 4);
    assert!(info.get_field_layout("anything").is_none());

    let nested = LayoutInfo::StructField(LayoutTable {
        entries: vec![entry("inner", LayoutInfo::PrimitiveField(4))],
    });
    assert!(nested.get_field_layout("inner").is_some());
    assert!(nested.get_field_layout("other").is_none());
}

#[test]
fn empty_record() {
    let decl = RecordDecl { fields: vec![] };
    let table = LayoutTable { entries: vec![] };
    let layout = decl.load_layout(&table).unwrap();
    assert_eq!(get_field_spans(&layout).len(), 0);
    let acc = layout.accessor();
    assert!(acc.field("anything").is_none());
}

#[test]
fn zero_length_array() {
    let decl = RecordDecl {
        fields: vec![field("array", FieldKind::PrimitiveArray(PrimitiveKind::U32, 0))],
    };
    let table = LayoutTable {
        entries: vec![entry("array", LayoutInfo::ArrayField(0, 4))],
    };
    let layout = decl.load_layout(&table).unwrap();
    assert_eq!(get_field_spans(&layout).len(), 0);
    let acc = layout.accessor();
    let bytes = vec![0u8; 16];
    assert_eq!(arr(&acc, "array").read(&bytes, 0, 0), Err(AccessError::IndexOutOfRange));
}

#[test]
fn largest_offset() {
    let decl = RecordDecl {
        fields: vec![field("far", FieldKind::Primitive(PrimitiveKind::U32))],
    };
    let table = LayoutTable {
        entries: vec![entry("far", LayoutInfo::PrimitiveField(65535))],
    };
    let layout = decl.load_layout(&table).unwrap();
    let acc = layout.accessor();
    let mut bytes = vec![0u8; 65539];
    prim(&acc, "far").write(&mut bytes, 0, 0x0102_0304).unwrap();
    assert_eq!(prim(&acc, "far").read(&bytes, 0).unwrap(), 0x0102_0304);
    // Little-endian storage, byte for byte.
    assert_eq!(&bytes[65535..], &[0x04, 0x03, 0x02, 0x01]);
}

#[test]
fn float_bit_patterns_survive() {
    let decl = RecordDecl {
        fields: vec![field("f", FieldKind::Primitive(PrimitiveKind::F32))],
    };
    let table = LayoutTable {
        entries: vec![entry("f", LayoutInfo::PrimitiveField(0))],
    };
    let layout = decl.load_layout(&table).unwrap();
    let acc = layout.accessor();
    let mut bytes = vec![0u8; 4];
    for v in [0.0f32, -0.0, 1.5, -1.5, f32::INFINITY, f32::NEG_INFINITY, f32::NAN, f32::MIN_POSITIVE] {
        prim(&acc, "f").write(&mut bytes, 0, v.to_bits()).unwrap();
        assert_eq!(prim(&acc, "f").read(&bytes, 0).unwrap(), v.to_bits());
    }
}

#[test]
fn matrix_spans_follow_column_count() {
    // A non-square matrix yields one span per column, each covering one
    // column of rows: three columns of two rows here.
    let decl = RecordDecl {
        fields: vec![field("m", FieldKind::Matrix(MatrixKind::Matrix3x2))],
    };
    let table = LayoutTable {
        entries: vec![entry("m", LayoutInfo::ArrayField(0, 8))],
    };
    let layout = decl.load_layout(&table).unwrap();
    let spans = get_field_spans(&layout);
    let got: Vec<(u64, u64)> = spans.iter().map(|s| (s.offset, s.length)).collect();
    assert_eq!(got, vec![(0, 8), (8, 8), (16, 8)]);
}
