use dynamiclayout::accessor::{FieldAccessor, MatrixAccessor, PrimitiveAccessor, RecordAccessor};
use dynamiclayout::compile::DynamicLayout;
use dynamiclayout::decl::{FieldKind, RecordDecl};
use dynamiclayout::matrix_types::MatrixKind;
use dynamiclayout::primitive_types::PrimitiveKind;
use dynamiclayout::schema::{LayoutInfo, LayoutTable};
use dynamiclayout::vector_types::Vec4;

fn entry(name: &str, info: LayoutInfo) -> (String, LayoutInfo) {
    (name.to_string(), info)
}

fn field(name: &str, kind: FieldKind) -> (String, FieldKind) {
    (name.to_string(), kind)
}

fn put_f32(buf: &mut Vec<u8>, off: usize, v: f32) {
    buf[off..off + 4].copy_from_slice(&v.to_bits().to_le_bytes());
}

fn prim<'a>(acc: &'a RecordAccessor, name: &str) -> &'a PrimitiveAccessor {
    match acc.field(name).expect("field") {
        FieldAccessor::Primitive(p) => p,
        _ => panic!("not a primitive field"),
    }
}

fn mat<'a>(acc: &'a RecordAccessor, name: &str) -> &'a MatrixAccessor {
    match acc.field(name).expect("field") {
        FieldAccessor::Matrix(m) => m,
        _ => panic!("not a matrix field"),
    }
}

fn rec<'a>(acc: &'a RecordAccessor, name: &str) -> &'a RecordAccessor {
    match acc.field(name).expect("field") {
        FieldAccessor::Struct(r) => r,
        _ => panic!("not a record field"),
    }
}

fn read_f32(p: &PrimitiveAccessor, buf: &Vec<u8>, lane: usize) -> f32 {
    f32::from_bits(p.read(buf, lane).expect("lane in range"))
}

fn bar_decl() -> RecordDecl {
    RecordDecl {
        fields: vec![
            field("one", FieldKind::Primitive(PrimitiveKind::F32)),
            field("four", FieldKind::Primitive(PrimitiveKind::Vec4)),
            field("matrix", FieldKind::Matrix(MatrixKind::Matrix4)),
        ],
    }
}

fn foo_decl() -> RecordDecl {
    RecordDecl {
        fields: vec![
            field("three", FieldKind::Primitive(PrimitiveKind::Vec3)),
            field("one", FieldKind::Primitive(PrimitiveKind::F32)),
            field("four", FieldKind::Primitive(PrimitiveKind::Vec4)),
            field("two", FieldKind::Primitive(PrimitiveKind::Vec2)),
            field("compound", FieldKind::Struct(bar_decl())),
        ],
    }
}

fn foo_table() -> LayoutTable {
    LayoutTable {
        entries: vec![
            entry("three", LayoutInfo::PrimitiveField(0)),
            entry("one", LayoutInfo::PrimitiveField(12)),
            entry("four", LayoutInfo::PrimitiveField(16)),
            entry("two", LayoutInfo::PrimitiveField(32)),
            entry(
                "compound",
                LayoutInfo::StructField(LayoutTable {
                    entries: vec![
                        entry("one", LayoutInfo::PrimitiveField(40)),
                        entry("four", LayoutInfo::PrimitiveField(44)),
                        entry("matrix", LayoutInfo::ArrayField(60, 16)),
                    ],
                }),
            ),
        ],
    }
}

fn foo_bytes() -> Vec<u8> {
    const FOO_SIZE: usize = 124;
    let mut buf = vec![0u8; FOO_SIZE];
    for (i, v) in [
        1.0f32, 2.0, 3.0, 4.0, 5.0, 6.0, 7.0, 8.0, 9.0, 10.0, 11.0, 12.0, 13.0, 14.0, 15.0,
    ]
    .iter()
    .enumerate()
    {
        put_f32(&mut buf, 4 * i, *v);
    }
    for c in 0..4usize {
        for r in 0..4usize {
            put_f32(&mut buf, 60 + 16 * c + 4 * r, (101 + 4 * c + r) as f32);
        }
    }
    buf
}

#[test]
fn tests_one_to_one_mapping() {
    let layout = foo_decl().load_layout(&foo_table()).unwrap();
    let mut bytes = foo_bytes();

    const FOO_SIZE: usize = 124;
    assert_eq!(FOO_SIZE, bytes.len());

    let acc = layout.accessor();

    assert_eq!(read_f32(prim(&acc, "three"), &bytes, 0), 1.0);
    assert_eq!(read_f32(prim(&acc, "three"), &bytes, 1), 2.0);
    assert_eq!(read_f32(prim(&acc, "three"), &bytes, 2), 3.0);

    assert_eq!(read_f32(prim(&acc, "one"), &bytes, 0), 4.0);

    assert_eq!(read_f32(prim(&acc, "four"), &bytes, 0), 5.0);
    assert_eq!(read_f32(prim(&acc, "four"), &bytes, 1), 6.0);
    assert_eq!(read_f32(prim(&acc, "four"), &bytes, 2), 7.0);
    assert_eq!(read_f32(prim(&acc, "four"), &bytes, 3), 8.0);

    assert_eq!(read_f32(prim(&acc, "two"), &bytes, 0), 9.0);
    assert_eq!(read_f32(prim(&acc, "two"), &bytes, 1), 10.0);

    let compound = rec(&acc, "compound");
    assert_eq!(read_f32(prim(compound, "one"), &bytes, 0), 11.0);
    assert_eq!(read_f32(prim(compound, "four"), &bytes, 0), 12.0);
    assert_eq!(read_f32(prim(compound, "four"), &bytes, 1), 13.0);
    assert_eq!(read_f32(prim(compound, "four"), &bytes, 2), 14.0);
    assert_eq!(read_f32(prim(compound, "four"), &bytes, 3), 15.0);

    let matrix = mat(compound, "matrix");
    for c in 0..4usize {
        for r in 0..4usize {
            let expected = (101 + 4 * c + r) as f32;
            assert_eq!(f32::from_bits(matrix.read(&bytes, c, r).unwrap()), expected);
        }
    }

    prim(&acc, "three").write(&mut bytes, 1, 999.0f32.to_bits()).unwrap();
    assert_eq!(read_f32(prim(&acc, "three"), &bytes, 1), 999.0);
    prim(&acc, "two").write(&mut bytes, 0, 888.0f32.to_bits()).unwrap();
    assert_eq!(read_f32(prim(&acc, "two"), &bytes, 0), 888.0);
    prim(&acc, "one").write(&mut bytes, 0, 777.0f32.to_bits()).unwrap();
    assert_eq!(read_f32(prim(&acc, "one"), &bytes, 0), 777.0);
}

#[test]
fn tests_vector_indexing() {
    let vec = Vec4::new(
        1.0f32.to_bits(),
        2.0f32.to_bits(),
        3.0f32.to_bits(),
        4.0f32.to_bits(),
    );

    assert_eq!(f32::from_bits(vec.index(0)), 1.0);
    assert_eq!(f32::from_bits(vec.index(1)), 2.0);
    assert_eq!(f32::from_bits(vec.index(2)), 3.0);
    assert_eq!(f32::from_bits(vec.index(3)), 4.0);
}

fn matrix_layout() -> dynamiclayout::compile::RecordLayout {
    let decl = RecordDecl {
        fields: vec![field("matrix", FieldKind::Matrix(MatrixKind::Matrix4))],
    };
    let table = LayoutTable {
        entries: vec![entry("matrix", LayoutInfo::ArrayField(0, 16))],
    };
    decl.load_layout(&table).unwrap()
}

#[test]
fn tests_dynamic_matrix_indexing() {
    let layout = matrix_layout();
    let mut bytes = vec![0u8; 64];
    let acc = layout.accessor();
    let matrix = mat(&acc, "matrix");
    assert_eq!(f32::from_bits(matrix.read(&bytes, 0, 0).unwrap()), 0.0);
    assert_eq!(f32::from_bits(matrix.read(&bytes, 3, 3).unwrap()), 0.0);
    matrix.write(&mut bytes, 2, 2, 5.0f32.to_bits()).unwrap();
}
