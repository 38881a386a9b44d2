use posh::interface::{flatten_into, flatten_resources_into, LeafBinding, ResourceBinding, ResourceKind};
use posh::pod::{decode_scalars, encode_scalars, HostScalar};
use posh::schema::{FieldDef, Registry, ResourceFieldDef, ResourceFieldTy, SchemaError};
use posh::ty::{ScalarTy, Ty};

fn field(name: &str, ty: Ty) -> FieldDef {
    FieldDef { name: name.to_string(), ty }
}

#[test]
fn register_struct_assigns_indices() {
    let mut reg = Registry::new();
    let a = reg
        .register_struct("Inner".to_string(), vec![field("x", Ty::Scalar(ScalarTy::F32))])
        .unwrap();
    let b = reg
        .register_struct("Outer".to_string(), vec![field("i", Ty::Struct(a))])
        .unwrap();
    assert_eq!(a, 0);
    assert_eq!(b, 1);
    assert_eq!(reg.struct_count(), 2);
}

#[test]
fn register_struct_rejects_bad_name() {
    let mut reg = Registry::new();
    let r = reg.register_struct("1abc".to_string(), vec![field("x", Ty::Scalar(ScalarTy::F32))]);
    assert_eq!(r, Err(SchemaError::BadName));
}

#[test]
fn register_struct_rejects_duplicate_struct_name() {
    let mut reg = Registry::new();
    reg.register_struct("S".to_string(), vec![field("x", Ty::Scalar(ScalarTy::F32))])
        .unwrap();
    let r = reg.register_struct("S".to_string(), vec![field("y", Ty::Scalar(ScalarTy::F32))]);
    assert_eq!(r, Err(SchemaError::DuplicateName));
}

#[test]
fn register_struct_rejects_duplicate_field() {
    let mut reg = Registry::new();
    let r = reg.register_struct(
        "S".to_string(),
        vec![field("x", Ty::Scalar(ScalarTy::F32)), field("x", Ty::Scalar(ScalarTy::U32))],
    );
    assert_eq!(r, Err(SchemaError::DuplicateFieldName(1)));
}

#[test]
fn register_struct_rejects_sampler_field() {
    let mut reg = Registry::new();
    let r = reg.register_struct("S".to_string(), vec![field("t", Ty::Sampler2d(ScalarTy::F32))]);
    assert_eq!(r, Err(SchemaError::BadFieldType(0)));
}

#[test]
fn register_struct_rejects_forward_reference() {
    let mut reg = Registry::new();
    let r = reg.register_struct("S".to_string(), vec![field("n", Ty::Struct(3))]);
    assert_eq!(r, Err(SchemaError::BadFieldType(0)));
}

#[test]
fn leaf_count_counts_scalar_components() {
    let mut reg = Registry::new();
    let inner = reg
        .register_struct(
            "Inner".to_string(),
            vec![field("x", Ty::Vec3(ScalarTy::F32)), field("y", Ty::Scalar(ScalarTy::U32))],
        )
        .unwrap();
    let outer = reg
        .register_struct(
            "Outer".to_string(),
            vec![field("a", Ty::Struct(inner)), field("b", Ty::Vec2(ScalarTy::I32))],
        )
        .unwrap();
    assert_eq!(reg.leaf_count(Ty::Struct(inner)), 4);
    assert_eq!(reg.leaf_count(Ty::Struct(outer)), 6);
}

#[test]
fn flattening_visits_each_leaf_once_in_declared_order() {
    let mut reg = Registry::new();
    let inner = reg
        .register_struct(
            "Inner".to_string(),
            vec![field("x", Ty::Scalar(ScalarTy::F32)), field("y", Ty::Scalar(ScalarTy::F32))],
        )
        .unwrap();
    let outer = reg
        .register_struct(
            "Outer".to_string(),
            vec![field("a", Ty::Struct(inner)), field("b", Ty::Scalar(ScalarTy::U32))],
        )
        .unwrap();
    let mut out: Vec<LeafBinding> = Vec::new();
    flatten_into(&reg, Ty::Struct(outer), "", &mut out);
    let got: Vec<(String, Ty)> = out.into_iter().map(|b| (b.path, b.ty)).collect();
    assert_eq!(
        got,
        vec![
            ("a.x".to_string(), Ty::Scalar(ScalarTy::F32)),
            ("a.y".to_string(), Ty::Scalar(ScalarTy::F32)),
            ("b".to_string(), Ty::Scalar(ScalarTy::U32)),
        ]
    );
}

#[test]
fn uniform_block_scenario_state_a_b() {
    let mut reg = Registry::new();
    let state = reg
        .register_struct(
            "State".to_string(),
            vec![field("a", Ty::Scalar(ScalarTy::F32)), field("b", Ty::Scalar(ScalarTy::U32))],
        )
        .unwrap();
    let iface = reg
        .register_resource_interface(
            "Uniforms".to_string(),
            vec![ResourceFieldDef {
                name: "state".to_string(),
                ty: ResourceFieldTy::UniformBlock(Ty::Struct(state)),
            }],
        )
        .unwrap();
    let mut out: Vec<ResourceBinding> = Vec::new();
    flatten_resources_into(&reg, iface, "", &mut out);
    assert_eq!(out.len(), 1);
    assert_eq!(out[0].path, "state");
    assert_eq!(
        out[0].kind,
        ResourceKind::UniformBlock { ty: Ty::Struct(state), byte_size: 8 }
    );
    let mut leaves: Vec<LeafBinding> = Vec::new();
    flatten_into(&reg, Ty::Struct(state), "state", &mut leaves);
    let paths: Vec<String> = leaves.into_iter().map(|b| b.path).collect();
    assert_eq!(paths, vec!["state.a".to_string(), "state.b".to_string()]);
}

#[test]
fn nested_resource_interface_paths() {
    let mut reg = Registry::new();
    let inner = reg
        .register_resource_interface(
            "Scene".to_string(),
            vec![ResourceFieldDef {
                name: "tex".to_string(),
                ty: ResourceFieldTy::Sampler2d(ScalarTy::F32),
            }],
        )
        .unwrap();
    let outer = reg
        .register_resource_interface(
            "All".to_string(),
            vec![
                ResourceFieldDef { name: "scene".to_string(), ty: ResourceFieldTy::Nested(inner) },
                ResourceFieldDef {
                    name: "shadow".to_string(),
                    ty: ResourceFieldTy::Sampler2d(ScalarTy::F32),
                },
            ],
        )
        .unwrap();
    let mut out: Vec<ResourceBinding> = Vec::new();
    flatten_resources_into(&reg, outer, "", &mut out);
    let paths: Vec<String> = out.into_iter().map(|b| b.path).collect();
    assert_eq!(paths, vec!["scene.tex".to_string(), "shadow".to_string()]);
}

#[test]
fn pod_bytes_are_packed_little_endian() {
    let vals = vec![
        HostScalar::Bool(true),
        HostScalar::F32Bits(0x3f80_0000),
        HostScalar::I32(-2),
        HostScalar::U32(7),
    ];
    let bytes = encode_scalars(&vals);
    assert_eq!(
        bytes,
        vec![
            1, 0, 0, 0, //
            0x00, 0x00, 0x80, 0x3f, //
            0xfe, 0xff, 0xff, 0xff, //
            7, 0, 0, 0,
        ]
    );
}

#[test]
fn pod_round_trip_restores_field_values() {
    let vals = vec![
        HostScalar::Bool(false),
        HostScalar::F32Bits(0xc000_0000),
        HostScalar::I32(i32::MIN),
        HostScalar::U32(u32::MAX),
    ];
    let kinds = vec![ScalarTy::Bool, ScalarTy::F32, ScalarTy::I32, ScalarTy::U32];
    let bytes = encode_scalars(&vals);
    let back = decode_scalars(&kinds, &bytes);
    assert_eq!(back, Some(vals));
}

#[test]
fn pod_decode_rejects_wrong_length() {
    let kinds = vec![ScalarTy::U32, ScalarTy::U32];
    let bytes = vec![0u8; 7];
    assert_eq!(decode_scalars(&kinds, &bytes), None);
}

#[test]
fn register_struct_needs_at_least_one_field() {
    let mut reg = Registry::new();
    let r = reg.register_struct("Empty".to_string(), Vec::new());
    assert_eq!(r, Err(SchemaError::NoFields));
}

#[test]
fn register_struct_rejects_dotted_field_name() {
    let mut reg = Registry::new();
    let r = reg.register_struct("S".to_string(), vec![field("a.b", Ty::Scalar(ScalarTy::F32))]);
    assert_eq!(r, Err(SchemaError::BadFieldName(0)));
}

#[test]
fn value_to_pod_matches_block_byte_size() {
    let mut reg = Registry::new();
    let state = reg
        .register_struct(
            "State".to_string(),
            vec![field("a", Ty::Scalar(ScalarTy::F32)), field("b", Ty::Scalar(ScalarTy::U32))],
        )
        .unwrap();
    let vals = vec![HostScalar::F32Bits(0x3f80_0000), HostScalar::U32(2)];
    let bytes = posh::pod::value_to_pod(&reg, Ty::Struct(state), &vals);
    assert_eq!(bytes.len(), 8);
    assert_eq!(bytes, vec![0x00, 0x00, 0x80, 0x3f, 2, 0, 0, 0]);
}

#[test]
fn decimal_rendering_is_exact() {
    assert_eq!(posh::text::fmt_u64(0), "0");
    assert_eq!(posh::text::fmt_u64(90210), "90210");
    assert_eq!(posh::text::fmt_i32(-2147483648), "-2147483648");
    assert_eq!(posh::text::fmt_i32(7), "7");
}

#[test]
fn dotted_paths_sanitize_to_identifiers() {
    assert_eq!(posh::text::ident_of("state.a"), "state_a");
    assert_eq!(posh::text::ident_of("pos"), "pos");
}

#[test]
fn join_path_elides_empty_sides() {
    assert_eq!(posh::interface::join_path("", "state"), "state");
    assert_eq!(posh::interface::join_path("state", "a"), "state.a");
}

#[test]
fn block_layout_assigns_packed_offsets() {
    let mut reg = Registry::new();
    let state = reg
        .register_struct(
            "State".to_string(),
            vec![
                field("a", Ty::Scalar(ScalarTy::F32)),
                field("m", Ty::Vec3(ScalarTy::F32)),
                field("b", Ty::Scalar(ScalarTy::U32)),
            ],
        )
        .unwrap();
    let layout = posh::interface::block_layout(&reg, Ty::Struct(state), "state");
    let got: Vec<(String, Ty, u64)> =
        layout.into_iter().map(|f| (f.path, f.ty, f.offset)).collect();
    assert_eq!(
        got,
        vec![
            ("state.a".to_string(), Ty::Scalar(ScalarTy::F32), 0),
            ("state.m".to_string(), Ty::Vec3(ScalarTy::F32), 4),
            ("state.b".to_string(), Ty::Scalar(ScalarTy::U32), 16),
        ]
    );
    assert_eq!(reg.leaf_count(Ty::Struct(state)), 5);
}
