use posh::codegen::{generate, GenError, ProgramDef, VertexInputRate, VsOutputs};
use posh::expr::{Builtin, Graph};
use posh::interface::ResourceKind;
use posh::schema::{FieldDef, Registry, ResourceFieldDef, ResourceFieldTy};
use posh::ty::{ScalarTy, Ty};

struct Fixture {
    reg: Registry,
    vertex_iface: usize,
    resource_iface: usize,
    attachment_iface: usize,
}

fn fixture() -> Fixture {
    let mut reg = Registry::new();
    let vertex_iface = reg
        .register_struct(
            "V".to_string(),
            vec![FieldDef { name: "pos".to_string(), ty: Ty::Vec4(ScalarTy::F32) }],
        )
        .unwrap();
    let attachment_iface = reg
        .register_struct(
            "A".to_string(),
            vec![FieldDef { name: "color".to_string(), ty: Ty::Vec4(ScalarTy::F32) }],
        )
        .unwrap();
    let resource_iface = reg
        .register_resource_interface(
            "R".to_string(),
            vec![ResourceFieldDef {
                name: "tex".to_string(),
                ty: ResourceFieldTy::Sampler2d(ScalarTy::F32),
            }],
        )
        .unwrap();
    Fixture { reg, vertex_iface, resource_iface, attachment_iface }
}

fn sample_program(fx: &Fixture) -> Result<ProgramDef, GenError> {
    let reg = &fx.reg;
    let mut vg = Graph::new();
    let pos = vg.input(reg, "pos".to_string(), Ty::Vec4(ScalarTy::F32)).unwrap();
    let vs_out = VsOutputs { clip_position: pos, interpolants: Vec::new() };

    let mut fg = Graph::new();
    let tex = fg.input(reg, "tex".to_string(), Ty::Sampler2d(ScalarTy::F32)).unwrap();
    let zero = fg.const_f32_bits(reg, 0);
    let coords = fg.call(reg, Builtin::MakeVec2, vec![zero, zero]).unwrap();
    let sampled = fg.call(reg, Builtin::Texture, vec![tex, coords]).unwrap();

    generate(
        reg,
        fx.vertex_iface,
        fx.resource_iface,
        fx.attachment_iface,
        &vg,
        &vs_out,
        &fg,
        &Vec::new(),
        &vec![sampled],
    )
}

#[test]
fn generated_source_is_exactly_as_specified() {
    let fx = fixture();
    let p = sample_program(&fx).unwrap();
    assert_eq!(
        p.vertex_source,
        "#version 330\n\
         in vec4 pos;\n\
         uniform sampler2D tex;\n\
         void main() {\n\
         \x20   gl_Position = pos;\n\
         }\n"
    );
    assert_eq!(
        p.fragment_source,
        "#version 330\n\
         uniform sampler2D tex;\n\
         out vec4 color;\n\
         void main() {\n\
         \x20   float n1 = uintBitsToFloat(0u);\n\
         \x20   vec2 n2 = vec2(n1, n1);\n\
         \x20   vec4 n3 = texture(tex, n2);\n\
         \x20   color = n3;\n\
         }\n"
    );
}

#[test]
fn binding_tables_list_each_leaf_in_order() {
    let fx = fixture();
    let p = sample_program(&fx).unwrap();
    assert_eq!(p.vertex_attributes.len(), 1);
    assert_eq!(p.vertex_attributes[0].path, "pos");
    assert_eq!(p.vertex_attributes[0].ty, Ty::Vec4(ScalarTy::F32));
    assert_eq!(p.vertex_attributes[0].input_rate, VertexInputRate::Vertex);
    assert_eq!(p.resources.len(), 1);
    assert_eq!(p.resources[0].path, "tex");
    assert_eq!(p.resources[0].kind, ResourceKind::Sampler2d(ScalarTy::F32));
    assert_eq!(p.attachments.len(), 1);
    assert_eq!(p.attachments[0].path, "color");
    assert_eq!(p.attachments[0].ty, Ty::Vec4(ScalarTy::F32));
}

#[test]
fn generation_is_deterministic() {
    let fx = fixture();
    let p1 = sample_program(&fx).unwrap();
    let p2 = sample_program(&fx).unwrap();
    assert_eq!(p1.vertex_source, p2.vertex_source);
    assert_eq!(p1.fragment_source, p2.fragment_source);
    assert_eq!(p1.vertex_attributes.len(), p2.vertex_attributes.len());
    for (a, b) in p1.vertex_attributes.iter().zip(p2.vertex_attributes.iter()) {
        assert_eq!(a.path, b.path);
        assert_eq!(a.ty, b.ty);
        assert_eq!(a.input_rate, b.input_rate);
    }
    for (a, b) in p1.resources.iter().zip(p2.resources.iter()) {
        assert_eq!(a.path, b.path);
        assert_eq!(a.kind, b.kind);
    }
    for (a, b) in p1.attachments.iter().zip(p2.attachments.iter()) {
        assert_eq!(a.path, b.path);
        assert_eq!(a.ty, b.ty);
    }
}

#[test]
fn interpolant_arity_mismatch_is_reported() {
    let fx = fixture();
    let reg = &fx.reg;
    let mut vg = Graph::new();
    let pos = vg.input(reg, "pos".to_string(), Ty::Vec4(ScalarTy::F32)).unwrap();
    let i0 = vg.const_f32_bits(reg, 0);
    let i1 = vg.const_f32_bits(reg, 0x3f80_0000);
    let vs_out = VsOutputs { clip_position: pos, interpolants: vec![i0, i1] };

    let mut fg = Graph::new();
    let only = fg.input(reg, "light".to_string(), Ty::Scalar(ScalarTy::F32)).unwrap();

    let r = generate(
        reg,
        fx.vertex_iface,
        fx.resource_iface,
        fx.attachment_iface,
        &vg,
        &vs_out,
        &fg,
        &vec![only],
        &Vec::new(),
    );
    assert!(matches!(
        r,
        Err(GenError::InterpolantArityMismatch { vertex: 2, fragment: 1 })
    ));
}

#[test]
fn undeclared_input_path_is_reported() {
    let fx = fixture();
    let reg = &fx.reg;
    let mut vg = Graph::new();
    let pos = vg.input(reg, "somewhere".to_string(), Ty::Vec4(ScalarTy::F32)).unwrap();
    let vs_out = VsOutputs { clip_position: pos, interpolants: Vec::new() };

    let mut fg = Graph::new();
    let tex = fg.input(reg, "tex".to_string(), Ty::Sampler2d(ScalarTy::F32)).unwrap();
    let zero = fg.const_f32_bits(reg, 0);
    let coords = fg.call(reg, Builtin::MakeVec2, vec![zero, zero]).unwrap();
    let sampled = fg.call(reg, Builtin::Texture, vec![tex, coords]).unwrap();

    let r = generate(
        reg,
        fx.vertex_iface,
        fx.resource_iface,
        fx.attachment_iface,
        &vg,
        &vs_out,
        &fg,
        &Vec::new(),
        &vec![sampled],
    );
    match r {
        Err(GenError::UnknownField { path }) => assert_eq!(path, "somewhere"),
        Err(other) => panic!("expected an unknown-field fault, got {:?}", other),
        Ok(_) => panic!("expected an unknown-field fault, got a program"),
    }
}

#[test]
fn bad_clip_position_type_is_reported() {
    let fx = fixture();
    let reg = &fx.reg;
    let mut vg = Graph::new();
    let bad = vg.const_u32(reg, 0);
    let vs_out = VsOutputs { clip_position: bad, interpolants: Vec::new() };
    let fg = Graph::new();
    let r = generate(
        reg,
        fx.vertex_iface,
        fx.resource_iface,
        fx.attachment_iface,
        &vg,
        &vs_out,
        &fg,
        &Vec::new(),
        &Vec::new(),
    );
    assert!(matches!(
        r,
        Err(GenError::BadClipPosition { ty: Ty::Scalar(ScalarTy::U32) })
    ));
}

#[test]
fn discard_branch_lowers_to_guarded_discard() {
    let fx = fixture();
    let reg = &fx.reg;
    let mut vg = Graph::new();
    let pos = vg.input(reg, "pos".to_string(), Ty::Vec4(ScalarTy::F32)).unwrap();
    let vs_out = VsOutputs { clip_position: pos, interpolants: Vec::new() };

    let mut fg = Graph::new();
    let tex = fg.input(reg, "tex".to_string(), Ty::Sampler2d(ScalarTy::F32)).unwrap();
    let zero = fg.const_f32_bits(reg, 0);
    let coords = fg.call(reg, Builtin::MakeVec2, vec![zero, zero]).unwrap();
    let sampled = fg.call(reg, Builtin::Texture, vec![tex, coords]).unwrap();
    let cond = fg.const_bool(reg, true);
    let dropped = fg.discard(reg, Ty::Vec4(ScalarTy::F32)).unwrap();
    let chosen = fg.branch(reg, cond, dropped, sampled).unwrap();

    let p = generate(
        reg,
        fx.vertex_iface,
        fx.resource_iface,
        fx.attachment_iface,
        &vg,
        &vs_out,
        &fg,
        &Vec::new(),
        &vec![chosen],
    )
    .unwrap();
    assert!(p.fragment_source.contains("    if (n4) discard;\n"));
    assert!(p.fragment_source.contains("    vec4 n6 = n3;\n"));
}

#[test]
fn interpolants_pair_by_position() {
    let fx = fixture();
    let reg = &fx.reg;
    let mut vg = Graph::new();
    let pos = vg.input(reg, "pos".to_string(), Ty::Vec4(ScalarTy::F32)).unwrap();
    let brightness = vg.field(reg, pos, 0).unwrap();
    let vs_out = VsOutputs { clip_position: pos, interpolants: vec![brightness] };

    let mut fg = Graph::new();
    let light = fg.input(reg, "light".to_string(), Ty::Scalar(ScalarTy::F32)).unwrap();
    let tex = fg.input(reg, "tex".to_string(), Ty::Sampler2d(ScalarTy::F32)).unwrap();
    let coords = fg.call(reg, Builtin::MakeVec2, vec![light, light]).unwrap();
    let sampled = fg.call(reg, Builtin::Texture, vec![tex, coords]).unwrap();

    let p = generate(
        reg,
        fx.vertex_iface,
        fx.resource_iface,
        fx.attachment_iface,
        &vg,
        &vs_out,
        &fg,
        &vec![light],
        &vec![sampled],
    )
    .unwrap();
    assert!(p.vertex_source.contains("out float v_interp_0;\n"));
    assert!(p.vertex_source.contains("    v_interp_0 = n1;\n"));
    assert!(p.fragment_source.contains("in float v_interp_0;\n"));
    assert!(p.fragment_source.contains("vec2(v_interp_0, v_interp_0)"));
}

#[test]
fn negative_integer_literals_render_with_sign() {
    let fx = fixture();
    let reg = &fx.reg;
    let mut vg = Graph::new();
    let pos = vg.input(reg, "pos".to_string(), Ty::Vec4(ScalarTy::F32)).unwrap();
    let _minus_five = vg.const_i32(reg, -5);
    let vs_out = VsOutputs { clip_position: pos, interpolants: Vec::new() };

    let mut fg = Graph::new();
    let tex = fg.input(reg, "tex".to_string(), Ty::Sampler2d(ScalarTy::F32)).unwrap();
    let zero = fg.const_f32_bits(reg, 0);
    let coords = fg.call(reg, Builtin::MakeVec2, vec![zero, zero]).unwrap();
    let sampled = fg.call(reg, Builtin::Texture, vec![tex, coords]).unwrap();

    let p = generate(
        reg,
        fx.vertex_iface,
        fx.resource_iface,
        fx.attachment_iface,
        &vg,
        &vs_out,
        &fg,
        &Vec::new(),
        &vec![sampled],
    )
    .unwrap();
    assert!(p.vertex_source.contains("    int n1 = -5;\n"));
}

#[test]
fn uniform_block_declares_its_aggregate_before_use() {
    let mut reg = Registry::new();
    let inner = reg
        .register_struct(
            "Inner".to_string(),
            vec![FieldDef { name: "x".to_string(), ty: Ty::Scalar(ScalarTy::F32) }],
        )
        .unwrap();
    let state = reg
        .register_struct(
            "State".to_string(),
            vec![
                FieldDef { name: "i".to_string(), ty: Ty::Struct(inner) },
                FieldDef { name: "flip".to_string(), ty: Ty::Scalar(ScalarTy::U32) },
            ],
        )
        .unwrap();
    let vertex_iface = reg
        .register_struct(
            "V2".to_string(),
            vec![FieldDef { name: "pos".to_string(), ty: Ty::Vec4(ScalarTy::F32) }],
        )
        .unwrap();
    let attachment_iface = reg
        .register_struct(
            "A2".to_string(),
            vec![FieldDef { name: "color".to_string(), ty: Ty::Vec4(ScalarTy::F32) }],
        )
        .unwrap();
    let resource_iface = reg
        .register_resource_interface(
            "U2".to_string(),
            vec![ResourceFieldDef {
                name: "state".to_string(),
                ty: ResourceFieldTy::UniformBlock(Ty::Struct(state)),
            }],
        )
        .unwrap();

    let mut vg = Graph::new();
    let pos = vg.input(&reg, "pos".to_string(), Ty::Vec4(ScalarTy::F32)).unwrap();
    let vs_out = VsOutputs { clip_position: pos, interpolants: Vec::new() };

    let mut fg = Graph::new();
    let block = fg.input(&reg, "state".to_string(), Ty::Struct(state)).unwrap();
    let inner_val = fg.field(&reg, block, 0).unwrap();
    let x = fg.field(&reg, inner_val, 0).unwrap();
    let color = fg.call(&reg, Builtin::MakeVec4, vec![x, x, x, x]).unwrap();

    let p = generate(
        &reg,
        vertex_iface,
        resource_iface,
        attachment_iface,
        &vg,
        &vs_out,
        &fg,
        &Vec::new(),
        &vec![color],
    )
    .unwrap();
    // Dependencies come before dependents, each declared exactly once.
    let decls = "struct Inner {\n    float x;\n};\nstruct State {\n    Inner i;\n    uint flip;\n};\n";
    assert!(p.vertex_source.contains(decls));
    assert!(p.fragment_source.contains(decls));
    assert_eq!(p.fragment_source.matches("struct State").count(), 1);
    assert!(p.fragment_source.contains("uniform State state;\n"));
    assert!(p.fragment_source.contains("    Inner n1 = state.i;\n"));
    assert!(p.fragment_source.contains("    float n2 = n1.x;\n"));
    assert!(p.fragment_source.contains("    vec4 n3 = vec4(n2, n2, n2, n2);\n"));
    assert_eq!(p.resources[0].kind, ResourceKind::UniformBlock { ty: Ty::Struct(state), byte_size: 8 });
}
