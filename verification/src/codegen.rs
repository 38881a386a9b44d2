//! The stage pairer and code generator.
//!
//! Given a vertex-stage graph and a fragment-stage graph, each built over
//! interface-typed placeholder inputs, `generate` checks the schema-level
//! capabilities, matches vertex interpolant outputs to fragment
//! interpolant inputs by structural position, validates every input
//! reference against the flattened interfaces, and assembles an immutable
//! [`ProgramDef`]: both source texts plus the ordered binding tables.
//!
//! Emission order: one statement per node in arena index order, which is a
//! topological order, so every operand is named before use and a node with
//! several consumers is computed once and referenced thereafter. Each
//! source declares every distinct aggregate type reachable from its
//! uniform blocks or its nodes, in first-use order with dependencies
//! declared first, so no forward reference ever occurs. The whole artifact
//! is a pure function of its inputs: generating twice from identical
//! stages yields byte-identical source and identical binding tables.

use vstd::prelude::*;

use crate::expr::{node_wf, wf_graph, Builtin, BinOp, Graph, NodeV, OpV, UnOp};
use crate::interface::{
    leaf_tails, resource_tails, spec_flatten, spec_flatten_resources, LeafBinding, LeafBindingV,
    ResourceBinding, ResourceBindingV, ResourceKind,
};
use crate::schema::{field_ty_ref_ok, struct_refs_ok, ty_rank, Registry, ResourceIfaceDefV, StructDefV};
use crate::text::{sanitize, spec_dec, spec_dec_i32, spec_glsl_ty};
use crate::ty::{ScalarTy, Ty};

verus! {

/// How vertex attribute data advances.
#[derive(Clone, Copy, Debug, PartialEq, Eq, Structural)]
pub enum VertexInputRate {
    /// One attribute value per vertex.
    Vertex,
    /// One attribute value per instance.
    Instance,
}

/// One vertex attribute of the compiled program.
pub struct VertexAttributeDef {
    pub path: String,
    pub ty: Ty,
    pub input_rate: VertexInputRate,
}

/// Mathematical model of a vertex attribute.
#[verifier::ext_equal]
pub struct VertexAttributeDefV {
    pub path: Seq<char>,
    pub ty: Ty,
    pub input_rate: VertexInputRate,
}

impl View for VertexAttributeDef {
    type V = VertexAttributeDefV;

    open spec fn view(&self) -> VertexAttributeDefV {
        VertexAttributeDefV { path: self.path@, ty: self.ty, input_rate: self.input_rate }
    }
}

/// The compiled artifact: source texts and ordered binding tables.
/// Immutable once produced.
pub struct ProgramDef {
    pub vertex_source: String,
    pub fragment_source: String,
    pub vertex_attributes: Vec<VertexAttributeDef>,
    pub resources: Vec<ResourceBinding>,
    pub attachments: Vec<LeafBinding>,
}

/// Mathematical model of a compiled program.
#[verifier::ext_equal]
pub struct ProgramDefV {
    pub vertex_source: Seq<char>,
    pub fragment_source: Seq<char>,
    pub vertex_attributes: Seq<VertexAttributeDefV>,
    pub resources: Seq<ResourceBindingV>,
    pub attachments: Seq<LeafBindingV>,
}

impl View for ProgramDef {
    type V = ProgramDefV;

    open spec fn view(&self) -> ProgramDefV {
        ProgramDefV {
            vertex_source: self.vertex_source@,
            fragment_source: self.fragment_source@,
            vertex_attributes: self.vertex_attributes@.map_values(
                |a: VertexAttributeDef| a@,
            ),
            resources: self.resources@.map_values(|b: ResourceBinding| b@),
            attachments: self.attachments@.map_values(|b: LeafBinding| b@),
        }
    }
}

/// The vertex stage's outputs: the clip-position node and the interpolant
/// nodes handed to the fragment stage, in structural order.
pub struct VsOutputs {
    pub clip_position: usize,
    pub interpolants: Vec<usize>,
}

/// A fault that blocks [`ProgramDef`] construction.
#[derive(Debug, PartialEq, Eq)]
pub enum GenError {
    /// The clip position is not a four-component float vector.
    BadClipPosition { ty: Ty },
    /// The stages disagree on the number of interpolants.
    InterpolantArityMismatch { vertex: usize, fragment: usize },
    /// A declared fragment interpolant input is not an input node.
    NotAnInput { node: usize },
    /// An interpolant pair disagrees on its type at this position.
    InterpolantTypeMismatch { position: usize },
    /// An attachment leaf is not a four-component non-boolean vector.
    CapabilityMismatch { path: String, ty: Ty },
    /// The fragment stage writes the wrong number of attachments.
    AttachmentArityMismatch { expected: usize, got: usize },
    /// A fragment output disagrees with its attachment's type.
    AttachmentTypeMismatch { position: usize },
    /// An input node references a path no interface declares.
    UnknownField { path: String },
    /// An input node disagrees with its binding's type.
    InputTypeMismatch { path: String },
}

/// Mathematical model of a generation fault.
#[verifier::ext_equal]
pub enum GenErrorV {
    BadClipPosition { ty: Ty },
    InterpolantArityMismatch { vertex: usize, fragment: usize },
    NotAnInput { node: usize },
    InterpolantTypeMismatch { position: usize },
    CapabilityMismatch { path: Seq<char>, ty: Ty },
    AttachmentArityMismatch { expected: usize, got: usize },
    AttachmentTypeMismatch { position: usize },
    UnknownField { path: Seq<char> },
    InputTypeMismatch { path: Seq<char> },
}

impl View for GenError {
    type V = GenErrorV;

    open spec fn view(&self) -> GenErrorV {
        match self {
            GenError::BadClipPosition { ty } => GenErrorV::BadClipPosition { ty: *ty },
            GenError::InterpolantArityMismatch { vertex, fragment } => {
                GenErrorV::InterpolantArityMismatch { vertex: *vertex, fragment: *fragment }
            },
            GenError::NotAnInput { node } => GenErrorV::NotAnInput { node: *node },
            GenError::InterpolantTypeMismatch { position } => GenErrorV::InterpolantTypeMismatch {
                position: *position,
            },
            GenError::CapabilityMismatch { path, ty } => GenErrorV::CapabilityMismatch {
                path: path@,
                ty: *ty,
            },
            GenError::AttachmentArityMismatch { expected, got } => {
                GenErrorV::AttachmentArityMismatch { expected: *expected, got: *got }
            },
            GenError::AttachmentTypeMismatch { position } => GenErrorV::AttachmentTypeMismatch {
                position: *position,
            },
            GenError::UnknownField { path } => GenErrorV::UnknownField { path: path@ },
            GenError::InputTypeMismatch { path } => GenErrorV::InputTypeMismatch { path: path@ },
        }
    }
}

/// Position of node `j` in the declared fragment interpolant list, if any.
pub open spec fn interp_pos(fint: Seq<usize>, j: usize, k: int) -> Option<int>
    decreases fint.len() - k,
        when 0 <= k <= fint.len()
{
    if k >= fint.len() {
        None
    } else if fint[k] == j {
        Some(k)
    } else {
        interp_pos(fint, j, k + 1)
    }
}

/// The identifier a node is referenced by: an interpolant input goes by
/// its positional name, any other input by its sanitized interface path,
/// every computed node by its fresh statement identifier.
pub open spec fn spec_ref(g: Seq<NodeV>, fint: Seq<usize>, j: usize) -> Seq<char> {
    match g[j as int].op {
        OpV::Input(p) => match interp_pos(fint, j, 0) {
            Some(k) => "v_interp_"@ + spec_dec(k),
            None => sanitize(p),
        },
        _ => "n"@ + spec_dec(j as int),
    }
}

/// The source token of a binary operation.
pub open spec fn binop_token(op: BinOp) -> Seq<char> {
    match op {
        BinOp::Add => " + "@,
        BinOp::Sub => " - "@,
        BinOp::Mul => " * "@,
        BinOp::Div => " / "@,
        BinOp::And => " && "@,
        BinOp::Or => " || "@,
        BinOp::Eq => " == "@,
        BinOp::Ne => " != "@,
        BinOp::Lt => " < "@,
        BinOp::Le => " <= "@,
        BinOp::Gt => " > "@,
        BinOp::Ge => " >= "@,
    }
}

/// The component name of a vector position.
pub open spec fn comp_name(f: int) -> Seq<char> {
    if f == 0 {
        "x"@
    } else if f == 1 {
        "y"@
    } else if f == 2 {
        "z"@
    } else {
        "w"@
    }
}

/// The callee name of a builtin: vector assembly goes by the result
/// type's constructor.
pub open spec fn callee_name(structs: Seq<StructDefV>, bi: Builtin, result: Ty) -> Seq<char> {
    match bi {
        Builtin::Sin => "sin"@,
        Builtin::Cos => "cos"@,
        Builtin::Sqrt => "sqrt"@,
        Builtin::Pow => "pow"@,
        Builtin::Texture => "texture"@,
        Builtin::MakeVec2 | Builtin::MakeVec3 | Builtin::MakeVec4 => spec_glsl_ty(
            structs,
            result,
        ),
    }
}

/// Comma-separated references of the first `k` arguments.
pub open spec fn spec_arg_list(g: Seq<NodeV>, fint: Seq<usize>, args: Seq<usize>, k: int) -> Seq<
    char,
>
    decreases k,
{
    if k <= 0 {
        Seq::empty()
    } else if k == 1 {
        spec_ref(g, fint, args[0])
    } else {
        spec_arg_list(g, fint, args, k - 1) + ", "@ + spec_ref(g, fint, args[k - 1])
    }
}

/// The right-hand-side expression of a computed node.
pub open spec fn spec_expr(structs: Seq<StructDefV>, g: Seq<NodeV>, fint: Seq<usize>, i: int) -> Seq<
    char,
> {
    match g[i].op {
        OpV::ConstBool(b) => if b {
            "true"@
        } else {
            "false"@
        },
        OpV::ConstF32Bits(x) => "uintBitsToFloat("@ + spec_dec(x as int) + "u)"@,
        OpV::ConstI32(x) => spec_dec_i32(x),
        OpV::ConstU32(x) => spec_dec(x as int) + "u"@,
        OpV::Input(p) => spec_ref(g, fint, i as usize),
        OpV::Unary(op, a) => (match op {
            UnOp::Neg => "(-"@,
            UnOp::Not => "(!"@,
        }) + spec_ref(g, fint, a) + ")"@,
        OpV::Binary(op, a, b) => "("@ + spec_ref(g, fint, a) + binop_token(op) + spec_ref(
            g,
            fint,
            b,
        ) + ")"@,
        OpV::Field(b, f) => spec_ref(g, fint, b) + "."@ + (match g[b as int].ty {
            Ty::Struct(s) => if s < structs.len() && f < structs[s as int].fields.len() {
                structs[s as int].fields[f as int].name
            } else {
                Seq::empty()
            },
            _ => comp_name(f as int),
        }),
        OpV::Call(bi, args) => callee_name(structs, bi, g[i].ty) + "("@ + spec_arg_list(
            g,
            fint,
            args,
            args.len() as int,
        ) + ")"@,
        OpV::Branch(c, t, e) => "("@ + spec_ref(g, fint, c) + " ? "@ + spec_ref(g, fint, t)
            + " : "@ + spec_ref(g, fint, e) + ")"@,
        OpV::StructCtor(s, args) => (if s < structs.len() {
            structs[s as int].name
        } else {
            Seq::empty()
        }) + "("@ + spec_arg_list(g, fint, args, args.len() as int) + ")"@,
        OpV::Discard => Seq::empty(),
    }
}

/// The generated statement of node `i`. Inputs are declared in the
/// interface sections and emit nothing here; the discard sentinel declares
/// its variable without a value; a value select over a discard arm lowers
/// to a guarded `discard` statement followed by the surviving value.
pub open spec fn spec_stmt(structs: Seq<StructDefV>, g: Seq<NodeV>, fint: Seq<usize>, i: int) -> Seq<
    char,
> {
    let decl = "    "@ + spec_glsl_ty(structs, g[i].ty) + " n"@ + spec_dec(i);
    match g[i].op {
        OpV::Input(_) => Seq::empty(),
        OpV::Discard => decl + ";\n"@,
        OpV::Branch(c, t, e) => {
            if g[t as int].op is Discard && g[e as int].op is Discard {
                "    discard;\n"@ + decl + ";\n"@
            } else if g[t as int].op is Discard {
                "    if ("@ + spec_ref(g, fint, c) + ") discard;\n"@ + decl + " = "@ + spec_ref(
                    g,
                    fint,
                    e,
                ) + ";\n"@
            } else if g[e as int].op is Discard {
                "    if (!"@ + spec_ref(g, fint, c) + ") discard;\n"@ + decl + " = "@ + spec_ref(
                    g,
                    fint,
                    t,
                ) + ";\n"@
            } else {
                decl + " = "@ + spec_expr(structs, g, fint, i) + ";\n"@
            }
        },
        _ => decl + " = "@ + spec_expr(structs, g, fint, i) + ";\n"@,
    }
}

/// The first `k` generated statements, in arena index order.
pub open spec fn spec_stmts(structs: Seq<StructDefV>, g: Seq<NodeV>, fint: Seq<usize>, k: int) -> Seq<
    char,
>
    decreases k,
{
    if k <= 0 {
        Seq::empty()
    } else {
        spec_stmts(structs, g, fint, k - 1) + spec_stmt(structs, g, fint, k - 1)
    }
}

/// The field lines of one aggregate declaration.
pub open spec fn spec_struct_fields(structs: Seq<StructDefV>, i: int, k: int) -> Seq<char>
    decreases k,
{
    if k <= 0 {
        Seq::empty()
    } else {
        spec_struct_fields(structs, i, k - 1) + "    "@ + spec_glsl_ty(
            structs,
            structs[i].fields[k - 1].ty,
        ) + " "@ + structs[i].fields[k - 1].name + ";\n"@
    }
}

/// One aggregate declaration.
pub open spec fn spec_struct_decl(structs: Seq<StructDefV>, i: int) -> Seq<char> {
    "struct "@ + structs[i].name + " {\n"@ + spec_struct_fields(
        structs,
        i,
        structs[i].fields.len() as int,
    ) + "};\n"@
}

/// Declares struct `s` and, first, its not-yet-declared dependencies,
/// depth-first in field order. Returns the updated declared set and the
/// emitted text; a struct already declared emits nothing again.
pub open spec fn decl_closure(structs: Seq<StructDefV>, done: Seq<bool>, s: int) -> (
    Seq<bool>,
    Seq<char>,
)
    decreases s, 1int, 0int,
        when struct_refs_ok(structs) && 0 <= s < structs.len()
{
    if done[s] {
        (done, Seq::empty())
    } else {
        let sub = decl_fields_closure(structs, done, s, structs[s].fields.len() as int);
        (sub.0.update(s, true), sub.1 + spec_struct_decl(structs, s))
    }
}

/// Declares the dependencies among the first `k` fields of struct `s`.
pub open spec fn decl_fields_closure(
    structs: Seq<StructDefV>,
    done: Seq<bool>,
    s: int,
    k: int,
) -> (Seq<bool>, Seq<char>)
    decreases s, 0int, k,
        when struct_refs_ok(structs) && 0 <= s < structs.len() && k <= structs[s].fields.len()
{
    if k <= 0 {
        (done, Seq::empty())
    } else {
        let prev = decl_fields_closure(structs, done, s, k - 1);
        match structs[s].fields[k - 1].ty {
            Ty::Struct(j) => {
                let sub = decl_closure(structs, prev.0, j as int);
                (sub.0, prev.1 + sub.1)
            },
            _ => prev,
        }
    }
}

/// Declaration pass over the first `k` resource bindings: each uniform
/// block's aggregate type is declared at its first use.
pub open spec fn decl_use_res(
    structs: Seq<StructDefV>,
    res: Seq<ResourceBindingV>,
    done: Seq<bool>,
    k: int,
) -> (Seq<bool>, Seq<char>)
    decreases k,
{
    if k <= 0 {
        (done, Seq::empty())
    } else {
        let prev = decl_use_res(structs, res, done, k - 1);
        match res[k - 1].kind {
            ResourceKind::UniformBlock { ty: Ty::Struct(s), .. } => {
                let sub = decl_closure(structs, prev.0, s as int);
                (sub.0, prev.1 + sub.1)
            },
            _ => prev,
        }
    }
}

/// Declaration pass over the first `k` nodes of a graph: each aggregate
/// node type is declared at its first use.
pub open spec fn decl_use_nodes(
    structs: Seq<StructDefV>,
    g: Seq<NodeV>,
    done: Seq<bool>,
    k: int,
) -> (Seq<bool>, Seq<char>)
    decreases k,
{
    if k <= 0 {
        (done, Seq::empty())
    } else {
        let prev = decl_use_nodes(structs, g, done, k - 1);
        match g[k - 1].ty {
            Ty::Struct(s) => {
                let sub = decl_closure(structs, prev.0, s as int);
                (sub.0, prev.1 + sub.1)
            },
            _ => prev,
        }
    }
}

/// All aggregate declarations one source needs: every distinct struct
/// type reachable from its uniform blocks or its nodes, in first-use
/// order with dependencies first, so no forward reference ever occurs.
pub open spec fn spec_source_decls(
    structs: Seq<StructDefV>,
    res: Seq<ResourceBindingV>,
    g: Seq<NodeV>,
) -> Seq<char> {
    let done0 = Seq::new(structs.len(), |i: int| false);
    let pass1 = decl_use_res(structs, res, done0, res.len() as int);
    let pass2 = decl_use_nodes(structs, g, pass1.0, g.len() as int);
    pass1.1 + pass2.1
}

/// The first `k` vertex attribute declarations.
pub open spec fn spec_attr_decls(structs: Seq<StructDefV>, attrs: Seq<LeafBindingV>, k: int) -> Seq<
    char,
>
    decreases k,
{
    if k <= 0 {
        Seq::empty()
    } else {
        spec_attr_decls(structs, attrs, k - 1) + "in "@ + spec_glsl_ty(structs, attrs[k - 1].ty)
            + " "@ + sanitize(attrs[k - 1].path) + ";\n"@
    }
}

/// The first `k` resource declarations: a block as a uniform of its value
/// type, a sampler as a sampler uniform.
pub open spec fn spec_uniform_decls(
    structs: Seq<StructDefV>,
    res: Seq<ResourceBindingV>,
    k: int,
) -> Seq<char>
    decreases k,
{
    if k <= 0 {
        Seq::empty()
    } else {
        spec_uniform_decls(structs, res, k - 1) + "uniform "@ + (match res[k - 1].kind {
            ResourceKind::UniformBlock { ty, .. } => spec_glsl_ty(structs, ty),
            ResourceKind::Sampler2d(st) => spec_glsl_ty(structs, Ty::Sampler2d(st)),
        }) + " "@ + sanitize(res[k - 1].path) + ";\n"@
    }
}

/// The first `k` interpolant declarations, under `word` (`out ` in the
/// vertex stage, `in ` in the fragment stage).
pub open spec fn spec_interp_decls(
    structs: Seq<StructDefV>,
    word: Seq<char>,
    tys: Seq<Ty>,
    k: int,
) -> Seq<char>
    decreases k,
{
    if k <= 0 {
        Seq::empty()
    } else {
        spec_interp_decls(structs, word, tys, k - 1) + word + spec_glsl_ty(structs, tys[k - 1])
            + " v_interp_"@ + spec_dec(k - 1) + ";\n"@
    }
}

/// The first `k` attachment output declarations.
pub open spec fn spec_att_decls(structs: Seq<StructDefV>, atts: Seq<LeafBindingV>, k: int) -> Seq<
    char,
>
    decreases k,
{
    if k <= 0 {
        Seq::empty()
    } else {
        spec_att_decls(structs, atts, k - 1) + "out "@ + spec_glsl_ty(structs, atts[k - 1].ty)
            + " "@ + sanitize(atts[k - 1].path) + ";\n"@
    }
}

/// The first `k` interpolant assignments closing the vertex stage.
pub open spec fn spec_interp_assigns(g: Seq<NodeV>, vints: Seq<usize>, k: int) -> Seq<char>
    decreases k,
{
    if k <= 0 {
        Seq::empty()
    } else {
        spec_interp_assigns(g, vints, k - 1) + "    v_interp_"@ + spec_dec(k - 1) + " = "@
            + spec_ref(g, Seq::empty(), vints[k - 1]) + ";\n"@
    }
}

/// The first `k` attachment assignments closing the fragment stage.
pub open spec fn spec_att_assigns(
    g: Seq<NodeV>,
    fint: Seq<usize>,
    atts: Seq<LeafBindingV>,
    fouts: Seq<usize>,
    k: int,
) -> Seq<char>
    decreases k,
{
    if k <= 0 {
        Seq::empty()
    } else {
        spec_att_assigns(g, fint, atts, fouts, k - 1) + "    "@ + sanitize(atts[k - 1].path)
            + " = "@ + spec_ref(g, fint, fouts[k - 1]) + ";\n"@
    }
}

/// The interpolant types a vertex stage hands on, in structural order.
pub open spec fn interp_tys(g: Seq<NodeV>, vints: Seq<usize>) -> Seq<Ty> {
    Seq::new(vints.len(), |k: int| g[vints[k] as int].ty)
}

/// An attachment leaf type: a four-component non-boolean vector.
pub open spec fn att_ty_ok(ty: Ty) -> bool {
    ty matches Ty::Vec4(st) && st != ScalarTy::Bool
}

/// First interpolant pairing fault, matching by structural position.
pub open spec fn interp_fault(
    gv: Seq<NodeV>,
    gf: Seq<NodeV>,
    vints: Seq<usize>,
    fints: Seq<usize>,
    k: int,
) -> Option<GenErrorV>
    decreases vints.len() - k,
        when 0 <= k <= vints.len() && fints.len() == vints.len()
{
    if k >= vints.len() {
        None
    } else if !(gf[fints[k] as int].op is Input) {
        Some(GenErrorV::NotAnInput { node: fints[k] })
    } else if gf[fints[k] as int].ty != gv[vints[k] as int].ty {
        Some(GenErrorV::InterpolantTypeMismatch { position: k as usize })
    } else {
        interp_fault(gv, gf, vints, fints, k + 1)
    }
}

/// First attachment-capability fault among the flattened leaves.
pub open spec fn att_cap_fault(atts: Seq<LeafBindingV>, k: int) -> Option<GenErrorV>
    decreases atts.len() - k,
        when 0 <= k <= atts.len()
{
    if k >= atts.len() {
        None
    } else if !att_ty_ok(atts[k].ty) {
        Some(GenErrorV::CapabilityMismatch { path: atts[k].path, ty: atts[k].ty })
    } else {
        att_cap_fault(atts, k + 1)
    }
}

/// First fragment-output type fault against the attachments.
pub open spec fn att_out_fault(
    gf: Seq<NodeV>,
    atts: Seq<LeafBindingV>,
    fouts: Seq<usize>,
    k: int,
) -> Option<GenErrorV>
    decreases fouts.len() - k,
        when 0 <= k <= fouts.len() && atts.len() == fouts.len()
{
    if k >= fouts.len() {
        None
    } else if gf[fouts[k] as int].ty != atts[k].ty {
        Some(GenErrorV::AttachmentTypeMismatch { position: k as usize })
    } else {
        att_out_fault(gf, atts, fouts, k + 1)
    }
}

/// The attribute binding a path names, if any.
pub open spec fn find_attr_ty(attrs: Seq<LeafBindingV>, p: Seq<char>, k: int) -> Option<Ty>
    decreases attrs.len() - k,
        when 0 <= k <= attrs.len()
{
    if k >= attrs.len() {
        None
    } else if attrs[k].path == p {
        Some(attrs[k].ty)
    } else {
        find_attr_ty(attrs, p, k + 1)
    }
}

/// The resource binding a path names, if any.
pub open spec fn find_res_kind(res: Seq<ResourceBindingV>, p: Seq<char>, k: int) -> Option<
    ResourceKind,
>
    decreases res.len() - k,
        when 0 <= k <= res.len()
{
    if k >= res.len() {
        None
    } else if res[k].path == p {
        Some(res[k].kind)
    } else {
        find_res_kind(res, p, k + 1)
    }
}

/// The fault of one input node against the declared interfaces, if any:
/// a declared interpolant is fine, otherwise the path must name an
/// attribute or resource of the node's exact type.
pub open spec fn input_node_fault(
    attrs: Seq<LeafBindingV>,
    res: Seq<ResourceBindingV>,
    fint: Seq<usize>,
    g: Seq<NodeV>,
    i: int,
) -> Option<GenErrorV> {
    match g[i].op {
        OpV::Input(p) => if interp_pos(fint, i as usize, 0) is Some {
            None
        } else {
            match find_attr_ty(attrs, p, 0) {
                Some(t) => if g[i].ty == t {
                    None
                } else {
                    Some(GenErrorV::InputTypeMismatch { path: p })
                },
                None => match find_res_kind(res, p, 0) {
                    Some(ResourceKind::UniformBlock { ty, .. }) => if g[i].ty == ty {
                        None
                    } else {
                        Some(GenErrorV::InputTypeMismatch { path: p })
                    },
                    Some(ResourceKind::Sampler2d(st)) => if g[i].ty == Ty::Sampler2d(st) {
                        None
                    } else {
                        Some(GenErrorV::InputTypeMismatch { path: p })
                    },
                    None => Some(GenErrorV::UnknownField { path: p }),
                },
            }
        },
        _ => None,
    }
}

/// First undeclared or mistyped input reference at or after node `i`.
pub open spec fn inputs_fault(
    attrs: Seq<LeafBindingV>,
    res: Seq<ResourceBindingV>,
    fint: Seq<usize>,
    g: Seq<NodeV>,
    i: int,
) -> Option<GenErrorV>
    decreases g.len() - i,
        when 0 <= i <= g.len()
{
    if i >= g.len() {
        None
    } else if input_node_fault(attrs, res, fint, g, i) is Some {
        input_node_fault(attrs, res, fint, g, i)
    } else {
        inputs_fault(attrs, res, fint, g, i + 1)
    }
}

/// The fault that blocks generation, if any: exactly the checks
/// `generate` performs, in order.
pub open spec fn gen_fault(
    attrs: Seq<LeafBindingV>,
    res: Seq<ResourceBindingV>,
    atts: Seq<LeafBindingV>,
    gv: Seq<NodeV>,
    clip: usize,
    vints: Seq<usize>,
    gf: Seq<NodeV>,
    fints: Seq<usize>,
    fouts: Seq<usize>,
) -> Option<GenErrorV> {
    if gv[clip as int].ty != Ty::Vec4(ScalarTy::F32) {
        Some(GenErrorV::BadClipPosition { ty: gv[clip as int].ty })
    } else if vints.len() != fints.len() {
        Some(
            GenErrorV::InterpolantArityMismatch {
                vertex: vints.len() as usize,
                fragment: fints.len() as usize,
            },
        )
    } else if interp_fault(gv, gf, vints, fints, 0) is Some {
        interp_fault(gv, gf, vints, fints, 0)
    } else if att_cap_fault(atts, 0) is Some {
        att_cap_fault(atts, 0)
    } else if fouts.len() != atts.len() {
        Some(
            GenErrorV::AttachmentArityMismatch {
                expected: atts.len() as usize,
                got: fouts.len() as usize,
            },
        )
    } else if att_out_fault(gf, atts, fouts, 0) is Some {
        att_out_fault(gf, atts, fouts, 0)
    } else if inputs_fault(attrs, res, Seq::empty(), gv, 0) is Some {
        inputs_fault(attrs, res, Seq::empty(), gv, 0)
    } else {
        inputs_fault(Seq::empty(), res, fints, gf, 0)
    }
}

/// Every node of a well-typed graph has a type resolvable in the
/// registry.
pub proof fn lemma_node_ty_rank(structs: Seq<StructDefV>, g: Seq<NodeV>, i: int)
    requires
        crate::schema::wf_structs(structs),
        wf_graph(structs, g),
        0 <= i < g.len(),
    ensures
        ty_rank(g[i].ty) <= structs.len(),
    decreases i,
{
    assert(node_wf(structs, g, i));
    match g[i].op {
        OpV::Unary(_, a) => {
            lemma_node_ty_rank(structs, g, a as int);
        },
        OpV::Binary(op, a, b) => {
            lemma_node_ty_rank(structs, g, a as int);
        },
        OpV::Field(b, f) => {
            lemma_node_ty_rank(structs, g, b as int);
            match g[b as int].ty {
                Ty::Struct(s) => {
                    assert(crate::schema::wf_struct_at(structs, s as int));
                    assert(field_ty_ref_ok(structs[s as int].fields[f as int].ty, s as int));
                },
                _ => {},
            }
        },
        OpV::Call(bi, args) => {
            if args.len() > 0 {
                lemma_node_ty_rank(structs, g, args[0] as int);
            }
        },
        OpV::Branch(c, t, e) => {
            lemma_node_ty_rank(structs, g, t as int);
        },
        _ => {},
    }
}

/// Flattened leaves of a sampler-free type are scalars or vectors: never
/// aggregates, never samplers.
pub proof fn lemma_tails_leaf(structs: Seq<StructDefV>, ty: Ty)
    requires
        struct_refs_ok(structs),
        ty_rank(ty) <= structs.len(),
        !(ty matches Ty::Sampler2d(_)),
    ensures
        forall|idx: int|
            0 <= idx < leaf_tails(structs, ty).len() ==> (#[trigger] leaf_tails(structs, ty)[idx].1).spec_is_leaf(),
    decreases ty_rank(ty), 0int, 0int,
{
    match ty {
        Ty::Struct(i) => {
            lemma_fields_tails_leaf(structs, i as int, structs[i as int].fields.len() as int);
            let ft = crate::interface::fields_leaf_tails(
                structs,
                i as int,
                structs[i as int].fields.len() as int,
            );
            assert(leaf_tails(structs, ty) == ft);
            assert forall|idx: int| 0 <= idx < leaf_tails(structs, ty).len() implies (
            #[trigger] leaf_tails(structs, ty)[idx].1).spec_is_leaf() by {
                assert(ft[idx].1.spec_is_leaf());
            }
        },
        _ => {
            assert(leaf_tails(structs, ty) =~= seq![(Seq::<char>::empty(), ty)]);
            assert(leaf_tails(structs, ty)[0].1 == ty);
        },
    }
}

/// Companion of [`lemma_tails_leaf`] over field prefixes.
pub proof fn lemma_fields_tails_leaf(structs: Seq<StructDefV>, i: int, k: int)
    requires
        struct_refs_ok(structs),
        0 <= i < structs.len(),
        0 <= k <= structs[i].fields.len(),
    ensures
        forall|idx: int|
            0 <= idx < crate::interface::fields_leaf_tails(structs, i, k).len() ==> (
            #[trigger] crate::interface::fields_leaf_tails(structs, i, k)[idx].1).spec_is_leaf(),
    decreases i, 1int, k,
{
    if k > 0 {
        lemma_fields_tails_leaf(structs, i, k - 1);
        let fty = structs[i].fields[k - 1].ty;
        assert(field_ty_ref_ok(fty, i));
        lemma_tails_leaf(structs, fty);
        let prev = crate::interface::fields_leaf_tails(structs, i, k - 1);
        let sub = leaf_tails(structs, fty);
        let cur = crate::interface::fields_leaf_tails(structs, i, k);
        assert forall|idx: int| 0 <= idx < cur.len() implies (
        #[trigger] cur[idx].1).spec_is_leaf() by {
            if idx >= prev.len() {
                assert(cur[idx].1 == sub[idx - prev.len()].1);
            }
        }
    }
}

/// Every uniform block among a resource interface's flattened leaves
/// holds a type resolvable in the registry.
pub proof fn lemma_resource_tails_blocks(
    structs: Seq<StructDefV>,
    resources: Seq<ResourceIfaceDefV>,
    j: int,
)
    requires
        crate::schema::wf_resources(structs, resources),
        crate::interface::resource_refs_ok(resources),
        0 <= j < resources.len(),
    ensures
        forall|idx: int|
            0 <= idx < resource_tails(structs, resources, j).len() ==> match (
            #[trigger] resource_tails(structs, resources, j)[idx].1) {
                ResourceKind::UniformBlock { ty, .. } => field_ty_ref_ok(
                    ty,
                    structs.len() as int,
                ),
                ResourceKind::Sampler2d(_) => true,
            },
    decreases j, 1int, 0int,
{
    lemma_resource_fields_tails_blocks(
        structs,
        resources,
        j,
        resources[j].fields.len() as int,
    );
}

/// Companion of [`lemma_resource_tails_blocks`] over field prefixes.
pub proof fn lemma_resource_fields_tails_blocks(
    structs: Seq<StructDefV>,
    resources: Seq<ResourceIfaceDefV>,
    j: int,
    k: int,
)
    requires
        crate::schema::wf_resources(structs, resources),
        crate::interface::resource_refs_ok(resources),
        0 <= j < resources.len(),
        0 <= k <= resources[j].fields.len(),
    ensures
        forall|idx: int|
            0 <= idx < crate::interface::resource_fields_tails(structs, resources, j, k).len()
                ==> match (#[trigger] crate::interface::resource_fields_tails(
                structs,
                resources,
                j,
                k,
            )[idx].1) {
                ResourceKind::UniformBlock { ty, .. } => field_ty_ref_ok(
                    ty,
                    structs.len() as int,
                ),
                ResourceKind::Sampler2d(_) => true,
            },
    decreases j, 0int, k,
{
    assert(crate::schema::wf_resource_at(structs, resources, j));
    if k > 0 {
        lemma_resource_fields_tails_blocks(structs, resources, j, k - 1);
        let prev = crate::interface::resource_fields_tails(structs, resources, j, k - 1);
        let chunk = crate::interface::resource_field_chunk(structs, resources, j, k - 1);
        let cur = crate::interface::resource_fields_tails(structs, resources, j, k);
        assert(crate::schema::resource_field_ty_ok(structs, resources[j].fields[k - 1].ty, j));
        match resources[j].fields[k - 1].ty {
            crate::schema::ResourceFieldTy::Nested(i2) => {
                lemma_resource_tails_blocks(structs, resources, i2 as int);
                let sub = resource_tails(structs, resources, i2 as int);
                assert forall|idx: int| 0 <= idx < cur.len() implies match (
                #[trigger] cur[idx].1) {
                    ResourceKind::UniformBlock { ty, .. } => field_ty_ref_ok(
                        ty,
                        structs.len() as int,
                    ),
                    ResourceKind::Sampler2d(_) => true,
                } by {
                    if idx >= prev.len() {
                        assert(cur[idx].1 == sub[idx - prev.len()].1);
                    }
                }
            },
            _ => {},
        }
    }
}

/// The whole vertex source.
pub open spec fn spec_vertex_source(
    structs: Seq<StructDefV>,
    attrs: Seq<LeafBindingV>,
    res: Seq<ResourceBindingV>,
    g: Seq<NodeV>,
    clip: usize,
    vints: Seq<usize>,
) -> Seq<char> {
    "#version 330\n"@ + spec_source_decls(structs, res, g) + spec_attr_decls(
        structs,
        attrs,
        attrs.len() as int,
    ) + spec_uniform_decls(structs, res, res.len() as int) + spec_interp_decls(
        structs,
        "out "@,
        interp_tys(g, vints),
        vints.len() as int,
    ) + "void main() {\n"@ + spec_stmts(structs, g, Seq::empty(), g.len() as int)
        + "    gl_Position = "@ + spec_ref(g, Seq::empty(), clip) + ";\n"@ + spec_interp_assigns(
        g,
        vints,
        vints.len() as int,
    ) + "}\n"@
}

/// The whole fragment source.
pub open spec fn spec_fragment_source(
    structs: Seq<StructDefV>,
    res: Seq<ResourceBindingV>,
    atts: Seq<LeafBindingV>,
    g: Seq<NodeV>,
    fint: Seq<usize>,
    itys: Seq<Ty>,
    fouts: Seq<usize>,
) -> Seq<char> {
    "#version 330\n"@ + spec_source_decls(structs, res, g) + spec_uniform_decls(
        structs,
        res,
        res.len() as int,
    ) + spec_interp_decls(structs, "in "@, itys, itys.len() as int) + spec_att_decls(
        structs,
        atts,
        atts.len() as int,
    ) + "void main() {\n"@ + spec_stmts(structs, g, fint, g.len() as int) + spec_att_assigns(
        g,
        fint,
        atts,
        fouts,
        fouts.len() as int,
    ) + "}\n"@
}

/// Executable search for a node in the interpolant list.
fn interp_find(fint: &Vec<usize>, j: usize) -> (r: Option<usize>)
    ensures
        match r {
            Some(k) => interp_pos(fint@, j, 0) == Some(k as int),
            None => interp_pos(fint@, j, 0) is None,
        },
{
    let mut k: usize = 0;
    while k < fint.len()
        invariant
            0 <= k <= fint@.len(),
            interp_pos(fint@, j, 0) == interp_pos(fint@, j, k as int),
        decreases fint@.len() - k,
    {
        if fint[k] == j {
            return Some(k);
        }
        k = k + 1;
    }
    None
}

/// Executable node reference.
fn emit_ref(g: &Graph, fint: &Vec<usize>, j: usize) -> (r: String)
    requires
        j < g@.len(),
    ensures
        r@ == spec_ref(g@, fint@, j),
{
    let node = g.node(j);
    match &node.op {
        crate::expr::Op::Input(p) => {
            match interp_find(fint, j) {
                Some(k) => {
                    let mut r = "v_interp_".to_owned();
                    let d = crate::text::fmt_u64(k as u64);
                    r.append(d.as_str());
                    proof {
                        reveal_strlit("v_interp_");
                        assert(r@ =~= "v_interp_"@ + spec_dec(k as int));
                    }
                    r
                },
                None => crate::text::ident_of(p.as_str()),
            }
        },
        _ => {
            let mut r = "n".to_owned();
            let d = crate::text::fmt_u64(j as u64);
            r.append(d.as_str());
            proof {
                reveal_strlit("n");
                assert(r@ =~= "n"@ + spec_dec(j as int));
            }
            r
        },
    }
}

/// Executable comma-separated argument list.
fn emit_arg_list(g: &Graph, fint: &Vec<usize>, args: &Vec<usize>) -> (r: String)
    requires
        forall|k: int| 0 <= k < args@.len() ==> #[trigger] args@[k] < g@.len(),
    ensures
        r@ == spec_arg_list(g@, fint@, args@, args@.len() as int),
{
    let mut r = String::new();
    let mut k: usize = 0;
    while k < args.len()
        invariant
            forall|k2: int| 0 <= k2 < args@.len() ==> #[trigger] args@[k2] < g@.len(),
            0 <= k <= args@.len(),
            r@ == spec_arg_list(g@, fint@, args@, k as int),
        decreases args@.len() - k,
    {
        if k > 0 {
            r.append(", ");
            proof {
                reveal_strlit(", ");
            }
        }
        let a = emit_ref(g, fint, args[k]);
        r.append(a.as_str());
        assert(r@ =~= spec_arg_list(g@, fint@, args@, k as int + 1));
        k = k + 1;
    }
    r
}

/// Executable right-hand-side expression of a node.
#[verifier::loop_isolation(false)]
fn emit_expr(reg: &Registry, g: &Graph, fint: &Vec<usize>, i: usize) -> (r: String)
    requires
        reg.wf(),
        g.wf(reg@.structs),
        i < g@.len(),
    ensures
        r@ == spec_expr(reg@.structs, g@, fint@, i as int),
{
    let ghost structs = reg@.structs;
    proof {
        assert(node_wf(structs, g@, i as int));
    }
    let node = g.node(i);
    match &node.op {
        crate::expr::Op::ConstBool(b) => {
            let r = if *b {
                "true".to_owned()
            } else {
                "false".to_owned()
            };
            r
        },
        crate::expr::Op::ConstF32Bits(x) => {
            let mut r = "uintBitsToFloat(".to_owned();
            let d = crate::text::fmt_u64(*x as u64);
            r.append(d.as_str());
            r.append("u)");
            proof {
                reveal_strlit("uintBitsToFloat(");
                reveal_strlit("u)");
                assert(r@ =~= "uintBitsToFloat("@ + spec_dec(*x as int) + "u)"@);
            }
            r
        },
        crate::expr::Op::ConstI32(x) => crate::text::fmt_i32(*x),
        crate::expr::Op::ConstU32(x) => {
            let mut r = crate::text::fmt_u64(*x as u64);
            r.append("u");
            proof {
                reveal_strlit("u");
                assert(r@ =~= spec_dec(*x as int) + "u"@);
            }
            r
        },
        crate::expr::Op::Input(_) => emit_ref(g, fint, i),
        crate::expr::Op::Unary(op, a) => {
            let mut r = match op {
                UnOp::Neg => "(-".to_owned(),
                UnOp::Not => "(!".to_owned(),
            };
            let ra = emit_ref(g, fint, *a);
            r.append(ra.as_str());
            r.append(")");
            proof {
                reveal_strlit(")");
                assert(r@ =~= spec_expr(structs, g@, fint@, i as int));
            }
            r
        },
        crate::expr::Op::Binary(op, a, b) => {
            let mut r = "(".to_owned();
            let ra = emit_ref(g, fint, *a);
            r.append(ra.as_str());
            let tok: &'static str = match op {
                BinOp::Add => " + ",
                BinOp::Sub => " - ",
                BinOp::Mul => " * ",
                BinOp::Div => " / ",
                BinOp::And => " && ",
                BinOp::Or => " || ",
                BinOp::Eq => " == ",
                BinOp::Ne => " != ",
                BinOp::Lt => " < ",
                BinOp::Le => " <= ",
                BinOp::Gt => " > ",
                BinOp::Ge => " >= ",
            };
            proof {
                reveal_strlit(" + ");
                reveal_strlit(" - ");
                reveal_strlit(" * ");
                reveal_strlit(" / ");
                reveal_strlit(" && ");
                reveal_strlit(" || ");
                reveal_strlit(" == ");
                reveal_strlit(" != ");
                reveal_strlit(" < ");
                reveal_strlit(" <= ");
                reveal_strlit(" > ");
                reveal_strlit(" >= ");
                assert(tok@ =~= binop_token(*op));
            }
            r.append(tok);
            let rb = emit_ref(g, fint, *b);
            r.append(rb.as_str());
            r.append(")");
            proof {
                reveal_strlit("(");
                reveal_strlit(")");
                assert(r@ =~= spec_expr(structs, g@, fint@, i as int));
            }
            r
        },
        crate::expr::Op::Field(b, f) => {
            let mut r = emit_ref(g, fint, *b);
            r.append(".");
            let part: String = match g.node(*b).ty {
                Ty::Struct(s) => {
                    if s < reg.struct_count() {
                        let d = reg.struct_def(s);
                        if *f < d.fields.len() {
                            d.fields[*f].name.clone()
                        } else {
                            String::new()
                        }
                    } else {
                        String::new()
                    }
                },
                _ => {
                    let c: &'static str = if *f == 0 {
                        "x"
                    } else if *f == 1 {
                        "y"
                    } else if *f == 2 {
                        "z"
                    } else {
                        "w"
                    };
                    proof {
                        reveal_strlit("x");
                        reveal_strlit("y");
                        reveal_strlit("z");
                        reveal_strlit("w");
                        assert(c@ =~= comp_name(*f as int));
                    }
                    c.to_owned()
                },
            };
            r.append(part.as_str());
            proof {
                reveal_strlit(".");
                assert(r@ =~= spec_expr(structs, g@, fint@, i as int));
            }
            r
        },
        crate::expr::Op::Call(bi, args) => {
            let mut r: String = match bi {
                Builtin::Sin => "sin".to_owned(),
                Builtin::Cos => "cos".to_owned(),
                Builtin::Sqrt => "sqrt".to_owned(),
                Builtin::Pow => "pow".to_owned(),
                Builtin::Texture => "texture".to_owned(),
                Builtin::MakeVec2 | Builtin::MakeVec3 | Builtin::MakeVec4 => {
                    proof {
                        lemma_node_ty_rank(structs, g@, i as int);
                    }
                    crate::text::glsl_ty_name(reg, node.ty)
                },
            };
            proof {
                assert(r@ == callee_name(structs, *bi, g@[i as int].ty));
            }
            r.append("(");
            let al = emit_arg_list(g, fint, args);
            r.append(al.as_str());
            r.append(")");
            proof {
                reveal_strlit("(");
                reveal_strlit(")");
                assert(r@ =~= spec_expr(structs, g@, fint@, i as int));
            }
            r
        },
        crate::expr::Op::Branch(c, t, e) => {
            let mut r = "(".to_owned();
            let rc = emit_ref(g, fint, *c);
            r.append(rc.as_str());
            r.append(" ? ");
            let rt = emit_ref(g, fint, *t);
            r.append(rt.as_str());
            r.append(" : ");
            let re = emit_ref(g, fint, *e);
            r.append(re.as_str());
            r.append(")");
            proof {
                reveal_strlit("(");
                reveal_strlit(" ? ");
                reveal_strlit(" : ");
                reveal_strlit(")");
                assert(r@ =~= spec_expr(structs, g@, fint@, i as int));
            }
            r
        },
        crate::expr::Op::StructCtor(s, args) => {
            let mut r: String = if *s < reg.struct_count() {
                reg.struct_def(*s).name.clone()
            } else {
                String::new()
            };
            r.append("(");
            let al = emit_arg_list(g, fint, args);
            r.append(al.as_str());
            r.append(")");
            proof {
                reveal_strlit("(");
                reveal_strlit(")");
                assert(r@ =~= spec_expr(structs, g@, fint@, i as int));
            }
            r
        },
        crate::expr::Op::Discard => String::new(),
    }
}

/// Executable generated statement of one node.
#[verifier::loop_isolation(false)]
fn emit_stmt(reg: &Registry, g: &Graph, fint: &Vec<usize>, i: usize) -> (r: String)
    requires
        reg.wf(),
        g.wf(reg@.structs),
        i < g@.len(),
    ensures
        r@ == spec_stmt(reg@.structs, g@, fint@, i as int),
{
    let ghost structs = reg@.structs;
    proof {
        assert(node_wf(structs, g@, i as int));
        lemma_node_ty_rank(structs, g@, i as int);
    }
    let node = g.node(i);
    let mut decl = "    ".to_owned();
    let tyname = crate::text::glsl_ty_name(reg, node.ty);
    decl.append(tyname.as_str());
    decl.append(" n");
    let d = crate::text::fmt_u64(i as u64);
    decl.append(d.as_str());
    proof {
        reveal_strlit("    ");
        reveal_strlit(" n");
        assert(decl@ =~= "    "@ + spec_glsl_ty(structs, g@[i as int].ty) + " n"@ + spec_dec(
            i as int,
        ));
    }
    match &node.op {
        crate::expr::Op::Input(_) => String::new(),
        crate::expr::Op::Discard => {
            let mut r = decl;
            r.append(";\n");
            proof {
                reveal_strlit(";\n");
                assert(r@ =~= spec_stmt(structs, g@, fint@, i as int));
            }
            r
        },
        crate::expr::Op::Branch(c, t, e) => {
            let t_discard = matches!(g.node(*t).op, crate::expr::Op::Discard);
            let e_discard = matches!(g.node(*e).op, crate::expr::Op::Discard);
            if t_discard && e_discard {
                let mut r = "    discard;\n".to_owned();
                r.append(decl.as_str());
                r.append(";\n");
                proof {
                    reveal_strlit("    discard;\n");
                    reveal_strlit(";\n");
                    assert(r@ =~= spec_stmt(structs, g@, fint@, i as int));
                }
                r
            } else if t_discard {
                let mut r = "    if (".to_owned();
                let rc = emit_ref(g, fint, *c);
                r.append(rc.as_str());
                r.append(") discard;\n");
                r.append(decl.as_str());
                r.append(" = ");
                let re = emit_ref(g, fint, *e);
                r.append(re.as_str());
                r.append(";\n");
                proof {
                    reveal_strlit("    if (");
                    reveal_strlit(") discard;\n");
                    reveal_strlit(" = ");
                    reveal_strlit(";\n");
                    assert(r@ =~= spec_stmt(structs, g@, fint@, i as int));
                }
                r
            } else if e_discard {
                let mut r = "    if (!".to_owned();
                let rc = emit_ref(g, fint, *c);
                r.append(rc.as_str());
                r.append(") discard;\n");
                r.append(decl.as_str());
                r.append(" = ");
                let rt = emit_ref(g, fint, *t);
                r.append(rt.as_str());
                r.append(";\n");
                proof {
                    reveal_strlit("    if (!");
                    reveal_strlit(") discard;\n");
                    reveal_strlit(" = ");
                    reveal_strlit(";\n");
                    assert(r@ =~= spec_stmt(structs, g@, fint@, i as int));
                }
                r
            } else {
                let mut r = decl;
                r.append(" = ");
                let ex = emit_expr(reg, g, fint, i);
                r.append(ex.as_str());
                r.append(";\n");
                proof {
                    reveal_strlit(" = ");
                    reveal_strlit(";\n");
                    assert(r@ =~= spec_stmt(structs, g@, fint@, i as int));
                }
                r
            }
        },
        _ => {
            let mut r = decl;
            r.append(" = ");
            let ex = emit_expr(reg, g, fint, i);
            r.append(ex.as_str());
            r.append(";\n");
            proof {
                reveal_strlit(" = ");
                reveal_strlit(";\n");
                assert(r@ =~= spec_stmt(structs, g@, fint@, i as int));
            }
            r
        },
    }
}

/// Executable emission of all statements of a graph.
fn emit_stmts(reg: &Registry, g: &Graph, fint: &Vec<usize>) -> (r: String)
    requires
        reg.wf(),
        g.wf(reg@.structs),
    ensures
        r@ == spec_stmts(reg@.structs, g@, fint@, g@.len() as int),
{
    let mut r = String::new();
    let mut i: usize = 0;
    let n = g.len();
    while i < n
        invariant
            reg.wf(),
            g.wf(reg@.structs),
            n == g@.len(),
            0 <= i <= n,
            r@ == spec_stmts(reg@.structs, g@, fint@, i as int),
        decreases n - i,
    {
        let s = emit_stmt(reg, g, fint, i);
        r.append(s.as_str());
        assert(r@ =~= spec_stmts(reg@.structs, g@, fint@, i as int + 1));
        i = i + 1;
    }
    r
}

/// The declared-set length is invariant under the closure pass.
pub proof fn lemma_decl_closure_len(structs: Seq<StructDefV>, done: Seq<bool>, s: int)
    requires
        struct_refs_ok(structs),
        0 <= s < structs.len(),
        done.len() == structs.len(),
    ensures
        decl_closure(structs, done, s).0.len() == done.len(),
    decreases s, 1int, 0int,
{
    if !done[s] {
        lemma_decl_fields_closure_len(structs, done, s, structs[s].fields.len() as int);
    }
}

/// Companion of [`lemma_decl_closure_len`] over field prefixes.
pub proof fn lemma_decl_fields_closure_len(
    structs: Seq<StructDefV>,
    done: Seq<bool>,
    s: int,
    k: int,
)
    requires
        struct_refs_ok(structs),
        0 <= s < structs.len(),
        done.len() == structs.len(),
        k <= structs[s].fields.len(),
    ensures
        decl_fields_closure(structs, done, s, k).0.len() == done.len(),
    decreases s, 0int, k,
{
    if k > 0 {
        lemma_decl_fields_closure_len(structs, done, s, k - 1);
        match structs[s].fields[k - 1].ty {
            Ty::Struct(j) => {
                assert(field_ty_ref_ok(structs[s].fields[k - 1].ty, s));
                lemma_decl_closure_len(
                    structs,
                    decl_fields_closure(structs, done, s, k - 1).0,
                    j as int,
                );
            },
            _ => {},
        }
    }
}

/// Executable emission of one aggregate declaration.
#[verifier::loop_isolation(false)]
fn emit_struct_decl(reg: &Registry, s: usize) -> (r: String)
    requires
        reg.wf(),
        s < reg@.structs.len(),
    ensures
        r@ == spec_struct_decl(reg@.structs, s as int),
{
    let ghost structs = reg@.structs;
    let d = reg.struct_def(s);
    let mut one = "struct ".to_owned();
    one.append(d.name.as_str());
    one.append(" {\n");
    proof {
        assert(crate::schema::wf_struct_at(structs, s as int));
    }
    let nf = d.fields.len();
    let mut k: usize = 0;
    while k < nf
        invariant
            0 <= k <= nf,
            d@ == structs[s as int],
            nf == d.fields@.len(),
            one@ == "struct "@ + structs[s as int].name + " {\n"@ + spec_struct_fields(
                structs,
                s as int,
                k as int,
            ),
        decreases nf - k,
    {
        proof {
            assert(field_ty_ref_ok(structs[s as int].fields[k as int].ty, s as int));
        }
        one.append("    ");
        let tn = crate::text::glsl_ty_name(reg, d.fields[k].ty);
        one.append(tn.as_str());
        one.append(" ");
        one.append(d.fields[k].name.as_str());
        one.append(";\n");
        proof {
            reveal_strlit("    ");
            reveal_strlit(" ");
            reveal_strlit(";\n");
            assert(one@ =~= "struct "@ + structs[s as int].name + " {\n"@ + spec_struct_fields(
                structs,
                s as int,
                k as int + 1,
            ));
        }
        k = k + 1;
    }
    one.append("};\n");
    proof {
        reveal_strlit("struct ");
        reveal_strlit(" {\n");
        reveal_strlit("};\n");
        assert(one@ =~= spec_struct_decl(structs, s as int));
    }
    one
}

/// Executable depth-first declaration of one struct and its dependencies.
#[verifier::loop_isolation(false)]
fn emit_decl_closure(reg: &Registry, s: usize, done: &mut Vec<bool>, out: &mut String)
    requires
        reg.wf(),
        s < reg@.structs.len(),
        old(done)@.len() == reg@.structs.len(),
    ensures
        final(done)@ == decl_closure(reg@.structs, old(done)@, s as int).0,
        final(done)@.len() == reg@.structs.len(),
        final(out)@ == old(out)@ + decl_closure(reg@.structs, old(done)@, s as int).1,
    decreases s,
{
    let ghost structs = reg@.structs;
    let ghost done0 = done@;
    proof {
        lemma_decl_closure_len(structs, done0, s as int);
    }
    if done[s] {
        proof {
            assert(out@ =~= old(out)@ + decl_closure(structs, done0, s as int).1);
        }
        return ;
    }
    let d = reg.struct_def(s);
    let nf = d.fields.len();
    let mut k: usize = 0;
    while k < nf
        invariant
            0 <= k <= nf,
            d@ == structs[s as int],
            nf == d.fields@.len(),
            done@ == decl_fields_closure(structs, done0, s as int, k as int).0,
            done@.len() == structs.len(),
            out@ == old(out)@ + decl_fields_closure(structs, done0, s as int, k as int).1,
        decreases nf - k,
    {
        proof {
            assert(field_ty_ref_ok(structs[s as int].fields[k as int].ty, s as int));
        }
        match d.fields[k].ty {
            Ty::Struct(j) => {
                emit_decl_closure(reg, j, done, out);
                proof {
                    assert(done@ == decl_fields_closure(
                        structs,
                        done0,
                        s as int,
                        k as int + 1,
                    ).0);
                    assert(out@ =~= old(out)@ + decl_fields_closure(
                        structs,
                        done0,
                        s as int,
                        k as int + 1,
                    ).1);
                }
            },
            _ => {
                proof {
                    assert(out@ =~= old(out)@ + decl_fields_closure(
                        structs,
                        done0,
                        s as int,
                        k as int + 1,
                    ).1);
                }
            },
        }
        k = k + 1;
    }
    let own = emit_struct_decl(reg, s);
    out.append(own.as_str());
    done.set(s, true);
    proof {
        lemma_decl_fields_closure_len(structs, done0, s as int, nf as int);
        assert(done@ =~= decl_closure(structs, done0, s as int).0);
        assert(out@ =~= old(out)@ + decl_closure(structs, done0, s as int).1);
    }
}

/// Executable emission of one source's aggregate declarations: every
/// struct type reachable from its uniform blocks or nodes, first use
/// first, dependencies before dependents.
#[verifier::loop_isolation(false)]
fn emit_source_decls(reg: &Registry, res: &Vec<ResourceBinding>, g: &Graph) -> (r: String)
    requires
        reg.wf(),
        g.wf(reg@.structs),
        forall|idx: int|
            0 <= idx < res@.len() ==> match (#[trigger] res@[idx]@.kind) {
                ResourceKind::UniformBlock { ty, .. } => ty_rank(ty) <= reg@.structs.len(),
                ResourceKind::Sampler2d(_) => true,
            },
    ensures
        r@ == spec_source_decls(reg@.structs, res@.map_values(|b: ResourceBinding| b@), g@),
{
    let ghost structs = reg@.structs;
    let ghost rv = res@.map_values(|b: ResourceBinding| b@);
    let mut done: Vec<bool> = Vec::new();
    let n = reg.struct_count();
    let mut i: usize = 0;
    while i < n
        invariant
            0 <= i <= n,
            done@ =~= Seq::new(i as nat, |j: int| false),
        decreases n - i,
    {
        done.push(false);
        proof {
            assert(done@ =~= Seq::new(i as nat + 1, |j: int| false));
        }
        i = i + 1;
    }
    let ghost done0 = Seq::new(structs.len(), |j: int| false);
    proof {
        assert(done@ =~= done0);
    }
    let mut out = String::new();
    let mut k: usize = 0;
    while k < res.len()
        invariant
            0 <= k <= rv.len(),
            done@ == decl_use_res(structs, rv, done0, k as int).0,
            done@.len() == structs.len(),
            out@ == decl_use_res(structs, rv, done0, k as int).1,
        decreases rv.len() - k,
    {
        proof {
            assert(rv[k as int] == res@[k as int]@);
        }
        match res[k].kind {
            ResourceKind::UniformBlock { ty: Ty::Struct(s), .. } => {
                emit_decl_closure(reg, s, &mut done, &mut out);
                proof {
                    assert(out@ =~= decl_use_res(structs, rv, done0, k as int + 1).1);
                }
            },
            _ => {
                proof {
                    assert(out@ =~= decl_use_res(structs, rv, done0, k as int + 1).1);
                }
            },
        }
        k = k + 1;
    }
    let ghost done1 = decl_use_res(structs, rv, done0, rv.len() as int).0;
    let ghost text1 = decl_use_res(structs, rv, done0, rv.len() as int).1;
    let gn = g.len();
    let mut i: usize = 0;
    while i < gn
        invariant
            0 <= i <= gn,
            gn == g@.len(),
            done@ == decl_use_nodes(structs, g@, done1, i as int).0,
            done@.len() == structs.len(),
            out@ == text1 + decl_use_nodes(structs, g@, done1, i as int).1,
        decreases gn - i,
    {
        match g.node(i).ty {
            Ty::Struct(s) => {
                proof {
                    lemma_node_ty_rank(structs, g@, i as int);
                }
                emit_decl_closure(reg, s, &mut done, &mut out);
                proof {
                    assert(out@ =~= text1 + decl_use_nodes(structs, g@, done1, i as int + 1).1);
                }
            },
            _ => {
                proof {
                    assert(out@ =~= text1 + decl_use_nodes(structs, g@, done1, i as int + 1).1);
                }
            },
        }
        i = i + 1;
    }
    proof {
        assert(out@ =~= spec_source_decls(structs, rv, g@));
    }
    out
}

/// Executable emission of the vertex attribute declarations.
#[verifier::loop_isolation(false)]
fn emit_attr_decls(reg: &Registry, attrs: &Vec<LeafBinding>) -> (r: String)
    requires
        reg.wf(),
        forall|idx: int|
            0 <= idx < attrs@.len() ==> ty_rank(#[trigger] attrs@[idx]@.ty) <= reg@.structs.len(),
    ensures
        r@ == spec_attr_decls(
            reg@.structs,
            attrs@.map_values(|b: LeafBinding| b@),
            attrs@.len() as int,
        ),
{
    let ghost structs = reg@.structs;
    let ghost av = attrs@.map_values(|b: LeafBinding| b@);
    let mut r = String::new();
    let mut k: usize = 0;
    while k < attrs.len()
        invariant
            0 <= k <= av.len(),
            r@ == spec_attr_decls(structs, av, k as int),
        decreases av.len() - k,
    {
        proof {
            assert(ty_rank(attrs@[k as int]@.ty) <= reg@.structs.len());
        }
        r.append("in ");
        let tn = crate::text::glsl_ty_name(reg, attrs[k].ty);
        r.append(tn.as_str());
        r.append(" ");
        let idn = crate::text::ident_of(attrs[k].path.as_str());
        r.append(idn.as_str());
        r.append(";\n");
        proof {
            reveal_strlit("in ");
            reveal_strlit(" ");
            reveal_strlit(";\n");
            assert(av[k as int] == attrs@[k as int]@);
            assert(r@ =~= spec_attr_decls(structs, av, k as int + 1));
        }
        k = k + 1;
    }
    r
}

/// Executable emission of the resource declarations.
#[verifier::loop_isolation(false)]
fn emit_uniform_decls(reg: &Registry, res: &Vec<ResourceBinding>) -> (r: String)
    requires
        reg.wf(),
        forall|idx: int|
            0 <= idx < res@.len() ==> match (#[trigger] res@[idx]@.kind) {
                ResourceKind::UniformBlock { ty, .. } => ty_rank(ty) <= reg@.structs.len(),
                ResourceKind::Sampler2d(_) => true,
            },
    ensures
        r@ == spec_uniform_decls(
            reg@.structs,
            res@.map_values(|b: ResourceBinding| b@),
            res@.len() as int,
        ),
{
    let ghost structs = reg@.structs;
    let ghost rv = res@.map_values(|b: ResourceBinding| b@);
    let mut r = String::new();
    let mut k: usize = 0;
    while k < res.len()
        invariant
            0 <= k <= rv.len(),
            r@ == spec_uniform_decls(structs, rv, k as int),
        decreases rv.len() - k,
    {
        proof {
            assert(rv[k as int] == res@[k as int]@);
        }
        r.append("uniform ");
        let tn: String = match res[k].kind {
            ResourceKind::UniformBlock { ty, .. } => crate::text::glsl_ty_name(reg, ty),
            ResourceKind::Sampler2d(st) => crate::text::glsl_ty_name(reg, Ty::Sampler2d(st)),
        };
        r.append(tn.as_str());
        r.append(" ");
        let idn = crate::text::ident_of(res[k].path.as_str());
        r.append(idn.as_str());
        r.append(";\n");
        proof {
            reveal_strlit("uniform ");
            reveal_strlit(" ");
            reveal_strlit(";\n");
            assert(r@ =~= spec_uniform_decls(structs, rv, k as int + 1));
        }
        k = k + 1;
    }
    r
}

/// Executable emission of the interpolant declarations.
#[verifier::loop_isolation(false)]
fn emit_interp_decls(reg: &Registry, word: &str, tys: &Vec<Ty>) -> (r: String)
    requires
        reg.wf(),
        forall|idx: int|
            0 <= idx < tys@.len() ==> ty_rank(#[trigger] tys@[idx]) <= reg@.structs.len(),
    ensures
        r@ == spec_interp_decls(reg@.structs, word@, tys@, tys@.len() as int),
{
    let ghost structs = reg@.structs;
    let mut r = String::new();
    let mut k: usize = 0;
    while k < tys.len()
        invariant
            0 <= k <= tys@.len(),
            r@ == spec_interp_decls(structs, word@, tys@, k as int),
        decreases tys@.len() - k,
    {
        r.append(word);
        let tn = crate::text::glsl_ty_name(reg, tys[k]);
        r.append(tn.as_str());
        r.append(" v_interp_");
        let d = crate::text::fmt_u64(k as u64);
        r.append(d.as_str());
        r.append(";\n");
        proof {
            reveal_strlit(" v_interp_");
            reveal_strlit(";\n");
            assert(r@ =~= spec_interp_decls(structs, word@, tys@, k as int + 1));
        }
        k = k + 1;
    }
    r
}

/// Executable emission of the attachment output declarations.
#[verifier::loop_isolation(false)]
fn emit_att_decls(reg: &Registry, atts: &Vec<LeafBinding>) -> (r: String)
    requires
        reg.wf(),
        forall|idx: int|
            0 <= idx < atts@.len() ==> ty_rank(#[trigger] atts@[idx]@.ty) <= reg@.structs.len(),
    ensures
        r@ == spec_att_decls(
            reg@.structs,
            atts@.map_values(|b: LeafBinding| b@),
            atts@.len() as int,
        ),
{
    let ghost structs = reg@.structs;
    let ghost av = atts@.map_values(|b: LeafBinding| b@);
    let mut r = String::new();
    let mut k: usize = 0;
    while k < atts.len()
        invariant
            0 <= k <= av.len(),
            r@ == spec_att_decls(structs, av, k as int),
        decreases av.len() - k,
    {
        proof {
            assert(ty_rank(atts@[k as int]@.ty) <= reg@.structs.len());
        }
        r.append("out ");
        let tn = crate::text::glsl_ty_name(reg, atts[k].ty);
        r.append(tn.as_str());
        r.append(" ");
        let idn = crate::text::ident_of(atts[k].path.as_str());
        r.append(idn.as_str());
        r.append(";\n");
        proof {
            reveal_strlit("out ");
            reveal_strlit(" ");
            reveal_strlit(";\n");
            assert(av[k as int] == atts@[k as int]@);
            assert(r@ =~= spec_att_decls(structs, av, k as int + 1));
        }
        k = k + 1;
    }
    r
}

/// Executable emission of the closing interpolant assignments.
#[verifier::loop_isolation(false)]
fn emit_interp_assigns(g: &Graph, vints: &Vec<usize>) -> (r: String)
    requires
        forall|k: int| 0 <= k < vints@.len() ==> #[trigger] vints@[k] < g@.len(),
    ensures
        r@ == spec_interp_assigns(g@, vints@, vints@.len() as int),
{
    let empty_fint: Vec<usize> = Vec::new();
    let mut r = String::new();
    let mut k: usize = 0;
    while k < vints.len()
        invariant
            0 <= k <= vints@.len(),
            empty_fint@ == Seq::<usize>::empty(),
            r@ == spec_interp_assigns(g@, vints@, k as int),
        decreases vints@.len() - k,
    {
        r.append("    v_interp_");
        let d = crate::text::fmt_u64(k as u64);
        r.append(d.as_str());
        r.append(" = ");
        let rr = emit_ref(g, &empty_fint, vints[k]);
        r.append(rr.as_str());
        r.append(";\n");
        proof {
            reveal_strlit("    v_interp_");
            reveal_strlit(" = ");
            reveal_strlit(";\n");
            assert(r@ =~= spec_interp_assigns(g@, vints@, k as int + 1));
        }
        k = k + 1;
    }
    r
}

/// Executable emission of the closing attachment assignments.
#[verifier::loop_isolation(false)]
fn emit_att_assigns(g: &Graph, fint: &Vec<usize>, atts: &Vec<LeafBinding>, fouts: &Vec<usize>) -> (r:
    String)
    requires
        atts@.len() == fouts@.len(),
        forall|k: int| 0 <= k < fouts@.len() ==> #[trigger] fouts@[k] < g@.len(),
    ensures
        r@ == spec_att_assigns(
            g@,
            fint@,
            atts@.map_values(|b: LeafBinding| b@),
            fouts@,
            fouts@.len() as int,
        ),
{
    let ghost av = atts@.map_values(|b: LeafBinding| b@);
    let mut r = String::new();
    let mut k: usize = 0;
    while k < fouts.len()
        invariant
            0 <= k <= fouts@.len(),
            r@ == spec_att_assigns(g@, fint@, av, fouts@, k as int),
        decreases fouts@.len() - k,
    {
        r.append("    ");
        let idn = crate::text::ident_of(atts[k].path.as_str());
        r.append(idn.as_str());
        r.append(" = ");
        let rr = emit_ref(g, fint, fouts[k]);
        r.append(rr.as_str());
        r.append(";\n");
        proof {
            reveal_strlit("    ");
            reveal_strlit(" = ");
            reveal_strlit(";\n");
            assert(av[k as int] == atts@[k as int]@);
            assert(r@ =~= spec_att_assigns(g@, fint@, av, fouts@, k as int + 1));
        }
        k = k + 1;
    }
    r
}

/// Executable search for an attribute binding by path.
fn find_attr(attrs: &Vec<LeafBinding>, p: &String) -> (r: Option<Ty>)
    ensures
        r == find_attr_ty(attrs@.map_values(|b: LeafBinding| b@), p@, 0),
{
    let ghost av = attrs@.map_values(|b: LeafBinding| b@);
    let mut k: usize = 0;
    while k < attrs.len()
        invariant
            av == attrs@.map_values(|b: LeafBinding| b@),
            0 <= k <= av.len(),
            find_attr_ty(av, p@, 0) == find_attr_ty(av, p@, k as int),
        decreases av.len() - k,
    {
        proof {
            assert(av[k as int] == attrs@[k as int]@);
        }
        if attrs[k].path == *p {
            return Some(attrs[k].ty);
        }
        k = k + 1;
    }
    None
}

/// Executable search for a resource binding by path.
fn find_res(res: &Vec<ResourceBinding>, p: &String) -> (r: Option<ResourceKind>)
    ensures
        r == find_res_kind(res@.map_values(|b: ResourceBinding| b@), p@, 0),
{
    let ghost rv = res@.map_values(|b: ResourceBinding| b@);
    let mut k: usize = 0;
    while k < res.len()
        invariant
            rv == res@.map_values(|b: ResourceBinding| b@),
            0 <= k <= rv.len(),
            find_res_kind(rv, p@, 0) == find_res_kind(rv, p@, k as int),
        decreases rv.len() - k,
    {
        proof {
            assert(rv[k as int] == res@[k as int]@);
        }
        if res[k].path == *p {
            return Some(res[k].kind);
        }
        k = k + 1;
    }
    None
}

/// Executable scan of a graph's input references against the declared
/// interfaces.
#[verifier::loop_isolation(false)]
fn scan_inputs(
    g: &Graph,
    attrs: &Vec<LeafBinding>,
    res: &Vec<ResourceBinding>,
    fint: &Vec<usize>,
) -> (r: Option<GenError>)
    ensures
        match r {
            Some(e) => Some(e@) == inputs_fault(
                attrs@.map_values(|b: LeafBinding| b@),
                res@.map_values(|b: ResourceBinding| b@),
                fint@,
                g@,
                0,
            ),
            None => inputs_fault(
                attrs@.map_values(|b: LeafBinding| b@),
                res@.map_values(|b: ResourceBinding| b@),
                fint@,
                g@,
                0,
            ) is None,
        },
{
    let ghost av = attrs@.map_values(|b: LeafBinding| b@);
    let ghost rv = res@.map_values(|b: ResourceBinding| b@);
    let mut i: usize = 0;
    let n = g.len();
    while i < n
        invariant
            n == g@.len(),
            0 <= i <= n,
            inputs_fault(av, rv, fint@, g@, 0) == inputs_fault(av, rv, fint@, g@, i as int),
        decreases n - i,
    {
        let node = g.node(i);
        match &node.op {
            crate::expr::Op::Input(p) => {
                let is_interp = matches!(interp_find(fint, i), Some(_));
                if !is_interp {
                    match find_attr(attrs, p) {
                        Some(t) => {
                            if node.ty != t {
                                return Some(GenError::InputTypeMismatch { path: p.clone() });
                            }
                        },
                        None => {
                            match find_res(res, p) {
                                Some(ResourceKind::UniformBlock { ty, .. }) => {
                                    if node.ty != ty {
                                        return Some(
                                            GenError::InputTypeMismatch { path: p.clone() },
                                        );
                                    }
                                },
                                Some(ResourceKind::Sampler2d(st)) => {
                                    if node.ty != Ty::Sampler2d(st) {
                                        return Some(
                                            GenError::InputTypeMismatch { path: p.clone() },
                                        );
                                    }
                                },
                                None => {
                                    return Some(GenError::UnknownField { path: p.clone() });
                                },
                            }
                        },
                    }
                }
            },
            _ => {},
        }
        proof {
            assert(input_node_fault(av, rv, fint@, g@, i as int) is None);
        }
        i = i + 1;
    }
    None
}

/// Compiles one (vertex stage, fragment stage) pair into a [`ProgramDef`].
///
/// `vertex_iface` and `attachment_iface` are struct indices whose
/// flattened leaves become the vertex attributes and the color
/// attachments; `resource_iface` is a resource-interface index.
/// `vs_out` names the vertex stage's clip position and interpolant nodes;
/// `f_interpolants` the fragment stage's declared interpolant input
/// nodes, matched to the vertex interpolants by structural position;
/// `f_outputs` the fragment stage's one value per attachment leaf.
///
/// Succeeds exactly when [`gen_fault`] finds nothing to object to; the
/// result is a pure function of the inputs, so generating twice from
/// identical stages yields byte-identical source texts and identical
/// binding tables.
#[verifier::loop_isolation(false)]
#[verifier::rlimit(100)]
pub fn generate(
    reg: &Registry,
    vertex_iface: usize,
    resource_iface: usize,
    attachment_iface: usize,
    vgraph: &Graph,
    vs_out: &VsOutputs,
    fgraph: &Graph,
    f_interpolants: &Vec<usize>,
    f_outputs: &Vec<usize>,
) -> (r: Result<ProgramDef, GenError>)
    requires
        reg.wf(),
        vertex_iface < reg@.structs.len(),
        resource_iface < reg@.resources.len(),
        attachment_iface < reg@.structs.len(),
        vgraph.wf(reg@.structs),
        fgraph.wf(reg@.structs),
        vs_out.clip_position < vgraph@.len(),
        forall|k: int|
            0 <= k < vs_out.interpolants@.len() ==> #[trigger] vs_out.interpolants@[k]
                < vgraph@.len(),
        forall|k: int|
            0 <= k < f_interpolants@.len() ==> #[trigger] f_interpolants@[k] < fgraph@.len(),
        forall|k: int| 0 <= k < f_outputs@.len() ==> #[trigger] f_outputs@[k] < fgraph@.len(),
    ensures
        ({
            let structs = reg@.structs;
            let attrs = spec_flatten(structs, Ty::Struct(vertex_iface), Seq::empty());
            let res = spec_flatten_resources(
                structs,
                reg@.resources,
                resource_iface as int,
                Seq::empty(),
            );
            let atts = spec_flatten(structs, Ty::Struct(attachment_iface), Seq::empty());
            let fault = gen_fault(
                attrs,
                res,
                atts,
                vgraph@,
                vs_out.clip_position,
                vs_out.interpolants@,
                fgraph@,
                f_interpolants@,
                f_outputs@,
            );
            match r {
                Ok(p) => {
                    &&& fault is None
                    &&& p@.vertex_attributes == attrs.map_values(
                        |b: LeafBindingV|
                            VertexAttributeDefV {
                                path: b.path,
                                ty: b.ty,
                                input_rate: VertexInputRate::Vertex,
                            },
                    )
                    &&& p@.resources == res
                    &&& p@.attachments == atts
                    &&& p@.vertex_source == spec_vertex_source(
                        structs,
                        attrs,
                        res,
                        vgraph@,
                        vs_out.clip_position,
                        vs_out.interpolants@,
                    )
                    &&& p@.fragment_source == spec_fragment_source(
                        structs,
                        res,
                        atts,
                        fgraph@,
                        f_interpolants@,
                        interp_tys(vgraph@, vs_out.interpolants@),
                        f_outputs@,
                    )
                },
                Err(e) => Some(e@) == fault,
            }
        }),
{
    let ghost structs = reg@.structs;
    let ghost resourcesv = reg@.resources;
    let empty_prefix = "";
    proof {
        reveal_strlit("");
        assert(empty_prefix@ =~= Seq::<char>::empty());
    }
    // Flatten the three interfaces.
    let mut attrs: Vec<LeafBinding> = Vec::new();
    crate::interface::flatten_into(reg, Ty::Struct(vertex_iface), empty_prefix, &mut attrs);
    let ghost attrsv = spec_flatten(structs, Ty::Struct(vertex_iface), Seq::empty());
    proof {
        assert(Seq::<LeafBinding>::empty().map_values(|b: LeafBinding| b@)
            =~= Seq::<LeafBindingV>::empty());
        assert(attrs@.map_values(|b: LeafBinding| b@) =~= attrsv);
    }
    let mut res: Vec<ResourceBinding> = Vec::new();
    crate::interface::flatten_resources_into(reg, resource_iface, empty_prefix, &mut res);
    let ghost resv = spec_flatten_resources(
        structs,
        resourcesv,
        resource_iface as int,
        Seq::empty(),
    );
    proof {
        assert(Seq::<ResourceBinding>::empty().map_values(|b: ResourceBinding| b@)
            =~= Seq::<ResourceBindingV>::empty());
        assert(res@.map_values(|b: ResourceBinding| b@) =~= resv);
    }
    let mut atts: Vec<LeafBinding> = Vec::new();
    crate::interface::flatten_into(reg, Ty::Struct(attachment_iface), empty_prefix, &mut atts);
    let ghost attsv = spec_flatten(structs, Ty::Struct(attachment_iface), Seq::empty());
    proof {
        assert(atts@.map_values(|b: LeafBinding| b@) =~= attsv);
    }
    let ghost fault = gen_fault(
        attrsv,
        resv,
        attsv,
        vgraph@,
        vs_out.clip_position,
        vs_out.interpolants@,
        fgraph@,
        f_interpolants@,
        f_outputs@,
    );
    // Clip position must be a four-component float vector.
    let clip_ty = vgraph.node_ty(vs_out.clip_position);
    if clip_ty != (Ty::Vec4(ScalarTy::F32)) {
        return Err(GenError::BadClipPosition { ty: clip_ty });
    }
    // The stages must agree on the interpolant count.
    let vints = &vs_out.interpolants;
    if vints.len() != f_interpolants.len() {
        return Err(
            GenError::InterpolantArityMismatch {
                vertex: vints.len(),
                fragment: f_interpolants.len(),
            },
        );
    }
    // Interpolants pair by structural position and must agree on types.
    let mut k: usize = 0;
    while k < vints.len()
        invariant
            0 <= k <= vints@.len(),
            interp_fault(vgraph@, fgraph@, vints@, f_interpolants@, 0) == interp_fault(
                vgraph@,
                fgraph@,
                vints@,
                f_interpolants@,
                k as int,
            ),
        decreases vints@.len() - k,
    {
        let fnode = fgraph.node(f_interpolants[k]);
        if !matches!(&fnode.op, crate::expr::Op::Input(_)) {
            return Err(GenError::NotAnInput { node: f_interpolants[k] });
        }
        if fnode.ty != vgraph.node_ty(vints[k]) {
            return Err(GenError::InterpolantTypeMismatch { position: k });
        }
        k = k + 1;
    }
    // Attachment leaves must be four-component non-boolean vectors.
    let mut k: usize = 0;
    while k < atts.len()
        invariant
            0 <= k <= attsv.len(),
            atts@.map_values(|b: LeafBinding| b@) == attsv,
            atts@.len() == attsv.len(),
            att_cap_fault(attsv, 0) == att_cap_fault(attsv, k as int),
        decreases attsv.len() - k,
    {
        proof {
            assert(attsv[k as int] == atts@[k as int]@);
        }
        let ok = match atts[k].ty {
            Ty::Vec4(st) => st != ScalarTy::Bool,
            _ => false,
        };
        if !ok {
            return Err(
                GenError::CapabilityMismatch { path: atts[k].path.clone(), ty: atts[k].ty },
            );
        }
        k = k + 1;
    }
    // One fragment output per attachment leaf, with matching types.
    if f_outputs.len() != atts.len() {
        return Err(
            GenError::AttachmentArityMismatch { expected: atts.len(), got: f_outputs.len() },
        );
    }
    let mut k: usize = 0;
    while k < f_outputs.len()
        invariant
            0 <= k <= f_outputs@.len(),
            atts@.map_values(|b: LeafBinding| b@) == attsv,
            atts@.len() == attsv.len() == f_outputs@.len(),
            att_out_fault(fgraph@, attsv, f_outputs@, 0) == att_out_fault(
                fgraph@,
                attsv,
                f_outputs@,
                k as int,
            ),
        decreases f_outputs@.len() - k,
    {
        proof {
            assert(attsv[k as int] == atts@[k as int]@);
        }
        if fgraph.node_ty(f_outputs[k]) != atts[k].ty {
            return Err(GenError::AttachmentTypeMismatch { position: k });
        }
        k = k + 1;
    }
    // Every input reference must name a declared interface leaf of its
    // exact type.
    let no_attrs: Vec<LeafBinding> = Vec::new();
    let empty_fint: Vec<usize> = Vec::new();
    proof {
        assert(no_attrs@.map_values(|b: LeafBinding| b@) =~= Seq::<LeafBindingV>::empty());
        assert(empty_fint@ =~= Seq::<usize>::empty());
    }
    match scan_inputs(vgraph, &attrs, &res, &empty_fint) {
        Some(e) => {
            return Err(e);
        },
        None => {},
    }
    match scan_inputs(fgraph, &no_attrs, &res, f_interpolants) {
        Some(e) => {
            return Err(e);
        },
        None => {},
    }
    assert(fault is None);
    // Assemble the sources.
    proof {
        lemma_tails_leaf(structs, Ty::Struct(vertex_iface));
        lemma_tails_leaf(structs, Ty::Struct(attachment_iface));
        assert(crate::interface::resource_refs_ok(resourcesv)) by {
            assert forall|j2: int, k2: int|
                0 <= j2 < resourcesv.len() && 0 <= k2 < resourcesv[j2].fields.len() implies match (
            #[trigger] resourcesv[j2].fields[k2].ty) {
                crate::schema::ResourceFieldTy::Nested(i2) => i2 < j2,
                _ => true,
            } by {
                assert(crate::schema::wf_resource_at(structs, resourcesv, j2));
                assert(crate::schema::resource_field_ty_ok(
                    structs,
                    resourcesv[j2].fields[k2].ty,
                    j2,
                ));
            }
        }
        lemma_resource_tails_blocks(structs, resourcesv, resource_iface as int);
        assert forall|idx: int| 0 <= idx < attrs@.len() implies ty_rank(
            #[trigger] attrs@[idx]@.ty,
        ) <= structs.len() by {
            assert(attrs@[idx]@ == attrsv[idx]);
            assert(attrsv[idx].ty == leaf_tails(structs, Ty::Struct(vertex_iface))[idx].1);
            assert(leaf_tails(structs, Ty::Struct(vertex_iface))[idx].1.spec_is_leaf());
        }
        assert forall|idx: int| 0 <= idx < atts@.len() implies ty_rank(
            #[trigger] atts@[idx]@.ty,
        ) <= structs.len() by {
            assert(atts@[idx]@ == attsv[idx]);
            assert(attsv[idx].ty == leaf_tails(structs, Ty::Struct(attachment_iface))[idx].1);
            assert(leaf_tails(structs, Ty::Struct(attachment_iface))[idx].1.spec_is_leaf());
        }
        assert forall|idx: int| 0 <= idx < res@.len() implies match (#[trigger] res@[idx]@.kind) {
            ResourceKind::UniformBlock { ty, .. } => ty_rank(ty) <= structs.len(),
            ResourceKind::Sampler2d(_) => true,
        } by {
            assert(res@[idx]@ == resv[idx]);
            assert(resv[idx].kind == resource_tails(
                structs,
                resourcesv,
                resource_iface as int,
            )[idx].1);
        }
    }
    let itys = collect_interp_tys(vgraph, vints);
    proof {
        assert forall|idx: int| 0 <= idx < itys@.len() implies ty_rank(#[trigger] itys@[idx])
            <= structs.len() by {
            lemma_node_ty_rank(structs, vgraph@, vints@[idx] as int);
        }
    }
    let vdecls = emit_source_decls(reg, &res, vgraph);
    let fdecls = emit_source_decls(reg, &res, fgraph);
    let uniforms = emit_uniform_decls(reg, &res);
    let mut vsrc = "#version 330\n".to_owned();
    vsrc.append(vdecls.as_str());
    let attr_decls = emit_attr_decls(reg, &attrs);
    vsrc.append(attr_decls.as_str());
    vsrc.append(uniforms.as_str());
    let out_decls = emit_interp_decls(reg, "out ", &itys);
    vsrc.append(out_decls.as_str());
    vsrc.append("void main() {\n");
    let vstmts = emit_stmts(reg, vgraph, &empty_fint);
    vsrc.append(vstmts.as_str());
    vsrc.append("    gl_Position = ");
    let clip_ref = emit_ref(vgraph, &empty_fint, vs_out.clip_position);
    vsrc.append(clip_ref.as_str());
    vsrc.append(";\n");
    let vassigns = emit_interp_assigns(vgraph, vints);
    vsrc.append(vassigns.as_str());
    vsrc.append("}\n");
    proof {
        reveal_strlit("#version 330\n");
        reveal_strlit("void main() {\n");
        reveal_strlit("    gl_Position = ");
        reveal_strlit(";\n");
        reveal_strlit("}\n");
        assert(vsrc@ =~= spec_vertex_source(
            structs,
            attrsv,
            resv,
            vgraph@,
            vs_out.clip_position,
            vints@,
        ));
    }
    let mut fsrc = "#version 330\n".to_owned();
    fsrc.append(fdecls.as_str());
    fsrc.append(uniforms.as_str());
    let in_decls = emit_interp_decls(reg, "in ", &itys);
    fsrc.append(in_decls.as_str());
    let att_decls = emit_att_decls(reg, &atts);
    fsrc.append(att_decls.as_str());
    fsrc.append("void main() {\n");
    let fstmts = emit_stmts(reg, fgraph, f_interpolants);
    fsrc.append(fstmts.as_str());
    let fassigns = emit_att_assigns(fgraph, f_interpolants, &atts, f_outputs);
    fsrc.append(fassigns.as_str());
    fsrc.append("}\n");
    proof {
        assert(itys@ =~= interp_tys(vgraph@, vints@));
        assert(fsrc@ =~= spec_fragment_source(
            structs,
            resv,
            attsv,
            fgraph@,
            f_interpolants@,
            interp_tys(vgraph@, vints@),
            f_outputs@,
        ));
    }
    // Assemble the binding tables.
    let mut attr_defs: Vec<VertexAttributeDef> = Vec::new();
    let mut k: usize = 0;
    while k < attrs.len()
        invariant
            0 <= k <= attrs@.len(),
            attr_defs@.len() == k,
            forall|idx: int|
                0 <= idx < k ==> #[trigger] attr_defs@[idx]@ == (VertexAttributeDefV {
                    path: attrs@[idx]@.path,
                    ty: attrs@[idx]@.ty,
                    input_rate: VertexInputRate::Vertex,
                }),
        decreases attrs@.len() - k,
    {
        attr_defs.push(
            VertexAttributeDef {
                path: attrs[k].path.clone(),
                ty: attrs[k].ty,
                input_rate: VertexInputRate::Vertex,
            },
        );
        k = k + 1;
    }
    let p = ProgramDef {
        vertex_source: vsrc,
        fragment_source: fsrc,
        vertex_attributes: attr_defs,
        resources: res,
        attachments: atts,
    };
    proof {
        assert(p@.vertex_attributes =~= attrsv.map_values(
            |b: LeafBindingV|
                VertexAttributeDefV {
                    path: b.path,
                    ty: b.ty,
                    input_rate: VertexInputRate::Vertex,
                },
        ));
    }
    Ok(p)
}

/// Collects the interpolant types of a vertex stage.
fn collect_interp_tys(g: &Graph, vints: &Vec<usize>) -> (r: Vec<Ty>)
    requires
        forall|k: int| 0 <= k < vints@.len() ==> #[trigger] vints@[k] < g@.len(),
    ensures
        r@ == interp_tys(g@, vints@),
{
    let mut r: Vec<Ty> = Vec::new();
    let mut k: usize = 0;
    while k < vints.len()
        invariant
            forall|k2: int| 0 <= k2 < vints@.len() ==> #[trigger] vints@[k2] < g@.len(),
            0 <= k <= vints@.len(),
            r@.len() == k,
            forall|idx: int| 0 <= idx < k ==> #[trigger] r@[idx] == g@[vints@[idx] as int].ty,
        decreases vints@.len() - k,
    {
        r.push(g.node_ty(vints[k]));
        k = k + 1;
    }
    assert(r@ =~= interp_tys(g@, vints@));
    r
}

} // verus!
