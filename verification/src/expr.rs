//! The symbolic expression graph.
//!
//! Every operation on a symbolic value appends exactly one node referencing
//! its operands and returns the new node's index; nothing is computed at
//! trace time. Operand indices always point strictly earlier in the arena,
//! so the graph is acyclic by construction and arena order is already a
//! topological order. Reusing an index shares the node; the builder never
//! re-derives an equivalent node on its own.
//!
//! No implicit coercion exists between scalar kinds: a builder returns a
//! trace-time fault instead of inventing a conversion node.

use vstd::prelude::*;

use crate::schema::{Registry, StructDefV};
use crate::ty::{ScalarTy, Ty};

verus! {

/// A unary operation.
#[derive(Clone, Copy, Debug, PartialEq, Eq, Structural)]
pub enum UnOp {
    /// Arithmetic negation of a numeric scalar or vector, wrapping on
    /// integers.
    Neg,
    /// Boolean negation.
    Not,
}

/// A binary operation. Arithmetic is componentwise on vectors; comparisons
/// and logic work on scalars.
#[derive(Clone, Copy, Debug, PartialEq, Eq, Structural)]
pub enum BinOp {
    Add,
    Sub,
    Mul,
    Div,
    And,
    Or,
    Eq,
    Ne,
    Lt,
    Le,
    Gt,
    Ge,
}

/// A built-in function of the shader language.
#[derive(Clone, Copy, Debug, PartialEq, Eq, Structural)]
pub enum Builtin {
    Sin,
    Cos,
    Sqrt,
    Pow,
    /// Samples a two-dimensional texture at a coordinate.
    Texture,
    /// Assembles a two-component vector from scalars.
    MakeVec2,
    /// Assembles a three-component vector from scalars.
    MakeVec3,
    /// Assembles a four-component vector from scalars.
    MakeVec4,
}

/// One recorded operation. Operand fields hold indices of earlier nodes.
pub enum Op {
    ConstBool(bool),
    ConstF32Bits(u32),
    ConstI32(i32),
    ConstU32(u32),
    /// A placeholder fed by the pipeline, tagged with its interface path.
    Input(String),
    Unary(UnOp, usize),
    Binary(BinOp, usize, usize),
    /// Projection of a struct field or vector component by position.
    Field(usize, usize),
    Call(Builtin, Vec<usize>),
    /// Value select: predicate, then-value, else-value. Both branches are
    /// recorded eagerly; selection happens only when the generated code
    /// runs.
    Branch(usize, usize, usize),
    /// Construction of a struct value from per-field operands.
    StructCtor(usize, Vec<usize>),
    /// The discard sentinel: a tagged node, not an early exit. The real
    /// discard happens only if this branch is taken at execution time.
    Discard,
}

/// Mathematical model of an operation.
#[verifier::ext_equal]
pub enum OpV {
    ConstBool(bool),
    ConstF32Bits(u32),
    ConstI32(i32),
    ConstU32(u32),
    Input(Seq<char>),
    Unary(UnOp, usize),
    Binary(BinOp, usize, usize),
    Field(usize, usize),
    Call(Builtin, Seq<usize>),
    Branch(usize, usize, usize),
    StructCtor(usize, Seq<usize>),
    Discard,
}

impl View for Op {
    type V = OpV;

    open spec fn view(&self) -> OpV {
        match self {
            Op::ConstBool(b) => OpV::ConstBool(*b),
            Op::ConstF32Bits(x) => OpV::ConstF32Bits(*x),
            Op::ConstI32(x) => OpV::ConstI32(*x),
            Op::ConstU32(x) => OpV::ConstU32(*x),
            Op::Input(p) => OpV::Input(p@),
            Op::Unary(op, a) => OpV::Unary(*op, *a),
            Op::Binary(op, a, b) => OpV::Binary(*op, *a, *b),
            Op::Field(b, f) => OpV::Field(*b, *f),
            Op::Call(bi, args) => OpV::Call(*bi, args@),
            Op::Branch(c, t, e) => OpV::Branch(*c, *t, *e),
            Op::StructCtor(s, args) => OpV::StructCtor(*s, args@),
            Op::Discard => OpV::Discard,
        }
    }
}

/// One graph node: its operation and its semantic type.
pub struct Node {
    pub op: Op,
    pub ty: Ty,
}

/// Mathematical model of a node.
#[verifier::ext_equal]
pub struct NodeV {
    pub op: OpV,
    pub ty: Ty,
}

impl View for Node {
    type V = NodeV;

    open spec fn view(&self) -> NodeV {
        NodeV { op: self.op@, ty: self.ty }
    }
}

/// A trace-time fault: the graph is left unchanged when one is reported.
#[derive(Clone, Copy, Debug, PartialEq, Eq, Structural)]
pub enum TraceError {
    /// A binary operation was asked of two incompatible types; both are
    /// named.
    TypeMismatch { left: Ty, right: Ty },
    /// A unary operation or call argument has a type the operation does
    /// not support.
    BadOperandType(Ty),
    /// A projection names no field or component of the base type.
    NoSuchField { base: Ty, index: usize },
    /// A call or constructor received the wrong number of arguments.
    BadArity { expected: usize, got: usize },
}

/// Whether a binary operation accepts these operand types.
pub open spec fn binop_ok(op: BinOp, ta: Ty, tb: Ty) -> bool {
    match op {
        BinOp::Add | BinOp::Sub | BinOp::Mul | BinOp::Div => tb == ta && ta.spec_is_numeric(),
        BinOp::And | BinOp::Or => ta == Ty::Scalar(ScalarTy::Bool) && tb == ta,
        BinOp::Eq | BinOp::Ne => tb == ta && (ta matches Ty::Scalar(_)),
        BinOp::Lt | BinOp::Le | BinOp::Gt | BinOp::Ge => tb == ta && (ta matches Ty::Scalar(s)
            && s != ScalarTy::Bool),
    }
}

/// The result type of an accepted binary operation.
pub open spec fn binop_result(op: BinOp, ta: Ty) -> Ty {
    match op {
        BinOp::Add | BinOp::Sub | BinOp::Mul | BinOp::Div => ta,
        _ => Ty::Scalar(ScalarTy::Bool),
    }
}

/// Whether a unary operation accepts this operand type.
pub open spec fn unop_ok(op: UnOp, ta: Ty) -> bool {
    match op {
        UnOp::Neg => ta.spec_is_numeric(),
        UnOp::Not => ta == Ty::Scalar(ScalarTy::Bool),
    }
}

/// The type a field projection yields, when the position exists.
pub open spec fn field_proj_ty(structs: Seq<StructDefV>, base: Ty, f: int) -> Option<Ty> {
    match base {
        Ty::Struct(s) => if s < structs.len() && 0 <= f < structs[s as int].fields.len() {
            Some(structs[s as int].fields[f].ty)
        } else {
            None
        },
        Ty::Vec2(st) => if 0 <= f < 2 {
            Some(Ty::Scalar(st))
        } else {
            None
        },
        Ty::Vec3(st) => if 0 <= f < 3 {
            Some(Ty::Scalar(st))
        } else {
            None
        },
        Ty::Vec4(st) => if 0 <= f < 4 {
            Some(Ty::Scalar(st))
        } else {
            None
        },
        _ => None,
    }
}

/// Whether a builtin call accepts these argument types, and its result.
pub open spec fn call_sig(bi: Builtin, tys: Seq<Ty>) -> Option<Ty> {
    match bi {
        Builtin::Sin | Builtin::Cos | Builtin::Sqrt => if tys.len() == 1 && tys[0].spec_is_leaf()
            && tys[0].spec_component_scalar() == ScalarTy::F32 {
            Some(tys[0])
        } else {
            None
        },
        Builtin::Pow => if tys.len() == 2 && tys[0].spec_is_leaf() && tys[0].spec_component_scalar()
            == ScalarTy::F32 && tys[1] == tys[0] {
            Some(tys[0])
        } else {
            None
        },
        Builtin::Texture => if tys.len() == 2 && (tys[0] matches Ty::Sampler2d(st) && tys[1]
            == Ty::Vec2(ScalarTy::F32)) {
            Some(Ty::Vec4(tys[0]->Sampler2d_0))
        } else {
            None
        },
        Builtin::MakeVec2 => if tys.len() == 2 && (tys[0] matches Ty::Scalar(_)) && tys[1] == tys[0] {
            Some(Ty::Vec2(tys[0]->Scalar_0))
        } else {
            None
        },
        Builtin::MakeVec3 => if tys.len() == 3 && (tys[0] matches Ty::Scalar(_)) && tys[1] == tys[0]
            && tys[2] == tys[0] {
            Some(Ty::Vec3(tys[0]->Scalar_0))
        } else {
            None
        },
        Builtin::MakeVec4 => if tys.len() == 4 && (tys[0] matches Ty::Scalar(_)) && tys[1] == tys[0]
            && tys[2] == tys[0] && tys[3] == tys[0] {
            Some(Ty::Vec4(tys[0]->Scalar_0))
        } else {
            None
        },
    }
}

/// The semantic types of a node index list.
pub open spec fn arg_tys(g: Seq<NodeV>, args: Seq<usize>) -> Seq<Ty> {
    Seq::new(args.len(), |k: int| g[args[k] as int].ty)
}

/// Number of arguments each builtin takes.
pub open spec fn builtin_arity(bi: Builtin) -> int {
    match bi {
        Builtin::Sin | Builtin::Cos | Builtin::Sqrt => 1,
        Builtin::Pow | Builtin::Texture | Builtin::MakeVec2 => 2,
        Builtin::MakeVec3 => 3,
        Builtin::MakeVec4 => 4,
    }
}

/// A scalar or vector of 32-bit floats.
pub open spec fn f32_leaf(t: Ty) -> bool {
    t.spec_is_leaf() && t.spec_component_scalar() == ScalarTy::F32
}

/// The first argument type among `tys[1..k]` that disagrees with
/// `tys[0]`, if any.
pub open spec fn first_mismatch(tys: Seq<Ty>, k: int) -> Option<Ty>
    decreases k,
{
    if k <= 1 {
        None
    } else if first_mismatch(tys, k - 1) is Some {
        first_mismatch(tys, k - 1)
    } else if tys[k - 1] != tys[0] {
        Some(tys[k - 1])
    } else {
        None
    }
}

/// The fault a builtin call reports for an argument type list, if any:
/// wrong arity first, then the offending operand or the first pair of
/// mismatched types.
pub open spec fn call_fault(bi: Builtin, tys: Seq<Ty>) -> Option<TraceError> {
    if tys.len() != builtin_arity(bi) {
        Some(
            TraceError::BadArity { expected: builtin_arity(bi) as usize, got: tys.len() as usize },
        )
    } else {
        match bi {
            Builtin::Sin | Builtin::Cos | Builtin::Sqrt => if f32_leaf(tys[0]) {
                None
            } else {
                Some(TraceError::BadOperandType(tys[0]))
            },
            Builtin::Pow => if !f32_leaf(tys[0]) {
                Some(TraceError::BadOperandType(tys[0]))
            } else if tys[1] != tys[0] {
                Some(TraceError::TypeMismatch { left: tys[0], right: tys[1] })
            } else {
                None
            },
            Builtin::Texture => match tys[0] {
                Ty::Sampler2d(_) => if tys[1] != Ty::Vec2(ScalarTy::F32) {
                    Some(TraceError::BadOperandType(tys[1]))
                } else {
                    None
                },
                _ => Some(TraceError::BadOperandType(tys[0])),
            },
            Builtin::MakeVec2 | Builtin::MakeVec3 | Builtin::MakeVec4 => match tys[0] {
                Ty::Scalar(_) => match first_mismatch(tys, tys.len() as int) {
                    Some(t) => Some(TraceError::TypeMismatch { left: tys[0], right: t }),
                    None => None,
                },
                _ => Some(TraceError::BadOperandType(tys[0])),
            },
        }
    }
}

/// The fault a struct constructor reports among its first `k` argument
/// types, scanning in field order.
pub open spec fn ctor_field_fault(
    structs: Seq<StructDefV>,
    s: int,
    tys: Seq<Ty>,
    k: int,
) -> Option<TraceError>
    decreases tys.len() - k,
        when 0 <= k <= tys.len()
{
    if k >= tys.len() {
        None
    } else if tys[k] != structs[s].fields[k].ty {
        Some(TraceError::TypeMismatch { left: structs[s].fields[k].ty, right: tys[k] })
    } else {
        ctor_field_fault(structs, s, tys, k + 1)
    }
}

/// The fault a struct constructor reports for an argument type list, if
/// any.
pub open spec fn ctor_fault(structs: Seq<StructDefV>, s: usize, tys: Seq<Ty>) -> Option<
    TraceError,
> {
    if s >= structs.len() {
        Some(TraceError::BadOperandType(Ty::Struct(s)))
    } else if tys.len() != structs[s as int].fields.len() {
        Some(
            TraceError::BadArity {
                expected: structs[s as int].fields.len() as usize,
                got: tys.len() as usize,
            },
        )
    } else {
        ctor_field_fault(structs, s as int, tys, 0)
    }
}

/// A type an input placeholder or discard sentinel may carry: any type
/// resolvable in the registry.
pub open spec fn input_ty_ok(structs: Seq<StructDefV>, ty: Ty) -> bool {
    match ty {
        Ty::Struct(i) => i < structs.len(),
        _ => true,
    }
}

/// Well-typedness of node `i` against the nodes before it: operands point
/// strictly earlier and the node's type is the one its operation yields.
pub open spec fn node_wf(structs: Seq<StructDefV>, g: Seq<NodeV>, i: int) -> bool {
    match g[i].op {
        OpV::ConstBool(_) => g[i].ty == Ty::Scalar(ScalarTy::Bool),
        OpV::ConstF32Bits(_) => g[i].ty == Ty::Scalar(ScalarTy::F32),
        OpV::ConstI32(_) => g[i].ty == Ty::Scalar(ScalarTy::I32),
        OpV::ConstU32(_) => g[i].ty == Ty::Scalar(ScalarTy::U32),
        OpV::Input(_) => input_ty_ok(structs, g[i].ty),
        OpV::Unary(op, a) => a < i && unop_ok(op, g[a as int].ty) && g[i].ty == g[a as int].ty,
        OpV::Binary(op, a, b) => a < i && b < i && binop_ok(op, g[a as int].ty, g[b as int].ty)
            && g[i].ty == binop_result(op, g[a as int].ty),
        OpV::Field(b, f) => b < i && field_proj_ty(structs, g[b as int].ty, f as int) == Some(
            g[i].ty,
        ),
        OpV::Call(bi, args) => (forall|k: int| 0 <= k < args.len() ==> #[trigger] args[k] < i)
            && call_sig(bi, Seq::new(args.len(), |k: int| g[args[k] as int].ty)) == Some(g[i].ty),
        OpV::Branch(c, t, e) => c < i && t < i && e < i && g[c as int].ty == Ty::Scalar(
            ScalarTy::Bool,
        ) && g[t as int].ty == g[i].ty && g[e as int].ty == g[i].ty,
        OpV::StructCtor(s, args) => s < structs.len() && args.len() == structs[
            s as int
        ].fields.len() && (forall|k: int| 0 <= k < args.len() ==> #[trigger] args[k] < i) && (
        forall|k: int|
            0 <= k < args.len() ==> g[#[trigger] args[k] as int].ty == structs[
                s as int
            ].fields[k].ty) && g[i].ty == Ty::Struct(s),
        OpV::Discard => input_ty_ok(structs, g[i].ty),
    }
}

/// Well-typedness of a whole graph.
pub open spec fn wf_graph(structs: Seq<StructDefV>, g: Seq<NodeV>) -> bool {
    forall|i: int| 0 <= i < g.len() ==> node_wf(structs, g, i)
}

/// An append-only expression graph. Node indices are handles; they are
/// valid only for the trace that created them.
pub struct Graph {
    nodes: Vec<Node>,
}

impl View for Graph {
    type V = Seq<NodeV>;

    closed spec fn view(&self) -> Seq<NodeV> {
        self.nodes@.map_values(|n: Node| n@)
    }
}

/// A node appended to a well-typed graph, itself well typed against it,
/// keeps the whole graph well typed.
pub proof fn lemma_wf_push(structs: Seq<StructDefV>, g: Seq<NodeV>, n: NodeV)
    requires
        wf_graph(structs, g),
        node_wf(structs, g.push(n), g.len() as int),
    ensures
        wf_graph(structs, g.push(n)),
{
    assert forall|i: int| 0 <= i < g.push(n).len() implies node_wf(structs, g.push(n), i) by {
        if i < g.len() {
            assert(node_wf(structs, g, i));
            match g[i].op {
                OpV::Call(bi, args) => {
                    assert(Seq::new(args.len(), |k: int| g.push(n)[args[k] as int].ty) =~= Seq::new(
                        args.len(),
                        |k: int| g[args[k] as int].ty,
                    ));
                },
                _ => {},
            }
            assert(node_wf(structs, g.push(n), i));
        }
    }
}

impl Graph {
    /// The graph is well typed against the registry's structs.
    pub open spec fn wf(&self, structs: Seq<StructDefV>) -> bool {
        wf_graph(structs, self@)
    }

    /// An empty graph for one trace.
    pub fn new() -> (g: Graph)
        ensures
            g@.len() == 0,
    {
        Graph { nodes: Vec::new() }
    }

    /// Number of nodes recorded so far.
    pub fn len(&self) -> (n: usize)
        ensures
            n == self@.len(),
    {
        self.nodes.len()
    }

    /// The node recorded at `i`.
    pub fn node(&self, i: usize) -> (n: &Node)
        requires
            i < self@.len(),
        ensures
            n@ == self@[i as int],
    {
        &self.nodes[i]
    }

    /// The semantic type of a node.
    pub fn node_ty(&self, i: usize) -> (t: Ty)
        requires
            i < self@.len(),
        ensures
            t == self@[i as int].ty,
    {
        self.nodes[i].ty
    }

    /// Appends one node; internal helper shared by every builder.
    fn push_node(&mut self, n: Node) -> (i: usize)
        ensures
            final(self)@ == old(self)@.push(n@),
            i == old(self)@.len(),
    {
        let i = self.nodes.len();
        self.nodes.push(n);
        proof {
            assert(final(self)@ =~= old(self)@.push(n@));
        }
        i
    }

    /// Records a boolean literal.
    pub fn const_bool(&mut self, reg: &Registry, v: bool) -> (i: usize)
        requires
            old(self).wf(reg@.structs),
        ensures
            final(self).wf(reg@.structs),
            i == old(self)@.len(),
            final(self)@ == old(self)@.push(
                NodeV { op: OpV::ConstBool(v), ty: Ty::Scalar(ScalarTy::Bool) },
            ),
    {
        let ghost structs = reg@.structs;
        let i = self.push_node(Node { op: Op::ConstBool(v), ty: Ty::Scalar(ScalarTy::Bool) });
        proof {
            lemma_wf_push(structs, old(self)@, self@[i as int]);
        }
        i
    }

    /// Records a float literal by its IEEE-754 bit pattern.
    pub fn const_f32_bits(&mut self, reg: &Registry, bits: u32) -> (i: usize)
        requires
            old(self).wf(reg@.structs),
        ensures
            final(self).wf(reg@.structs),
            i == old(self)@.len(),
            final(self)@ == old(self)@.push(
                NodeV { op: OpV::ConstF32Bits(bits), ty: Ty::Scalar(ScalarTy::F32) },
            ),
    {
        let ghost structs = reg@.structs;
        let i = self.push_node(Node { op: Op::ConstF32Bits(bits), ty: Ty::Scalar(ScalarTy::F32) });
        proof {
            lemma_wf_push(structs, old(self)@, self@[i as int]);
        }
        i
    }

    /// Records a signed integer literal.
    pub fn const_i32(&mut self, reg: &Registry, v: i32) -> (i: usize)
        requires
            old(self).wf(reg@.structs),
        ensures
            final(self).wf(reg@.structs),
            i == old(self)@.len(),
            final(self)@ == old(self)@.push(
                NodeV { op: OpV::ConstI32(v), ty: Ty::Scalar(ScalarTy::I32) },
            ),
    {
        let ghost structs = reg@.structs;
        let i = self.push_node(Node { op: Op::ConstI32(v), ty: Ty::Scalar(ScalarTy::I32) });
        proof {
            lemma_wf_push(structs, old(self)@, self@[i as int]);
        }
        i
    }

    /// Records an unsigned integer literal.
    pub fn const_u32(&mut self, reg: &Registry, v: u32) -> (i: usize)
        requires
            old(self).wf(reg@.structs),
        ensures
            final(self).wf(reg@.structs),
            i == old(self)@.len(),
            final(self)@ == old(self)@.push(
                NodeV { op: OpV::ConstU32(v), ty: Ty::Scalar(ScalarTy::U32) },
            ),
    {
        let ghost structs = reg@.structs;
        let i = self.push_node(Node { op: Op::ConstU32(v), ty: Ty::Scalar(ScalarTy::U32) });
        proof {
            lemma_wf_push(structs, old(self)@, self@[i as int]);
        }
        i
    }

    /// Records an interface input placeholder at a dotted path.
    pub fn input(&mut self, reg: &Registry, path: String, ty: Ty) -> (r: Result<usize, TraceError>)
        requires
            old(self).wf(reg@.structs),
        ensures
            final(self).wf(reg@.structs),
            match r {
                Ok(i) => {
                    &&& input_ty_ok(reg@.structs, ty)
                    &&& i == old(self)@.len()
                    &&& final(self)@ == old(self)@.push(NodeV { op: OpV::Input(path@), ty })
                },
                Err(e) => {
                    &&& !input_ty_ok(reg@.structs, ty)
                    &&& e == TraceError::BadOperandType(ty)
                    &&& final(self)@ == old(self)@
                },
            },
    {
        let ghost structs = reg@.structs;
        let ok = match ty {
            Ty::Struct(s) => s < reg.struct_count(),
            _ => true,
        };
        if !ok {
            return Err(TraceError::BadOperandType(ty));
        }
        let i = self.push_node(Node { op: Op::Input(path), ty });
        proof {
            lemma_wf_push(structs, old(self)@, self@[i as int]);
        }
        Ok(i)
    }

    /// Records the discard sentinel at a type.
    pub fn discard(&mut self, reg: &Registry, ty: Ty) -> (r: Result<usize, TraceError>)
        requires
            old(self).wf(reg@.structs),
        ensures
            final(self).wf(reg@.structs),
            match r {
                Ok(i) => {
                    &&& input_ty_ok(reg@.structs, ty)
                    &&& i == old(self)@.len()
                    &&& final(self)@ == old(self)@.push(NodeV { op: OpV::Discard, ty })
                },
                Err(e) => {
                    &&& !input_ty_ok(reg@.structs, ty)
                    &&& e == TraceError::BadOperandType(ty)
                    &&& final(self)@ == old(self)@
                },
            },
    {
        let ghost structs = reg@.structs;
        let ok = match ty {
            Ty::Struct(s) => s < reg.struct_count(),
            _ => true,
        };
        if !ok {
            return Err(TraceError::BadOperandType(ty));
        }
        let i = self.push_node(Node { op: Op::Discard, ty });
        proof {
            lemma_wf_push(structs, old(self)@, self@[i as int]);
        }
        Ok(i)
    }

    /// Records a unary operation. Succeeds exactly when the operand type
    /// supports the operation.
    pub fn unary(&mut self, reg: &Registry, op: UnOp, a: usize) -> (r: Result<usize, TraceError>)
        requires
            old(self).wf(reg@.structs),
            a < old(self)@.len(),
        ensures
            final(self).wf(reg@.structs),
            match r {
                Ok(i) => {
                    &&& unop_ok(op, old(self)@[a as int].ty)
                    &&& i == old(self)@.len()
                    &&& final(self)@ == old(self)@.push(
                        NodeV { op: OpV::Unary(op, a), ty: old(self)@[a as int].ty },
                    )
                },
                Err(e) => {
                    &&& !unop_ok(op, old(self)@[a as int].ty)
                    &&& e == TraceError::BadOperandType(old(self)@[a as int].ty)
                    &&& final(self)@ == old(self)@
                },
            },
    {
        let ghost structs = reg@.structs;
        let ta = self.nodes[a].ty;
        assert(ta == self@[a as int].ty);
        let ok = match op {
            UnOp::Neg => ta.is_numeric(),
            UnOp::Not => matches!(ta, Ty::Scalar(ScalarTy::Bool)),
        };
        if !ok {
            return Err(TraceError::BadOperandType(ta));
        }
        let i = self.push_node(Node { op: Op::Unary(op, a), ty: ta });
        proof {
            lemma_wf_push(structs, old(self)@, self@[i as int]);
        }
        Ok(i)
    }

    /// Records a binary operation. Succeeds exactly when both operand
    /// types agree and support the operation; otherwise reports a
    /// [`TraceError::TypeMismatch`] naming both types.
    pub fn binary(&mut self, reg: &Registry, op: BinOp, a: usize, b: usize) -> (r: Result<
        usize,
        TraceError,
    >)
        requires
            old(self).wf(reg@.structs),
            a < old(self)@.len(),
            b < old(self)@.len(),
        ensures
            final(self).wf(reg@.structs),
            match r {
                Ok(i) => {
                    &&& binop_ok(op, old(self)@[a as int].ty, old(self)@[b as int].ty)
                    &&& i == old(self)@.len()
                    &&& final(self)@ == old(self)@.push(
                        NodeV {
                            op: OpV::Binary(op, a, b),
                            ty: binop_result(op, old(self)@[a as int].ty),
                        },
                    )
                },
                Err(e) => {
                    &&& !binop_ok(op, old(self)@[a as int].ty, old(self)@[b as int].ty)
                    &&& e == TraceError::TypeMismatch {
                        left: old(self)@[a as int].ty,
                        right: old(self)@[b as int].ty,
                    }
                    &&& final(self)@ == old(self)@
                },
            },
    {
        let ghost structs = reg@.structs;
        let ta = self.nodes[a].ty;
        let tb = self.nodes[b].ty;
        assert(ta == self@[a as int].ty && tb == self@[b as int].ty);
        let ok = match op {
            BinOp::Add | BinOp::Sub | BinOp::Mul | BinOp::Div => tb == ta && ta.is_numeric(),
            BinOp::And | BinOp::Or => matches!(ta, Ty::Scalar(ScalarTy::Bool)) && tb == ta,
            BinOp::Eq | BinOp::Ne => tb == ta && matches!(ta, Ty::Scalar(_)),
            BinOp::Lt | BinOp::Le | BinOp::Gt | BinOp::Ge => tb == ta && match ta {
                Ty::Scalar(s) => s != ScalarTy::Bool,
                _ => false,
            },
        };
        if !ok {
            return Err(TraceError::TypeMismatch { left: ta, right: tb });
        }
        let rty = match op {
            BinOp::Add | BinOp::Sub | BinOp::Mul | BinOp::Div => ta,
            _ => Ty::Scalar(ScalarTy::Bool),
        };
        let i = self.push_node(Node { op: Op::Binary(op, a, b), ty: rty });
        proof {
            lemma_wf_push(structs, old(self)@, self@[i as int]);
        }
        Ok(i)
    }

    /// Records a field or component projection by position.
    pub fn field(&mut self, reg: &Registry, b: usize, f: usize) -> (r: Result<usize, TraceError>)
        requires
            reg.wf(),
            old(self).wf(reg@.structs),
            b < old(self)@.len(),
        ensures
            final(self).wf(reg@.structs),
            match r {
                Ok(i) => {
                    &&& field_proj_ty(reg@.structs, old(self)@[b as int].ty, f as int) is Some
                    &&& i == old(self)@.len()
                    &&& final(self)@ == old(self)@.push(
                        NodeV {
                            op: OpV::Field(b, f),
                            ty: field_proj_ty(
                                reg@.structs,
                                old(self)@[b as int].ty,
                                f as int,
                            )->Some_0,
                        },
                    )
                },
                Err(e) => {
                    &&& field_proj_ty(reg@.structs, old(self)@[b as int].ty, f as int) is None
                    &&& e == TraceError::NoSuchField { base: old(self)@[b as int].ty, index: f }
                    &&& final(self)@ == old(self)@
                },
            },
    {
        let ghost structs = reg@.structs;
        let tb = self.nodes[b].ty;
        assert(tb == self@[b as int].ty);
        let fty: Option<Ty> = match tb {
            Ty::Struct(s) => {
                if s < reg.struct_count() {
                    let d = reg.struct_def(s);
                    if f < d.fields.len() {
                        Some(d.fields[f].ty)
                    } else {
                        None
                    }
                } else {
                    None
                }
            },
            Ty::Vec2(st) => if f < 2 {
                Some(Ty::Scalar(st))
            } else {
                None
            },
            Ty::Vec3(st) => if f < 3 {
                Some(Ty::Scalar(st))
            } else {
                None
            },
            Ty::Vec4(st) => if f < 4 {
                Some(Ty::Scalar(st))
            } else {
                None
            },
            _ => None,
        };
        match fty {
            Some(t) => {
                assert(field_proj_ty(structs, tb, f as int) == Some(t));
                let i = self.push_node(Node { op: Op::Field(b, f), ty: t });
                proof {
                    lemma_wf_push(structs, old(self)@, self@[i as int]);
                }
                Ok(i)
            },
            None => Err(TraceError::NoSuchField { base: tb, index: f }),
        }
    }

    /// Records a call of a built-in function. Succeeds exactly when the
    /// argument list matches the builtin's signature; the fault names the
    /// arity or the offending types as [`call_fault`] does.
    pub fn call(&mut self, reg: &Registry, bi: Builtin, args: Vec<usize>) -> (r: Result<
        usize,
        TraceError,
    >)
        requires
            old(self).wf(reg@.structs),
            forall|k: int| 0 <= k < args@.len() ==> #[trigger] args@[k] < old(self)@.len(),
        ensures
            final(self).wf(reg@.structs),
            match r {
                Ok(i) => {
                    &&& call_fault(bi, arg_tys(old(self)@, args@)) is None
                    &&& call_sig(bi, arg_tys(old(self)@, args@)) is Some
                    &&& i == old(self)@.len()
                    &&& final(self)@ == old(self)@.push(
                        NodeV {
                            op: OpV::Call(bi, args@),
                            ty: call_sig(bi, arg_tys(old(self)@, args@))->Some_0,
                        },
                    )
                },
                Err(e) => {
                    &&& Some(e) == call_fault(bi, arg_tys(old(self)@, args@))
                    &&& final(self)@ == old(self)@
                },
            },
    {
        let ghost structs = reg@.structs;
        let ghost tys = arg_tys(self@, args@);
        let expected: usize = match bi {
            Builtin::Sin | Builtin::Cos | Builtin::Sqrt => 1,
            Builtin::Pow | Builtin::Texture | Builtin::MakeVec2 => 2,
            Builtin::MakeVec3 => 3,
            Builtin::MakeVec4 => 4,
        };
        if args.len() != expected {
            return Err(TraceError::BadArity { expected, got: args.len() });
        }
        let t0 = self.nodes[args[0]].ty;
        assert(t0 == tys[0]);
        let rty: Result<Ty, TraceError> = match bi {
            Builtin::Sin | Builtin::Cos | Builtin::Sqrt => {
                if t0.is_leaf() && matches!(t0.component_scalar(), ScalarTy::F32) {
                    Ok(t0)
                } else {
                    Err(TraceError::BadOperandType(t0))
                }
            },
            Builtin::Pow => {
                let t1 = self.nodes[args[1]].ty;
                assert(t1 == tys[1]);
                if !(t0.is_leaf() && matches!(t0.component_scalar(), ScalarTy::F32)) {
                    Err(TraceError::BadOperandType(t0))
                } else if t1 != t0 {
                    Err(TraceError::TypeMismatch { left: t0, right: t1 })
                } else {
                    Ok(t0)
                }
            },
            Builtin::Texture => {
                let t1 = self.nodes[args[1]].ty;
                assert(t1 == tys[1]);
                match t0 {
                    Ty::Sampler2d(st) => {
                        if t1 != Ty::Vec2(ScalarTy::F32) {
                            Err(TraceError::BadOperandType(t1))
                        } else {
                            Ok(Ty::Vec4(st))
                        }
                    },
                    _ => Err(TraceError::BadOperandType(t0)),
                }
            },
            Builtin::MakeVec2 | Builtin::MakeVec3 | Builtin::MakeVec4 => {
                match t0 {
                    Ty::Scalar(st) => {
                        let mut k: usize = 1;
                        let mut bad: Option<Ty> = None;
                        while k < args.len()
                            invariant
                                1 <= k <= args@.len(),
                                args@.len() <= 4,
                                forall|k2: int|
                                    0 <= k2 < args@.len() ==> #[trigger] args@[k2] < self@.len(),
                                tys == arg_tys(self@, args@),
                                t0 == tys[0],
                                bad is None <==> forall|k2: int| 1 <= k2 < k ==> #[trigger] tys[k2] == tys[0],
                                bad is Some ==> Some(bad->0) == first_mismatch(tys, k as int),
                                bad is None ==> first_mismatch(tys, k as int) is None,
                            decreases args@.len() - k,
                        {
                            let tk = self.nodes[args[k]].ty;
                            assert(tk == tys[k as int]);
                            if bad.is_none() && tk != t0 {
                                bad = Some(tk);
                                assert(Some(tk) == first_mismatch(tys, k as int + 1));
                            }
                            k = k + 1;
                        }
                        match bad {
                            Some(tk) => Err(TraceError::TypeMismatch { left: t0, right: tk }),
                            None => {
                                let vt = match bi {
                                    Builtin::MakeVec2 => Ty::Vec2(st),
                                    Builtin::MakeVec3 => Ty::Vec3(st),
                                    _ => Ty::Vec4(st),
                                };
                                Ok(vt)
                            },
                        }
                    },
                    _ => Err(TraceError::BadOperandType(t0)),
                }
            },
        };
        match rty {
            Ok(t) => {
                assert(call_sig(bi, tys) == Some(t));
                assert(call_fault(bi, tys) is None);
                let i = self.push_node(Node { op: Op::Call(bi, args), ty: t });
                proof {
                    assert(arg_tys(old(self)@, self@[i as int].op->Call_1) =~= tys);
                    assert(node_wf(structs, self@, i as int)) by {
                        assert(Seq::new(
                            self@[i as int].op->Call_1.len(),
                            |k: int| self@[self@[i as int].op->Call_1[k] as int].ty,
                        ) =~= tys);
                    }
                    lemma_wf_push(structs, old(self)@, self@[i as int]);
                }
                Ok(i)
            },
            Err(e) => {
                assert(Some(e) == call_fault(bi, tys));
                Err(e)
            },
        }
    }

    /// Records construction of a struct value from per-field operands.
    /// Succeeds exactly when the argument count and types match the
    /// schema's fields in order.
    pub fn struct_ctor(&mut self, reg: &Registry, s: usize, args: Vec<usize>) -> (r: Result<
        usize,
        TraceError,
    >)
        requires
            reg.wf(),
            old(self).wf(reg@.structs),
            forall|k: int| 0 <= k < args@.len() ==> #[trigger] args@[k] < old(self)@.len(),
        ensures
            final(self).wf(reg@.structs),
            match r {
                Ok(i) => {
                    &&& ctor_fault(reg@.structs, s, arg_tys(old(self)@, args@)) is None
                    &&& i == old(self)@.len()
                    &&& final(self)@ == old(self)@.push(
                        NodeV { op: OpV::StructCtor(s, args@), ty: Ty::Struct(s) },
                    )
                },
                Err(e) => {
                    &&& Some(e) == ctor_fault(reg@.structs, s, arg_tys(old(self)@, args@))
                    &&& final(self)@ == old(self)@
                },
            },
    {
        let ghost structs = reg@.structs;
        let ghost tys = arg_tys(self@, args@);
        if s >= reg.struct_count() {
            return Err(TraceError::BadOperandType(Ty::Struct(s)));
        }
        let d = reg.struct_def(s);
        if args.len() != d.fields.len() {
            return Err(
                TraceError::BadArity { expected: d.fields.len(), got: args.len() },
            );
        }
        let mut k: usize = 0;
        while k < args.len()
            invariant
                self.wf(reg@.structs),
                structs == reg@.structs,
                s < structs.len(),
                d@ == structs[s as int],
                d.fields@.len() == structs[s as int].fields.len(),
                args@.len() == structs[s as int].fields.len(),
                forall|k2: int| 0 <= k2 < args@.len() ==> #[trigger] args@[k2] < self@.len(),
                tys == arg_tys(self@, args@),
                0 <= k <= args@.len(),
                forall|k2: int| 0 <= k2 < k ==> tys[k2] == structs[s as int].fields[k2].ty,
                ctor_field_fault(structs, s as int, tys, 0) == ctor_field_fault(
                    structs,
                    s as int,
                    tys,
                    k as int,
                ),
            decreases args@.len() - k,
        {
            let tk = self.nodes[args[k]].ty;
            assert(tk == tys[k as int]);
            let want = d.fields[k].ty;
            assert(want == structs[s as int].fields[k as int].ty);
            if tk != want {
                return Err(TraceError::TypeMismatch { left: want, right: tk });
            }
            k = k + 1;
        }
        let i = self.push_node(Node { op: Op::StructCtor(s, args), ty: Ty::Struct(s) });
        proof {
            assert(node_wf(structs, self@, i as int)) by {
                let pushed_args = self@[i as int].op->StructCtor_1;
                assert(pushed_args == args@);
                assert forall|k2: int| 0 <= k2 < pushed_args.len() implies self@[
                    #[trigger] pushed_args[k2] as int
                ].ty == structs[s as int].fields[k2].ty by {
                    assert(self@[args@[k2] as int] == old(self)@[args@[k2] as int]);
                    assert(tys[k2] == old(self)@[args@[k2] as int].ty);
                }
            }
            lemma_wf_push(structs, old(self)@, self@[i as int]);
        }
        Ok(i)
    }

    /// Records a value-select node. Succeeds exactly when the predicate is
    /// boolean and both branches carry one common type — a mismatch is a
    /// fault, never a coercion.
    pub fn branch(&mut self, reg: &Registry, c: usize, t: usize, e: usize) -> (r: Result<
        usize,
        TraceError,
    >)
        requires
            old(self).wf(reg@.structs),
            c < old(self)@.len(),
            t < old(self)@.len(),
            e < old(self)@.len(),
        ensures
            final(self).wf(reg@.structs),
            match r {
                Ok(i) => {
                    &&& old(self)@[c as int].ty == Ty::Scalar(ScalarTy::Bool)
                    &&& old(self)@[t as int].ty == old(self)@[e as int].ty
                    &&& i == old(self)@.len()
                    &&& final(self)@ == old(self)@.push(
                        NodeV { op: OpV::Branch(c, t, e), ty: old(self)@[t as int].ty },
                    )
                },
                Err(err) => {
                    &&& !(old(self)@[c as int].ty == Ty::Scalar(ScalarTy::Bool) && old(
                        self,
                    )@[t as int].ty == old(self)@[e as int].ty)
                    &&& err == (if old(self)@[c as int].ty != Ty::Scalar(ScalarTy::Bool) {
                        TraceError::BadOperandType(old(self)@[c as int].ty)
                    } else {
                        TraceError::TypeMismatch {
                            left: old(self)@[t as int].ty,
                            right: old(self)@[e as int].ty,
                        }
                    })
                    &&& final(self)@ == old(self)@
                },
            },
    {
        let ghost structs = reg@.structs;
        let tc = self.nodes[c].ty;
        let tt = self.nodes[t].ty;
        let te = self.nodes[e].ty;
        assert(tc == self@[c as int].ty && tt == self@[t as int].ty && te == self@[e as int].ty);
        if !matches!(tc, Ty::Scalar(ScalarTy::Bool)) {
            return Err(TraceError::BadOperandType(tc));
        }
        if tt != te {
            return Err(TraceError::TypeMismatch { left: tt, right: te });
        }
        let i = self.push_node(Node { op: Op::Branch(c, t, e), ty: tt });
        proof {
            lemma_wf_push(structs, old(self)@, self@[i as int]);
        }
        Ok(i)
    }
}

} // verus!
