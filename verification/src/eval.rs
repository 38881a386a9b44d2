//! Host-domain evaluation of expression graphs.
//!
//! The specification [`eval_node`] gives each node its mathematical value
//! on concrete inputs: integer arithmetic wraps at 32 bits, the value
//! select takes the branch its predicate names, and the discard sentinel
//! has no value. Operations the host cannot decide exactly — float
//! arithmetic, transcendental calls, texture reads — evaluate to `None`
//! and stay symbolic.
//!
//! The executable [`eval_graph`] computes node values in arena index
//! order — exactly the order the code generator emits one statement per
//! node — so its contract, result equal to [`eval_node`], is the
//! cross-domain consistency statement: running the generated statement
//! sequence agrees with the host-domain meaning of the graph.

use vstd::prelude::*;

use crate::expr::{wf_graph, BinOp, Builtin, Graph, NodeV, OpV, UnOp};
use crate::pod::{kinds_of, HostScalar};
use crate::schema::{leaf_scalars, Registry, StructDefV};
use crate::ty::{ScalarTy, Ty};

verus! {

/// One concrete interface input: a dotted path and the scalar leaves of
/// its value.
pub struct InputValue {
    pub path: String,
    pub scalars: Vec<HostScalar>,
}

impl View for InputValue {
    type V = (Seq<char>, Seq<HostScalar>);

    open spec fn view(&self) -> (Seq<char>, Seq<HostScalar>) {
        (self.path@, self.scalars@)
    }
}

/// First-match lookup of a path in an input environment.
pub open spec fn env_lookup(env: Seq<(Seq<char>, Seq<HostScalar>)>, p: Seq<char>) -> Option<
    Seq<HostScalar>,
>
    decreases env.len(),
{
    if env.len() == 0 {
        None
    } else if env[0].0 == p {
        Some(env[0].1)
    } else {
        env_lookup(env.drop_first(), p)
    }
}

/// Two's-complement magnitude of a signed 32-bit value.
pub open spec fn spec_abs_u32(x: i32) -> u32 {
    if x >= 0 {
        x as u32
    } else if x == i32::MIN {
        0x8000_0000u32
    } else {
        (-x) as u32
    }
}

/// Truncated signed division, defined except for zero divisors and the
/// one overflowing quotient.
pub open spec fn spec_i32_div(x: i32, y: i32) -> Option<HostScalar> {
    if y == 0 || (x == i32::MIN && y == -1) {
        None
    } else {
        let q = spec_abs_u32(x) as int / spec_abs_u32(y) as int;
        if (x < 0) != (y < 0) {
            Some(HostScalar::I32((-q) as i32))
        } else {
            Some(HostScalar::I32(q as i32))
        }
    }
}

/// The value of one binary operation on two scalar leaves, where the host
/// can decide it exactly. Integer arithmetic wraps at 32 bits; float
/// arithmetic and float comparison stay symbolic.
pub open spec fn spec_bin_scalar(op: BinOp, x: HostScalar, y: HostScalar) -> Option<HostScalar> {
    match (op, x, y) {
        (BinOp::Add, HostScalar::U32(a), HostScalar::U32(b)) => Some(
            HostScalar::U32(a.wrapping_add(b)),
        ),
        (BinOp::Sub, HostScalar::U32(a), HostScalar::U32(b)) => Some(
            HostScalar::U32(a.wrapping_sub(b)),
        ),
        (BinOp::Mul, HostScalar::U32(a), HostScalar::U32(b)) => Some(
            HostScalar::U32(a.wrapping_mul(b)),
        ),
        (BinOp::Div, HostScalar::U32(a), HostScalar::U32(b)) => if b == 0 {
            None
        } else {
            Some(HostScalar::U32(a / b))
        },
        (BinOp::Add, HostScalar::I32(a), HostScalar::I32(b)) => Some(
            HostScalar::I32(a.wrapping_add(b)),
        ),
        (BinOp::Sub, HostScalar::I32(a), HostScalar::I32(b)) => Some(
            HostScalar::I32(a.wrapping_sub(b)),
        ),
        (BinOp::Mul, HostScalar::I32(a), HostScalar::I32(b)) => Some(
            HostScalar::I32(a.wrapping_mul(b)),
        ),
        (BinOp::Div, HostScalar::I32(a), HostScalar::I32(b)) => spec_i32_div(a, b),
        (BinOp::And, HostScalar::Bool(a), HostScalar::Bool(b)) => Some(HostScalar::Bool(a && b)),
        (BinOp::Or, HostScalar::Bool(a), HostScalar::Bool(b)) => Some(HostScalar::Bool(a || b)),
        (BinOp::Eq, HostScalar::U32(a), HostScalar::U32(b)) => Some(HostScalar::Bool(a == b)),
        (BinOp::Eq, HostScalar::I32(a), HostScalar::I32(b)) => Some(HostScalar::Bool(a == b)),
        (BinOp::Eq, HostScalar::Bool(a), HostScalar::Bool(b)) => Some(HostScalar::Bool(a == b)),
        (BinOp::Ne, HostScalar::U32(a), HostScalar::U32(b)) => Some(HostScalar::Bool(a != b)),
        (BinOp::Ne, HostScalar::I32(a), HostScalar::I32(b)) => Some(HostScalar::Bool(a != b)),
        (BinOp::Ne, HostScalar::Bool(a), HostScalar::Bool(b)) => Some(HostScalar::Bool(a != b)),
        (BinOp::Lt, HostScalar::U32(a), HostScalar::U32(b)) => Some(HostScalar::Bool(a < b)),
        (BinOp::Lt, HostScalar::I32(a), HostScalar::I32(b)) => Some(HostScalar::Bool(a < b)),
        (BinOp::Le, HostScalar::U32(a), HostScalar::U32(b)) => Some(HostScalar::Bool(a <= b)),
        (BinOp::Le, HostScalar::I32(a), HostScalar::I32(b)) => Some(HostScalar::Bool(a <= b)),
        (BinOp::Gt, HostScalar::U32(a), HostScalar::U32(b)) => Some(HostScalar::Bool(a > b)),
        (BinOp::Gt, HostScalar::I32(a), HostScalar::I32(b)) => Some(HostScalar::Bool(a > b)),
        (BinOp::Ge, HostScalar::U32(a), HostScalar::U32(b)) => Some(HostScalar::Bool(a >= b)),
        (BinOp::Ge, HostScalar::I32(a), HostScalar::I32(b)) => Some(HostScalar::Bool(a >= b)),
        _ => None,
    }
}

/// The value of one unary operation on a scalar leaf.
pub open spec fn spec_un_scalar(op: UnOp, x: HostScalar) -> Option<HostScalar> {
    match (op, x) {
        (UnOp::Neg, HostScalar::U32(a)) => Some(HostScalar::U32(0u32.wrapping_sub(a))),
        (UnOp::Neg, HostScalar::I32(a)) => Some(HostScalar::I32(0i32.wrapping_sub(a))),
        (UnOp::Not, HostScalar::Bool(a)) => Some(HostScalar::Bool(!a)),
        _ => None,
    }
}

/// Componentwise unary evaluation: defined only when every component is.
pub open spec fn spec_un_value(op: UnOp, v: Seq<HostScalar>) -> Option<Seq<HostScalar>> {
    if forall|k: int| 0 <= k < v.len() ==> #[trigger] spec_un_scalar(op, v[k]) is Some {
        Some(Seq::new(v.len(), |k: int| spec_un_scalar(op, v[k])->Some_0))
    } else {
        None
    }
}

/// Componentwise binary evaluation: defined only when lengths agree and
/// every component pair is.
pub open spec fn spec_bin_value(op: BinOp, a: Seq<HostScalar>, b: Seq<HostScalar>) -> Option<
    Seq<HostScalar>,
> {
    if a.len() == b.len() && (forall|k: int|
        0 <= k < a.len() ==> #[trigger] spec_bin_scalar(op, a[k], b[k]) is Some) {
        Some(Seq::new(a.len(), |k: int| spec_bin_scalar(op, a[k], b[k])->Some_0))
    } else {
        None
    }
}

/// Scalar leaves preceding field `f` of struct `s`: the projection offset.
pub open spec fn field_scalar_offset(structs: Seq<StructDefV>, s: int, f: int) -> int {
    crate::schema::fields_leaf_scalars(structs, s, f).len() as int
}

/// The host value of node `i`: constants are themselves, inputs come from
/// the environment (checked against the node's leaf kinds), arithmetic
/// wraps at 32 bits, a branch takes the side its predicate selects, and
/// the discard sentinel, float arithmetic, transcendental calls and
/// texture reads have no host value.
pub open spec fn eval_node(
    structs: Seq<StructDefV>,
    g: Seq<NodeV>,
    env: Seq<(Seq<char>, Seq<HostScalar>)>,
    i: int,
) -> Option<Seq<HostScalar>>
    decreases i, 1int, 0int,
        when wf_graph(structs, g) && 0 <= i < g.len() && crate::expr::node_wf(structs, g, i)
{
    match g[i].op {
        OpV::ConstBool(b) => Some(seq![HostScalar::Bool(b)]),
        OpV::ConstF32Bits(x) => Some(seq![HostScalar::F32Bits(x)]),
        OpV::ConstI32(x) => Some(seq![HostScalar::I32(x)]),
        OpV::ConstU32(x) => Some(seq![HostScalar::U32(x)]),
        OpV::Input(p) => match env_lookup(env, p) {
            Some(v) => if kinds_of(v) == leaf_scalars(structs, g[i].ty) {
                Some(v)
            } else {
                None
            },
            None => None,
        },
        OpV::Unary(op, a) => match eval_node(structs, g, env, a as int) {
            Some(v) => spec_un_value(op, v),
            None => None,
        },
        OpV::Binary(op, a, b) => match (
            eval_node(structs, g, env, a as int),
            eval_node(structs, g, env, b as int),
        ) {
            (Some(va), Some(vb)) => spec_bin_value(op, va, vb),
            _ => None,
        },
        OpV::Field(b, f) => match eval_node(structs, g, env, b as int) {
            Some(v) => match g[b as int].ty {
                Ty::Struct(s) => {
                    let off = field_scalar_offset(structs, s as int, f as int);
                    let cnt = leaf_scalars(structs, g[i].ty).len() as int;
                    if 0 <= off && off + cnt <= v.len() {
                        Some(v.subrange(off, off + cnt))
                    } else {
                        None
                    }
                },
                _ => if f < v.len() {
                    Some(seq![v[f as int]])
                } else {
                    None
                },
            },
            None => None,
        },
        OpV::Call(bi, args) => match bi {
            Builtin::MakeVec2 | Builtin::MakeVec3 | Builtin::MakeVec4 => eval_concat(
                structs,
                g,
                env,
                args,
                i,
            ),
            _ => None,
        },
        OpV::Branch(c, t, e) => match eval_node(structs, g, env, c as int) {
            Some(v) => if v == seq![HostScalar::Bool(true)] {
                eval_node(structs, g, env, t as int)
            } else if v == seq![HostScalar::Bool(false)] {
                eval_node(structs, g, env, e as int)
            } else {
                None
            },
            None => None,
        },
        OpV::StructCtor(_, args) => eval_concat(structs, g, env, args, i),
        OpV::Discard => None,
    }
}

/// Concatenated evaluation of an argument list, defined only when every
/// argument is.
pub open spec fn eval_concat(
    structs: Seq<StructDefV>,
    g: Seq<NodeV>,
    env: Seq<(Seq<char>, Seq<HostScalar>)>,
    args: Seq<usize>,
    bound: int,
) -> Option<Seq<HostScalar>>
    decreases bound, 0int, args.len(),
        when wf_graph(structs, g) && 0 <= bound < g.len() && forall|k: int|
            0 <= k < args.len() ==> #[trigger] args[k] < bound
{
    if args.len() == 0 {
        Some(Seq::empty())
    } else {
        match (
            eval_concat(structs, g, env, args.drop_last(), bound),
            eval_node(structs, g, env, args.last() as int),
        ) {
            (Some(u), Some(v)) => Some(u + v),
            _ => None,
        }
    }
}

/// The mathematical value of an optional host value.
pub open spec fn opt_view(o: Option<Vec<HostScalar>>) -> Option<Seq<HostScalar>> {
    match o {
        Some(v) => Some(v@),
        None => None,
    }
}

/// If any argument has no host value, neither has the concatenation.
pub proof fn lemma_eval_concat_none(
    structs: Seq<StructDefV>,
    g: Seq<NodeV>,
    env: Seq<(Seq<char>, Seq<HostScalar>)>,
    args: Seq<usize>,
    bound: int,
    k: int,
)
    requires
        wf_graph(structs, g),
        0 <= bound < g.len(),
        forall|k2: int| 0 <= k2 < args.len() ==> #[trigger] args[k2] < bound,
        0 <= k < args.len(),
        eval_node(structs, g, env, args[k] as int) is None,
    ensures
        eval_concat(structs, g, env, args, bound) is None,
    decreases args.len(),
{
    if k == args.len() - 1 {
    } else {
        assert(args.drop_last()[k] == args[k]);
        lemma_eval_concat_none(structs, g, env, args.drop_last(), bound, k);
    }
}

/// Copies a host value.
fn copy_scalars(v: &Vec<HostScalar>) -> (out: Vec<HostScalar>)
    ensures
        out@ == v@,
{
    let mut out: Vec<HostScalar> = Vec::new();
    let mut k: usize = 0;
    while k < v.len()
        invariant
            0 <= k <= v@.len(),
            out@ == v@.take(k as int),
        decreases v@.len() - k,
    {
        out.push(v[k]);
        assert(out@ =~= v@.take(k as int + 1));
        k = k + 1;
    }
    assert(out@ =~= v@);
    out
}

/// Copies an optional host value.
fn copy_opt(o: &Option<Vec<HostScalar>>) -> (out: Option<Vec<HostScalar>>)
    ensures
        opt_view(out) == opt_view(*o),
{
    match o {
        Some(v) => Some(copy_scalars(v)),
        None => None,
    }
}

/// Executable scalar kind.
fn kind_of(x: HostScalar) -> (k: ScalarTy)
    ensures
        k == x.kind(),
{
    match x {
        HostScalar::Bool(_) => ScalarTy::Bool,
        HostScalar::F32Bits(_) => ScalarTy::F32,
        HostScalar::I32(_) => ScalarTy::I32,
        HostScalar::U32(_) => ScalarTy::U32,
    }
}

/// Executable unary scalar evaluation.
fn un_scalar(op: UnOp, x: HostScalar) -> (r: Option<HostScalar>)
    ensures
        r == spec_un_scalar(op, x),
{
    match (op, x) {
        (UnOp::Neg, HostScalar::U32(a)) => Some(HostScalar::U32(0u32.wrapping_sub(a))),
        (UnOp::Neg, HostScalar::I32(a)) => Some(HostScalar::I32(0i32.wrapping_sub(a))),
        (UnOp::Not, HostScalar::Bool(a)) => Some(HostScalar::Bool(!a)),
        _ => None,
    }
}

/// Executable truncated signed division.
fn i32_div(x: i32, y: i32) -> (r: Option<HostScalar>)
    ensures
        r == spec_i32_div(x, y),
{
    if y == 0 || (x == i32::MIN && y == -1) {
        return None;
    }
    let xa: u32 = if x >= 0 {
        x as u32
    } else if x == i32::MIN {
        0x8000_0000u32
    } else {
        (-x) as u32
    };
    let ya: u32 = if y >= 0 {
        y as u32
    } else if y == i32::MIN {
        0x8000_0000u32
    } else {
        (-y) as u32
    };
    assert(xa == spec_abs_u32(x) && ya == spec_abs_u32(y));
    let q: u32 = xa / ya;
    assert(q <= xa) by (nonlinear_arith)
        requires
            q == xa as int / ya as int,
            ya >= 1,
            xa >= 0,
    ;
    if (x < 0) != (y < 0) {
        Some(HostScalar::I32((-(q as i64)) as i32))
    } else {
        if x == i32::MIN {
            assert(ya >= 2);
            assert(q < 0x8000_0000) by (nonlinear_arith)
                requires
                    q == xa as int / ya as int,
                    ya >= 2,
                    xa == 0x8000_0000,
            ;
        }
        Some(HostScalar::I32(q as i32))
    }
}

/// Executable binary scalar evaluation.
fn bin_scalar(op: BinOp, x: HostScalar, y: HostScalar) -> (r: Option<HostScalar>)
    ensures
        r == spec_bin_scalar(op, x, y),
{
    match (op, x, y) {
        (BinOp::Add, HostScalar::U32(a), HostScalar::U32(b)) => Some(
            HostScalar::U32(a.wrapping_add(b)),
        ),
        (BinOp::Sub, HostScalar::U32(a), HostScalar::U32(b)) => Some(
            HostScalar::U32(a.wrapping_sub(b)),
        ),
        (BinOp::Mul, HostScalar::U32(a), HostScalar::U32(b)) => Some(
            HostScalar::U32(a.wrapping_mul(b)),
        ),
        (BinOp::Div, HostScalar::U32(a), HostScalar::U32(b)) => if b == 0 {
            None
        } else {
            Some(HostScalar::U32(a / b))
        },
        (BinOp::Add, HostScalar::I32(a), HostScalar::I32(b)) => Some(
            HostScalar::I32(a.wrapping_add(b)),
        ),
        (BinOp::Sub, HostScalar::I32(a), HostScalar::I32(b)) => Some(
            HostScalar::I32(a.wrapping_sub(b)),
        ),
        (BinOp::Mul, HostScalar::I32(a), HostScalar::I32(b)) => Some(
            HostScalar::I32(a.wrapping_mul(b)),
        ),
        (BinOp::Div, HostScalar::I32(a), HostScalar::I32(b)) => i32_div(a, b),
        (BinOp::And, HostScalar::Bool(a), HostScalar::Bool(b)) => Some(HostScalar::Bool(a && b)),
        (BinOp::Or, HostScalar::Bool(a), HostScalar::Bool(b)) => Some(HostScalar::Bool(a || b)),
        (BinOp::Eq, HostScalar::U32(a), HostScalar::U32(b)) => Some(HostScalar::Bool(a == b)),
        (BinOp::Eq, HostScalar::I32(a), HostScalar::I32(b)) => Some(HostScalar::Bool(a == b)),
        (BinOp::Eq, HostScalar::Bool(a), HostScalar::Bool(b)) => Some(HostScalar::Bool(a == b)),
        (BinOp::Ne, HostScalar::U32(a), HostScalar::U32(b)) => Some(HostScalar::Bool(a != b)),
        (BinOp::Ne, HostScalar::I32(a), HostScalar::I32(b)) => Some(HostScalar::Bool(a != b)),
        (BinOp::Ne, HostScalar::Bool(a), HostScalar::Bool(b)) => Some(HostScalar::Bool(a != b)),
        (BinOp::Lt, HostScalar::U32(a), HostScalar::U32(b)) => Some(HostScalar::Bool(a < b)),
        (BinOp::Lt, HostScalar::I32(a), HostScalar::I32(b)) => Some(HostScalar::Bool(a < b)),
        (BinOp::Le, HostScalar::U32(a), HostScalar::U32(b)) => Some(HostScalar::Bool(a <= b)),
        (BinOp::Le, HostScalar::I32(a), HostScalar::I32(b)) => Some(HostScalar::Bool(a <= b)),
        (BinOp::Gt, HostScalar::U32(a), HostScalar::U32(b)) => Some(HostScalar::Bool(a > b)),
        (BinOp::Gt, HostScalar::I32(a), HostScalar::I32(b)) => Some(HostScalar::Bool(a > b)),
        (BinOp::Ge, HostScalar::U32(a), HostScalar::U32(b)) => Some(HostScalar::Bool(a >= b)),
        (BinOp::Ge, HostScalar::I32(a), HostScalar::I32(b)) => Some(HostScalar::Bool(a >= b)),
        _ => None,
    }
}

/// Executable componentwise unary evaluation.
fn un_value(op: UnOp, v: &Vec<HostScalar>) -> (r: Option<Vec<HostScalar>>)
    ensures
        opt_view(r) == spec_un_value(op, v@),
{
    let mut out: Vec<HostScalar> = Vec::new();
    let mut k: usize = 0;
    while k < v.len()
        invariant
            0 <= k <= v@.len(),
            out@.len() == k,
            forall|j: int|
                0 <= j < k ==> #[trigger] spec_un_scalar(op, v@[j]) == Some(out@[j]),
        decreases v@.len() - k,
    {
        match un_scalar(op, v[k]) {
            Some(s) => {
                out.push(s);
            },
            None => {
                assert(spec_un_scalar(op, v@[k as int]) is None);
                return None;
            },
        }
        k = k + 1;
    }
    proof {
        assert forall|j: int| 0 <= j < v@.len() implies #[trigger] spec_un_scalar(op, v@[j])
            is Some by {}
        assert(out@ =~= Seq::new(v@.len(), |j: int| spec_un_scalar(op, v@[j])->Some_0));
    }
    Some(out)
}

/// Executable componentwise binary evaluation.
fn bin_value(op: BinOp, a: &Vec<HostScalar>, b: &Vec<HostScalar>) -> (r: Option<Vec<HostScalar>>)
    ensures
        opt_view(r) == spec_bin_value(op, a@, b@),
{
    if a.len() != b.len() {
        return None;
    }
    let mut out: Vec<HostScalar> = Vec::new();
    let mut k: usize = 0;
    while k < a.len()
        invariant
            a@.len() == b@.len(),
            0 <= k <= a@.len(),
            out@.len() == k,
            forall|j: int|
                0 <= j < k ==> #[trigger] spec_bin_scalar(op, a@[j], b@[j]) == Some(out@[j]),
        decreases a@.len() - k,
    {
        match bin_scalar(op, a[k], b[k]) {
            Some(s) => {
                out.push(s);
            },
            None => {
                assert(spec_bin_scalar(op, a@[k as int], b@[k as int]) is None);
                return None;
            },
        }
        k = k + 1;
    }
    proof {
        assert forall|j: int| 0 <= j < a@.len() implies #[trigger] spec_bin_scalar(
            op,
            a@[j],
            b@[j],
        ) is Some by {}
        assert(out@ =~= Seq::new(a@.len(), |j: int| spec_bin_scalar(op, a@[j], b@[j])->Some_0));
    }
    Some(out)
}

/// First-match environment lookup.
fn env_get(env: &Vec<InputValue>, p: &String) -> (r: Option<Vec<HostScalar>>)
    ensures
        opt_view(r) == env_lookup(env@.map_values(|iv: InputValue| iv@), p@),
{
    let ghost envv = env@.map_values(|iv: InputValue| iv@);
    proof {
        assert(envv.skip(0) =~= envv);
    }
    let mut k: usize = 0;
    while k < env.len()
        invariant
            envv == env@.map_values(|iv: InputValue| iv@),
            0 <= k <= envv.len(),
            envv.len() == env@.len(),
            env_lookup(envv, p@) == env_lookup(envv.skip(k as int), p@),
        decreases envv.len() - k,
    {
        proof {
            assert(envv[k as int] == env@[k as int]@);
            assert(envv.skip(k as int)[0] == envv[k as int]);
            assert(envv.skip(k as int).drop_first() =~= envv.skip(k as int + 1));
        }
        if env[k].path == *p {
            proof {
                assert(envv.skip(k as int)[0].0 == p@);
                assert(env_lookup(envv.skip(k as int), p@) == Some(envv[k as int].1));
                assert(envv[k as int].1 == env@[k as int].scalars@);
            }
            return Some(copy_scalars(&env[k].scalars));
        }
        proof {
            assert(envv.skip(k as int)[0].0 != p@);
        }
        k = k + 1;
    }
    assert(envv.skip(envv.len() as int).len() == 0);
    None
}

/// Whether a host value's leaf kinds are exactly `kinds`.
fn kinds_match(v: &Vec<HostScalar>, kinds: &Vec<ScalarTy>) -> (r: bool)
    ensures
        r == (kinds_of(v@) == kinds@),
{
    if v.len() != kinds.len() {
        proof {
            assert(kinds_of(v@).len() == v@.len());
        }
        return false;
    }
    let mut k: usize = 0;
    while k < v.len()
        invariant
            v@.len() == kinds@.len(),
            0 <= k <= v@.len(),
            forall|j: int| 0 <= j < k ==> #[trigger] v@[j].kind() == kinds@[j],
        decreases v@.len() - k,
    {
        let vk = kind_of(v[k]);
        if vk != kinds[k] {
            proof {
                assert(kinds_of(v@)[k as int] == v@[k as int].kind());
            }
            return false;
        }
        k = k + 1;
    }
    proof {
        assert(kinds_of(v@) =~= kinds@);
    }
    true
}

/// Host-domain execution of a graph: computes one value per node in arena
/// index order — the exact order the generated source executes its
/// statements — and returns the root's value. Cross-domain consistency:
/// the result always equals the mathematical meaning [`eval_node`] of the
/// root, so running the generated statement order on concrete inputs
/// agrees with the host-domain computation.
#[verifier::loop_isolation(false)]
#[verifier::rlimit(50)]
pub fn eval_graph(reg: &Registry, g: &Graph, env: &Vec<InputValue>, root: usize) -> (r: Option<
    Vec<HostScalar>,
>)
    requires
        reg.wf(),
        g.wf(reg@.structs),
        root < g@.len(),
    ensures
        opt_view(r) == eval_node(
            reg@.structs,
            g@,
            env@.map_values(|iv: InputValue| iv@),
            root as int,
        ),
{
    let ghost structs = reg@.structs;
    let ghost gv = g@;
    let ghost envv = env@.map_values(|iv: InputValue| iv@);
    let glen = g.len();
    assert(root < glen);
    let mut vals: Vec<Option<Vec<HostScalar>>> = Vec::new();
    let mut i: usize = 0;
    while i <= root
        invariant
            0 <= i <= root + 1,
            vals@.len() == i,
            forall|j: int| 0 <= j < i ==> opt_view(#[trigger] vals@[j]) == eval_node(
                structs,
                gv,
                envv,
                j,
            ),
        decreases root - i + 1,
    {
        proof {
            assert(crate::expr::node_wf(structs, gv, i as int));
        }
        let node = g.node(i);
        let v: Option<Vec<HostScalar>> = match &node.op {
            crate::expr::Op::ConstBool(b) => {
                let out = vec![HostScalar::Bool(*b)];
                assert(out@ =~= seq![HostScalar::Bool(gv[i as int].op->ConstBool_0)]);
                Some(out)
            },
            crate::expr::Op::ConstF32Bits(x) => {
                let out = vec![HostScalar::F32Bits(*x)];
                assert(out@ =~= seq![HostScalar::F32Bits(gv[i as int].op->ConstF32Bits_0)]);
                Some(out)
            },
            crate::expr::Op::ConstI32(x) => {
                let out = vec![HostScalar::I32(*x)];
                assert(out@ =~= seq![HostScalar::I32(gv[i as int].op->ConstI32_0)]);
                Some(out)
            },
            crate::expr::Op::ConstU32(x) => {
                let out = vec![HostScalar::U32(*x)];
                assert(out@ =~= seq![HostScalar::U32(gv[i as int].op->ConstU32_0)]);
                Some(out)
            },
            crate::expr::Op::Input(p) => {
                match env_get(env, p) {
                    Some(v0) => {
                        let kinds = reg.leaf_kinds(node.ty);
                        if kinds_match(&v0, &kinds) {
                            Some(v0)
                        } else {
                            None
                        }
                    },
                    None => None,
                }
            },
            crate::expr::Op::Unary(op, a) => {
                match &vals[*a] {
                    Some(va) => un_value(*op, va),
                    None => None,
                }
            },
            crate::expr::Op::Binary(op, a, b) => {
                match (&vals[*a], &vals[*b]) {
                    (Some(va), Some(vb)) => bin_value(*op, va, vb),
                    _ => None,
                }
            },
            crate::expr::Op::Field(b, f) => {
                match &vals[*b] {
                    Some(vb) => {
                        match g.node(*b).ty {
                            Ty::Struct(s) => {
                                let d = reg.struct_def(s);
                                let mut off: u64 = 0;
                                let mut k: usize = 0;
                                while k < *f
                                    invariant
                                        gv[i as int].op == OpV::Field(*b, *f),
                                        k <= *f,
                                        f < d.fields@.len(),
                                        off == field_scalar_offset(structs, s as int, k as int),
                                        off <= crate::schema::LEAF_CAP,
                                    decreases *f - k,
                                {
                                    proof {
                                        crate::schema::lemma_fields_prefix_bound(
                                            structs,
                                            s as int,
                                            k as int + 1,
                                            structs[s as int].fields.len() as int,
                                        );
                                        assert(crate::schema::wf_struct_at(structs, s as int));
                                        assert(crate::schema::field_ty_ref_ok(
                                            structs[s as int].fields[k as int].ty,
                                            s as int,
                                        ));
                                    }
                                    let c = reg.leaf_count(d.fields[k].ty);
                                    off = off + c;
                                    k = k + 1;
                                }
                                let cnt = reg.leaf_count(node.ty);
                                if off + cnt <= vb.len() as u64 {
                                    let mut out: Vec<HostScalar> = Vec::new();
                                    let start = off as usize;
                                    let end = (off + cnt) as usize;
                                    let mut j: usize = start;
                                    while j < end
                                        invariant
                                            start <= j <= end,
                                            end <= vb@.len(),
                                            out@ == vb@.subrange(start as int, j as int),
                                        decreases end - j,
                                    {
                                        out.push(vb[j]);
                                        assert(out@ =~= vb@.subrange(start as int, j as int + 1));
                                        j = j + 1;
                                    }
                                    Some(out)
                                } else {
                                    None
                                }
                            },
                            _ => {
                                if *f < vb.len() {
                                    let out = vec![vb[*f]];
                                    assert(out@ =~= seq![vb@[*f as int]]);
                                    Some(out)
                                } else {
                                    None
                                }
                            },
                        }
                    },
                    None => None,
                }
            },
            crate::expr::Op::Call(bi, args) => {
                match bi {
                    Builtin::MakeVec2 | Builtin::MakeVec3 | Builtin::MakeVec4 => {
                        eval_args_concat(&vals, args, Ghost(structs), Ghost(gv), Ghost(envv), Ghost(i as int))
                    },
                    _ => None,
                }
            },
            crate::expr::Op::Branch(c, t, e) => {
                let mut taken: Option<bool> = None;
                match &vals[*c] {
                    Some(vc) => {
                        if vc.len() == 1 {
                            match vc[0] {
                                HostScalar::Bool(bv) => {
                                    taken = Some(bv);
                                    proof {
                                        if bv {
                                            assert(vc@ =~= seq![HostScalar::Bool(true)]);
                                        } else {
                                            assert(vc@ =~= seq![HostScalar::Bool(false)]);
                                        }
                                    }
                                },
                                _ => {
                                    proof {
                                        assert(vc@[0] == vc@.index(0));
                                        assert(vc@ != seq![HostScalar::Bool(true)] && vc@ != seq![
                                            HostScalar::Bool(false),
                                        ]) by {
                                            assert(seq![HostScalar::Bool(true)][0]
                                                == HostScalar::Bool(true));
                                            assert(seq![HostScalar::Bool(false)][0]
                                                == HostScalar::Bool(false));
                                        }
                                    }
                                },
                            }
                        } else {
                            proof {
                                assert(seq![HostScalar::Bool(true)].len() == 1);
                                assert(seq![HostScalar::Bool(false)].len() == 1);
                            }
                        }
                    },
                    None => {},
                }
                match taken {
                    Some(true) => copy_opt(&vals[*t]),
                    Some(false) => copy_opt(&vals[*e]),
                    None => None,
                }
            },
            crate::expr::Op::StructCtor(_, args) => {
                eval_args_concat(&vals, args, Ghost(structs), Ghost(gv), Ghost(envv), Ghost(i as int))
            },
            crate::expr::Op::Discard => None,
        };
        proof {
            assert(opt_view(v) == eval_node(structs, gv, envv, i as int));
        }
        vals.push(v);
        i = i + 1;
    }
    let out = copy_opt(&vals[root]);
    out
}

/// Concatenated evaluation of a call's or constructor's arguments out of
/// the already-computed node values.
#[verifier::loop_isolation(false)]
fn eval_args_concat(
    vals: &Vec<Option<Vec<HostScalar>>>,
    args: &Vec<usize>,
    Ghost(structs): Ghost<Seq<StructDefV>>,
    Ghost(gv): Ghost<Seq<NodeV>>,
    Ghost(envv): Ghost<Seq<(Seq<char>, Seq<HostScalar>)>>,
    Ghost(bound): Ghost<int>,
) -> (r: Option<Vec<HostScalar>>)
    requires
        wf_graph(structs, gv),
        0 <= bound < gv.len(),
        forall|k: int| 0 <= k < args@.len() ==> #[trigger] args@[k] < bound,
        vals@.len() >= bound,
        forall|j: int| 0 <= j < bound ==> opt_view(#[trigger] vals@[j]) == eval_node(
            structs,
            gv,
            envv,
            j,
        ),
    ensures
        opt_view(r) == eval_concat(structs, gv, envv, args@, bound),
{
    let mut acc: Vec<HostScalar> = Vec::new();
    let mut k: usize = 0;
    while k < args.len()
        invariant
            0 <= k <= args@.len(),
            eval_concat(structs, gv, envv, args@.take(k as int), bound) == Some(acc@),
        decreases args@.len() - k,
    {
        proof {
            assert(args@.take(k as int + 1).drop_last() =~= args@.take(k as int));
            assert(args@.take(k as int + 1).last() == args@[k as int]);
        }
        match &vals[args[k]] {
            Some(v) => {
                let mut j: usize = 0;
                while j < v.len()
                    invariant
                        0 <= j <= v@.len(),
                        acc@ == eval_concat(
                            structs,
                            gv,
                            envv,
                            args@.take(k as int),
                            bound,
                        )->Some_0 + v@.take(j as int),
                    decreases v@.len() - j,
                {
                    acc.push(v[j]);
                    assert(v@.take(j as int + 1) =~= v@.take(j as int).push(v@[j as int]));
                    j = j + 1;
                }
                proof {
                    assert(v@.take(v@.len() as int) =~= v@);
                }
            },
            None => {
                proof {
                    lemma_eval_concat_none(structs, gv, envv, args@, bound, k as int);
                }
                return None;
            },
        }
        k = k + 1;
    }
    proof {
        assert(args@.take(args@.len() as int) =~= args@);
    }
    Some(acc)
}

/// Branch correctness: a value select whose predicate evaluates to true
/// yields exactly its then-value, for any well-typed branches; false
/// yields the else-value.
pub proof fn lemma_branch_select(
    structs: Seq<StructDefV>,
    g: Seq<NodeV>,
    env: Seq<(Seq<char>, Seq<HostScalar>)>,
    i: int,
)
    requires
        wf_graph(structs, g),
        0 <= i < g.len(),
        g[i].op matches OpV::Branch(_, _, _),
    ensures
        eval_node(structs, g, env, g[i].op->Branch_0 as int) == Some(
            seq![HostScalar::Bool(true)],
        ) ==> eval_node(structs, g, env, i) == eval_node(structs, g, env, g[i].op->Branch_1 as int),
        eval_node(structs, g, env, g[i].op->Branch_0 as int) == Some(
            seq![HostScalar::Bool(false)],
        ) ==> eval_node(structs, g, env, i) == eval_node(structs, g, env, g[i].op->Branch_2 as int),
{
    assert(node_wf_here(structs, g, i));
    assert(seq![HostScalar::Bool(true)][0] == HostScalar::Bool(true));
    assert(seq![HostScalar::Bool(false)][0] == HostScalar::Bool(false));
    assert(seq![HostScalar::Bool(true)] != seq![HostScalar::Bool(false)]);
}

/// Helper restating node well-typedness for lemma triggers.
pub open spec fn node_wf_here(structs: Seq<StructDefV>, g: Seq<NodeV>, i: int) -> bool {
    crate::expr::node_wf(structs, g, i)
}

} // verus!
