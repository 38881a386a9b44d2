//! Interface classification: depth-first flattening of nested interface
//! structs into named leaf bindings.
//!
//! Flattening walks a schema in declared field order, joining field names
//! into dotted paths and yielding one binding per leaf. The traversal order
//! is the binding-slot assignment order, so it is deterministic and
//! reproducible by construction: the result is a pure function of the
//! schema.

use vstd::prelude::*;

use crate::schema::{
    struct_refs_ok, ty_rank, wf_structs, Registry, ResourceFieldTy, ResourceIfaceDefV, StructDefV,
};
use crate::ty::{ScalarTy, Ty};

verus! {

use vstd::string::StringExecFns;

/// One flattened leaf of a vertex or attachment interface: a dotted path
/// and the leaf's scalar or vector type.
pub struct LeafBinding {
    pub path: String,
    pub ty: Ty,
}

/// Mathematical model of a leaf binding.
#[verifier::ext_equal]
pub struct LeafBindingV {
    pub path: Seq<char>,
    pub ty: Ty,
}

impl View for LeafBinding {
    type V = LeafBindingV;

    open spec fn view(&self) -> LeafBindingV {
        LeafBindingV { path: self.path@, ty: self.ty }
    }
}

/// How one flattened resource leaf binds to the pipeline.
#[derive(Clone, Copy, Debug, PartialEq, Eq, Structural)]
pub enum ResourceKind {
    /// A uniform block holding one value of the given type, with its packed
    /// byte size.
    UniformBlock { ty: Ty, byte_size: u64 },
    /// A two-dimensional sampler with the given sample kind.
    Sampler2d(ScalarTy),
}

/// One flattened resource binding.
pub struct ResourceBinding {
    pub path: String,
    pub kind: ResourceKind,
}

/// Mathematical model of a resource binding.
#[verifier::ext_equal]
pub struct ResourceBindingV {
    pub path: Seq<char>,
    pub kind: ResourceKind,
}

impl View for ResourceBinding {
    type V = ResourceBindingV;

    open spec fn view(&self) -> ResourceBindingV {
        ResourceBindingV { path: self.path@, kind: self.kind }
    }
}

/// Joins two dotted path segments, eliding the dot beside an empty side.
pub open spec fn join_dotted(a: Seq<char>, b: Seq<char>) -> Seq<char> {
    if a.len() == 0 {
        b
    } else if b.len() == 0 {
        a
    } else {
        a + seq!['.'] + b
    }
}

/// The relative dotted paths and types of every leaf under `ty`, in
/// depth-first declared field order. A leaf type has the single empty tail.
pub open spec fn leaf_tails(structs: Seq<StructDefV>, ty: Ty) -> Seq<(Seq<char>, Ty)>
    decreases ty_rank(ty), 0int, 0int,
        when struct_refs_ok(structs) && ty_rank(ty) <= structs.len()
{
    match ty {
        Ty::Struct(i) => fields_leaf_tails(
            structs,
            i as int,
            structs[i as int].fields.len() as int,
        ),
        _ => seq![(Seq::<char>::empty(), ty)],
    }
}

/// Tails contributed by the first `k` fields of struct `i`.
pub open spec fn fields_leaf_tails(structs: Seq<StructDefV>, i: int, k: int) -> Seq<
    (Seq<char>, Ty),
>
    decreases i, 1int, k,
        when struct_refs_ok(structs) && 0 <= i < structs.len() && k <= structs[i].fields.len()
{
    if k <= 0 {
        Seq::empty()
    } else {
        fields_leaf_tails(structs, i, k - 1) + leaf_tails(
            structs,
            structs[i].fields[k - 1].ty,
        ).map_values(
            |t: (Seq<char>, Ty)|
                (join_dotted(structs[i].fields[k - 1].name, t.0), t.1),
        )
    }
}

/// The number of leaf fields under `ty`.
pub open spec fn leaf_field_count(structs: Seq<StructDefV>, ty: Ty) -> nat {
    leaf_tails(structs, ty).len()
}

/// The flattened bindings of `ty` under a path prefix: one per leaf, in
/// depth-first declared order.
pub open spec fn spec_flatten(structs: Seq<StructDefV>, ty: Ty, prefix: Seq<char>) -> Seq<
    LeafBindingV,
> {
    leaf_tails(structs, ty).map_values(
        |t: (Seq<char>, Ty)| LeafBindingV { path: join_dotted(prefix, t.0), ty: t.1 },
    )
}

/// Executable dotted join.
pub fn join_path(a: &str, b: &str) -> (r: String)
    ensures
        r@ == join_dotted(a@, b@),
{
    if a.is_empty() {
        return b.to_owned();
    }
    if b.is_empty() {
        return a.to_owned();
    }
    let mut r = a.to_owned();
    r.append(".");
    r.append(b);
    proof {
        reveal_strlit(".");
        assert(r@ =~= a@ + seq!['.'] + b@);
    }
    r
}

/// Depth-first flattening: appends one binding per leaf field of `ty` to
/// `out`, paths joined under `prefix`, in declared field order.
pub fn flatten_into(reg: &Registry, ty: Ty, prefix: &str, out: &mut Vec<LeafBinding>)
    requires
        reg.wf(),
        ty_rank(ty) <= old(out)@.len() + reg@.structs.len(),
        ty_rank(ty) <= reg@.structs.len(),
    ensures
        final(out)@.map_values(|b: LeafBinding| b@) == old(out)@.map_values(|b: LeafBinding| b@)
            + spec_flatten(reg@.structs, ty, prefix@),
    decreases ty_rank(ty),
{
    let ghost structs = reg@.structs;
    match ty {
        Ty::Struct(i) => {
            let d = reg.struct_def(i);
            let n = d.fields.len();
            let mut k: usize = 0;
            while k < n
                invariant
                    reg.wf(),
                    ty == Ty::Struct(i),
                    structs == reg@.structs,
                    i < structs.len(),
                    d@ == structs[i as int],
                    n == d.fields@.len(),
                    d.fields@.len() == structs[i as int].fields.len(),
                    0 <= k <= n,
                    out@.map_values(|b: LeafBinding| b@) == old(out)@.map_values(
                        |b: LeafBinding| b@,
                    ) + fields_leaf_tails(structs, i as int, k as int).map_values(
                        |t: (Seq<char>, Ty)|
                            LeafBindingV { path: join_dotted(prefix@, t.0), ty: t.1 },
                    ),
                decreases n - k,
            {
                let fty = d.fields[k].ty;
                assert(structs[i as int].fields[k as int].ty == fty);
                assert(crate::schema::field_ty_ref_ok(structs[i as int].fields[k as int].ty, i as int));
                let child_prefix = join_path(prefix, d.fields[k].name.as_str());
                let ghost before = out@.map_values(|b: LeafBinding| b@);
                flatten_into(reg, fty, child_prefix.as_str(), out);
                proof {
                    let name = structs[i as int].fields[k as int].name;
                    assert(crate::schema::wf_struct_at(structs, i as int));
                    assert(crate::schema::is_ident(structs[i as int].fields[k as int].name));
                    assert(name.len() > 0);
                    lemma_flatten_chunk(structs, fty, prefix@, name);
                    assert(out@.map_values(|b: LeafBinding| b@) =~= old(out)@.map_values(
                        |b: LeafBinding| b@,
                    ) + fields_leaf_tails(structs, i as int, k as int + 1).map_values(
                        |t: (Seq<char>, Ty)|
                            LeafBindingV { path: join_dotted(prefix@, t.0), ty: t.1 },
                    ));
                }
                k = k + 1;
            }
        },
        _ => {
            let b = LeafBinding { path: prefix.to_owned(), ty };
            let ghost bv = b@;
            out.push(b);
            proof {
                assert(bv.path == prefix@ && bv.ty == ty);
                assert(leaf_tails(structs, ty) =~= seq![(Seq::<char>::empty(), ty)]);
                assert(spec_flatten(structs, ty, prefix@) =~~= seq![bv]);
                assert(out@.map_values(|b2: LeafBinding| b2@) =~= old(out)@.map_values(
                    |b2: LeafBinding| b2@,
                ) + spec_flatten(structs, ty, prefix@));
            }
        },
    }
}

/// Joining under a deeper prefix associates: flattening a field's type
/// under `join(prefix, name)` equals prefixing the field's tails.
pub proof fn lemma_flatten_chunk(structs: Seq<StructDefV>, fty: Ty, prefix: Seq<char>, name: Seq<char>)
    requires
        name.len() > 0,
    ensures
        spec_flatten(structs, fty, join_dotted(prefix, name)) == leaf_tails(structs, fty).map_values(
            |t: (Seq<char>, Ty)| (join_dotted(name, t.0), t.1),
        ).map_values(
            |t: (Seq<char>, Ty)| LeafBindingV { path: join_dotted(prefix, t.0), ty: t.1 },
        ),
{
    let lhs = spec_flatten(structs, fty, join_dotted(prefix, name));
    let rhs = leaf_tails(structs, fty).map_values(
        |t: (Seq<char>, Ty)| (join_dotted(name, t.0), t.1),
    ).map_values(|t: (Seq<char>, Ty)| LeafBindingV { path: join_dotted(prefix, t.0), ty: t.1 });
    assert forall|idx: int| 0 <= idx < lhs.len() implies lhs[idx] == rhs[idx] by {
        let t = leaf_tails(structs, fty)[idx];
        lemma_join_assoc(prefix, name, t.0);
    }
    assert(lhs =~= rhs);
}

/// Index of the first dot in `s` at or after `a`, or the length.
pub open spec fn dot_index(s: Seq<char>, a: int) -> int
    decreases s.len() - a,
        when 0 <= a <= s.len()
{
    if a >= s.len() {
        s.len() as int
    } else if s[a] == '.' {
        a
    } else {
        dot_index(s, a + 1)
    }
}

/// The leading path segment of a dotted path: everything before the first
/// dot.
pub open spec fn head_name(p: Seq<char>) -> Seq<char> {
    p.subrange(0, dot_index(p, 0))
}

/// `dot_index` finds exactly the first dot position.
pub proof fn lemma_dot_index_is(s: Seq<char>, a: int, b: int)
    requires
        0 <= a <= b <= s.len(),
        forall|j: int| a <= j < b ==> s[j] != '.',
        b == s.len() || s[b] == '.',
    ensures
        dot_index(s, a) == b,
    decreases b - a,
{
    if a < b {
        lemma_dot_index_is(s, a + 1, b);
    }
}

/// The head of a name joined onto a tail is the name itself.
pub proof fn lemma_head_of_join(n: Seq<char>, t: Seq<char>)
    requires
        crate::schema::is_ident(n),
    ensures
        head_name(join_dotted(n, t)) == n,
{
    let s = join_dotted(n, t);
    assert forall|j: int| 0 <= j < n.len() implies s[j] != '.' by {
        assert(crate::schema::is_ident_char(n[j]));
    }
    if t.len() == 0 {
        lemma_dot_index_is(s, 0, s.len() as int);
        assert(head_name(s) =~= n);
    } else {
        assert(s[n.len() as int] == '.');
        lemma_dot_index_is(s, 0, n.len() as int);
        assert(head_name(s) =~= n);
    }
}

/// Joining a fixed left segment is injective in the right segment.
pub proof fn lemma_join_right_injective(a: Seq<char>, t1: Seq<char>, t2: Seq<char>)
    requires
        join_dotted(a, t1) == join_dotted(a, t2),
    ensures
        t1 == t2,
{
    if a.len() == 0 {
    } else if t1.len() == 0 && t2.len() == 0 {
        assert(t1 =~= t2);
    } else if t1.len() > 0 && t2.len() > 0 {
        let s1 = a + seq!['.'] + t1;
        let s2 = a + seq!['.'] + t2;
        assert(s1.len() == s2.len());
        assert forall|j: int| 0 <= j < t1.len() implies t1[j] == t2[j] by {
            assert(s1[a.len() + 1 + j] == t1[j]);
            assert(s2[a.len() + 1 + j] == t2[j]);
        }
        assert(t1 =~= t2);
    } else {
        // One side is empty, the other is not: the joined lengths differ.
        assert(false);
    }
}

/// Pairwise distinctness of the tails contributed by the first `k` fields,
/// together with the fact that their heads avoid every later field name.
pub proof fn lemma_fields_tails_unique(structs: Seq<StructDefV>, i: int, k: int)
    requires
        wf_structs(structs),
        0 <= i < structs.len(),
        0 <= k <= structs[i].fields.len(),
    ensures
        forall|a: int, b: int|
            0 <= a < b < fields_leaf_tails(structs, i, k).len() ==> fields_leaf_tails(
                structs,
                i,
                k,
            )[a].0 != fields_leaf_tails(structs, i, k)[b].0,
        forall|idx: int, m: int|
            0 <= idx < fields_leaf_tails(structs, i, k).len() && k <= m < structs[i].fields.len()
                ==> head_name(#[trigger] fields_leaf_tails(structs, i, k)[idx].0) != #[trigger] structs[
                i
            ].fields[m].name,
    decreases i, 1int, k,
{
    assert(crate::schema::wf_struct_at(structs, i));
    if k > 0 {
        lemma_fields_tails_unique(structs, i, k - 1);
        let prev = fields_leaf_tails(structs, i, k - 1);
        let name = structs[i].fields[k - 1].name;
        let fty = structs[i].fields[k - 1].ty;
        assert(crate::schema::field_ty_ref_ok(structs[i].fields[k - 1].ty, i));
        lemma_tails_unique(structs, fty);
        let sub = leaf_tails(structs, fty);
        let chunk = sub.map_values(|t: (Seq<char>, Ty)| (join_dotted(name, t.0), t.1));
        let cur = fields_leaf_tails(structs, i, k);
        assert(cur == prev + chunk);
        assert(crate::schema::is_ident(structs[i].fields[k - 1].name));
        assert forall|c: int| 0 <= c < chunk.len() implies head_name(#[trigger] chunk[c].0)
            == name by {
            lemma_head_of_join(name, sub[c].0);
        }
        // Heads of the new chunk are the current field's name; later names
        // differ from it because field names are unique.
        assert forall|idx: int, m: int|
            0 <= idx < cur.len() && k <= m < structs[i].fields.len() implies head_name(
            #[trigger] cur[idx].0,
        ) != #[trigger] structs[i].fields[m].name by {
            if idx < prev.len() {
                assert(head_name(prev[idx].0) != structs[i].fields[m].name);
                assert(cur[idx] == prev[idx]);
            } else {
                assert(cur[idx] == chunk[idx - prev.len()]);
                assert(head_name(cur[idx].0) == name);
                assert(structs[i].fields[k - 1].name != structs[i].fields[m].name);
            }
        }
        assert forall|a: int, b: int| 0 <= a < b < cur.len() implies cur[a].0 != cur[b].0 by {
            if b < prev.len() {
                assert(cur[a] == prev[a] && cur[b] == prev[b]);
            } else if a >= prev.len() {
                let ca = a - prev.len();
                let cb = b - prev.len();
                assert(cur[a] == chunk[ca] && cur[b] == chunk[cb]);
                assert(sub[ca].0 != sub[cb].0);
                if cur[a].0 == cur[b].0 {
                    lemma_join_right_injective(name, sub[ca].0, sub[cb].0);
                }
            } else {
                // Across the boundary: the old head avoids this field's
                // name, the new head is this field's name.
                assert(cur[a] == prev[a]);
                assert(cur[b] == chunk[b - prev.len()]);
                assert(head_name(prev[a].0) != structs[i].fields[k - 1].name);
                assert(head_name(cur[b].0) == name);
            }
        }
    }
}

/// Pairwise distinctness of the relative leaf paths of any resolvable
/// type: the flattening of a well-formed schema never repeats a path.
pub proof fn lemma_tails_unique(structs: Seq<StructDefV>, ty: Ty)
    requires
        wf_structs(structs),
        ty_rank(ty) <= structs.len(),
    ensures
        forall|a: int, b: int|
            0 <= a < b < leaf_tails(structs, ty).len() ==> leaf_tails(structs, ty)[a].0
                != leaf_tails(structs, ty)[b].0,
    decreases ty_rank(ty), 0int, 0int,
{
    match ty {
        Ty::Struct(i) => {
            let nf = structs[i as int].fields.len() as int;
            lemma_fields_tails_unique(structs, i as int, nf);
            let ft = fields_leaf_tails(structs, i as int, nf);
            assert(leaf_tails(structs, ty) == ft);
            assert forall|a: int, b: int|
                0 <= a < b < leaf_tails(structs, ty).len() implies leaf_tails(structs, ty)[a].0
                != leaf_tails(structs, ty)[b].0 by {
                assert(ft[a].0 != ft[b].0);
            }
        },
        _ => {},
    }
}

/// Flattening completeness: under an interface capability, a struct with N
/// leaf fields flattens to exactly N bindings, one callback per leaf in
/// declared depth-first order, and their dotted paths are pairwise
/// distinct.
pub proof fn lemma_flatten_complete(structs: Seq<StructDefV>, ty: Ty, prefix: Seq<char>)
    requires
        wf_structs(structs),
        ty_rank(ty) <= structs.len(),
    ensures
        spec_flatten(structs, ty, prefix).len() == leaf_field_count(structs, ty),
        forall|a: int, b: int|
            0 <= a < b < spec_flatten(structs, ty, prefix).len() ==> spec_flatten(
                structs,
                ty,
                prefix,
            )[a].path != spec_flatten(structs, ty, prefix)[b].path,
{
    lemma_tails_unique(structs, ty);
    let fl = spec_flatten(structs, ty, prefix);
    let tails = leaf_tails(structs, ty);
    assert forall|a: int, b: int| 0 <= a < b < fl.len() implies fl[a].path != fl[b].path by {
        assert(tails[a].0 != tails[b].0);
        if fl[a].path == fl[b].path {
            lemma_join_right_injective(prefix, tails[a].0, tails[b].0);
        }
    }
}

/// Nested resource references always point to earlier interface entries.
pub open spec fn resource_refs_ok(resources: Seq<ResourceIfaceDefV>) -> bool {
    forall|j: int, k: int|
        0 <= j < resources.len() && 0 <= k < resources[j].fields.len() ==> match (
        #[trigger] resources[j].fields[k].ty) {
            ResourceFieldTy::Nested(i) => i < j,
            _ => true,
        }
}

/// The relative dotted paths and binding kinds of every resource leaf of
/// interface `j`, depth-first in declared field order. A uniform-block
/// field carries its value type and packed byte size; a sampler field its
/// sample kind; a nested interface contributes its own leaves under the
/// field's name.
pub open spec fn resource_tails(
    structs: Seq<StructDefV>,
    resources: Seq<ResourceIfaceDefV>,
    j: int,
) -> Seq<(Seq<char>, ResourceKind)>
    decreases j, 1int, 0int,
        when resource_refs_ok(resources) && 0 <= j < resources.len()
{
    resource_fields_tails(structs, resources, j, resources[j].fields.len() as int)
}

/// Resource tails contributed by the first `k` fields of interface `j`.
pub open spec fn resource_fields_tails(
    structs: Seq<StructDefV>,
    resources: Seq<ResourceIfaceDefV>,
    j: int,
    k: int,
) -> Seq<(Seq<char>, ResourceKind)>
    decreases j, 0int, k,
        when resource_refs_ok(resources) && 0 <= j < resources.len() && k
            <= resources[j].fields.len()
{
    if k <= 0 {
        Seq::empty()
    } else {
        resource_fields_tails(structs, resources, j, k - 1) + resource_field_chunk(
            structs,
            resources,
            j,
            k - 1,
        )
    }
}

/// The tails contributed by the single field `k` of interface `j`.
pub open spec fn resource_field_chunk(
    structs: Seq<StructDefV>,
    resources: Seq<ResourceIfaceDefV>,
    j: int,
    k: int,
) -> Seq<(Seq<char>, ResourceKind)>
    decreases j, 0int, 0int,
        when resource_refs_ok(resources) && 0 <= j < resources.len() && 0 <= k < resources[
            j
        ].fields.len()
{
    let name = resources[j].fields[k].name;
    match resources[j].fields[k].ty {
        ResourceFieldTy::UniformBlock(t) => seq![
            (
                name,
                ResourceKind::UniformBlock {
                    ty: t,
                    byte_size: (4 * leaf_scalars_here(structs, t).len()) as u64,
                },
            ),
        ],
        ResourceFieldTy::Sampler2d(s) => seq![(name, ResourceKind::Sampler2d(s))],
        ResourceFieldTy::Nested(i2) => resource_tails(structs, resources, i2 as int).map_values(
            |t: (Seq<char>, ResourceKind)| (join_dotted(name, t.0), t.1),
        ),
    }
}

/// Helper alias so the chunk definition reads against the schema module.
pub open spec fn leaf_scalars_here(structs: Seq<StructDefV>, ty: Ty) -> Seq<ScalarTy> {
    crate::schema::leaf_scalars(structs, ty)
}

/// The flattened resource bindings of interface `j` under a path prefix.
pub open spec fn spec_flatten_resources(
    structs: Seq<StructDefV>,
    resources: Seq<ResourceIfaceDefV>,
    j: int,
    prefix: Seq<char>,
) -> Seq<ResourceBindingV> {
    resource_tails(structs, resources, j).map_values(
        |t: (Seq<char>, ResourceKind)| ResourceBindingV { path: join_dotted(prefix, t.0), kind: t.1 },
    )
}

/// Depth-first resource flattening: appends one binding per resource leaf
/// of interface `j` to `out`, paths joined under `prefix`, in declared
/// field order.
pub fn flatten_resources_into(
    reg: &Registry,
    j: usize,
    prefix: &str,
    out: &mut Vec<ResourceBinding>,
)
    requires
        reg.wf(),
        j < reg@.resources.len(),
    ensures
        final(out)@.map_values(|b: ResourceBinding| b@) == old(out)@.map_values(
            |b: ResourceBinding| b@,
        ) + spec_flatten_resources(reg@.structs, reg@.resources, j as int, prefix@),
    decreases j,
{
    let ghost structs = reg@.structs;
    let ghost resources = reg@.resources;
    proof {
        assert(resource_refs_ok(resources)) by {
            assert forall|j2: int, k2: int|
                0 <= j2 < resources.len() && 0 <= k2 < resources[j2].fields.len() implies match (
            #[trigger] resources[j2].fields[k2].ty) {
                ResourceFieldTy::Nested(i) => i < j2,
                _ => true,
            } by {
                assert(crate::schema::wf_resource_at(structs, resources, j2));
                assert(crate::schema::resource_field_ty_ok(
                    structs,
                    resources[j2].fields[k2].ty,
                    j2,
                ));
            }
        }
    }
    let d = reg.resource_def(j);
    let n = d.fields.len();
    let mut k: usize = 0;
    while k < n
        invariant
            reg.wf(),
            structs == reg@.structs,
            resources == reg@.resources,
            resource_refs_ok(resources),
            j < resources.len(),
            d@ == resources[j as int],
            n == d.fields@.len(),
            d.fields@.len() == resources[j as int].fields.len(),
            0 <= k <= n,
            out@.map_values(|b: ResourceBinding| b@) == old(out)@.map_values(
                |b: ResourceBinding| b@,
            ) + resource_fields_tails(structs, resources, j as int, k as int).map_values(
                |t: (Seq<char>, ResourceKind)|
                    ResourceBindingV { path: join_dotted(prefix@, t.0), kind: t.1 },
            ),
        decreases n - k,
    {
        proof {
            assert(crate::schema::wf_resource_at(structs, resources, j as int));
            assert(crate::schema::is_ident(resources[j as int].fields[k as int].name));
            assert(crate::schema::resource_field_ty_ok(
                structs,
                resources[j as int].fields[k as int].ty,
                j as int,
            ));
        }
        let ghost name = resources[j as int].fields[k as int].name;
        let ghost chunk = resource_field_chunk(structs, resources, j as int, k as int);
        let ghost pre = out@.map_values(|b2: ResourceBinding| b2@);
        let ghost mapfn = |t: (Seq<char>, ResourceKind)|
            ResourceBindingV { path: join_dotted(prefix@, t.0), kind: t.1 };
        let fname = d.fields[k].name.as_str();
        proof {
            assert(d.fields@[k as int]@ == resources[j as int].fields[k as int]);
            assert(fname@ == name);
        }
        match d.fields[k].ty {
            ResourceFieldTy::UniformBlock(t) => {
                proof {
                    assert(resources[j as int].fields[k as int].ty == ResourceFieldTy::UniformBlock(t));
                }
                let size = 4 * reg.leaf_count(t);
                let b = ResourceBinding {
                    path: join_path(prefix, fname),
                    kind: ResourceKind::UniformBlock { ty: t, byte_size: size },
                };
                let ghost bv = b@;
                out.push(b);
                proof {
                    assert(size == (4 * leaf_scalars_here(structs, t).len()) as u64);
                    assert(chunk =~~= seq![(name, ResourceKind::UniformBlock { ty: t, byte_size: size })]);
                    assert(bv.path == join_dotted(prefix@, name));
                    assert(out@.map_values(|b2: ResourceBinding| b2@) =~~= pre.push(bv));
                    assert(chunk.map_values(mapfn) =~~= seq![bv]);
                }
            },
            ResourceFieldTy::Sampler2d(s) => {
                proof {
                    assert(resources[j as int].fields[k as int].ty == ResourceFieldTy::Sampler2d(s));
                }
                let b = ResourceBinding {
                    path: join_path(prefix, fname),
                    kind: ResourceKind::Sampler2d(s),
                };
                let ghost bv = b@;
                out.push(b);
                proof {
                    assert(chunk =~~= seq![(name, ResourceKind::Sampler2d(s))]);
                    assert(bv.path == join_dotted(prefix@, name));
                    assert(out@.map_values(|b2: ResourceBinding| b2@) =~~= pre.push(bv));
                    assert(chunk.map_values(mapfn) =~~= seq![bv]);
                }
            },
            ResourceFieldTy::Nested(i2) => {
                proof {
                    assert(resources[j as int].fields[k as int].ty == ResourceFieldTy::Nested(i2));
                }
                let child_prefix = join_path(prefix, fname);
                flatten_resources_into(reg, i2, child_prefix.as_str(), out);
                proof {
                    lemma_resource_chunk_join(structs, resources, i2 as int, prefix@, name);
                    assert(child_prefix@ == join_dotted(prefix@, name));
                    assert(out@.map_values(|b2: ResourceBinding| b2@) =~~= pre
                        + spec_flatten_resources(
                        structs,
                        resources,
                        i2 as int,
                        join_dotted(prefix@, name),
                    ));
                    assert(chunk.map_values(mapfn) =~~= spec_flatten_resources(
                        structs,
                        resources,
                        i2 as int,
                        join_dotted(prefix@, name),
                    ));
                }
            },
        }
        proof {
            assert(resource_fields_tails(structs, resources, j as int, k as int + 1)
                == resource_fields_tails(structs, resources, j as int, k as int) + chunk);
            assert(resource_fields_tails(structs, resources, j as int, k as int + 1).map_values(
                mapfn,
            ) =~~= resource_fields_tails(structs, resources, j as int, k as int).map_values(mapfn)
                + chunk.map_values(mapfn));
            assert(out@.map_values(|b2: ResourceBinding| b2@) =~~= old(out)@.map_values(
                |b2: ResourceBinding| b2@,
            ) + resource_fields_tails(structs, resources, j as int, k as int + 1).map_values(
                mapfn,
            ));
            assert(resource_fields_tails(structs, resources, j as int, k as int + 1).map_values(
                mapfn,
            ) == resource_fields_tails(structs, resources, j as int, k as int + 1).map_values(
                |t: (Seq<char>, ResourceKind)|
                    ResourceBindingV { path: join_dotted(prefix@, t.0), kind: t.1 },
            ));
        }
        k = k + 1;
    }
    proof {
        assert(resource_tails(structs, resources, j as int) == resource_fields_tails(
            structs,
            resources,
            j as int,
            resources[j as int].fields.len() as int,
        ));
    }
}

/// Flattening a nested interface under `join(prefix, name)` equals
/// prefixing the interface's tails with the field name.
pub proof fn lemma_resource_chunk_join(
    structs: Seq<StructDefV>,
    resources: Seq<ResourceIfaceDefV>,
    i2: int,
    prefix: Seq<char>,
    name: Seq<char>,
)
    requires
        name.len() > 0,
    ensures
        spec_flatten_resources(structs, resources, i2, join_dotted(prefix, name))
            == resource_tails(structs, resources, i2).map_values(
            |t: (Seq<char>, ResourceKind)| (join_dotted(name, t.0), t.1),
        ).map_values(
            |t: (Seq<char>, ResourceKind)|
                ResourceBindingV { path: join_dotted(prefix, t.0), kind: t.1 },
        ),
{
    let lhs = spec_flatten_resources(structs, resources, i2, join_dotted(prefix, name));
    let rhs = resource_tails(structs, resources, i2).map_values(
        |t: (Seq<char>, ResourceKind)| (join_dotted(name, t.0), t.1),
    ).map_values(
        |t: (Seq<char>, ResourceKind)|
            ResourceBindingV { path: join_dotted(prefix, t.0), kind: t.1 },
    );
    assert forall|idx: int| 0 <= idx < lhs.len() implies lhs[idx] == rhs[idx] by {
        let t = resource_tails(structs, resources, i2)[idx];
        lemma_join_assoc(prefix, name, t.0);
    }
    assert(lhs =~= rhs);
}

/// Pairwise distinctness of the resource tails of the first `k` fields,
/// and their heads avoid every later field name.
pub proof fn lemma_resource_fields_tails_unique(
    structs: Seq<StructDefV>,
    resources: Seq<ResourceIfaceDefV>,
    j: int,
    k: int,
)
    requires
        wf_structs(structs),
        crate::schema::wf_resources(structs, resources),
        resource_refs_ok(resources),
        0 <= j < resources.len(),
        0 <= k <= resources[j].fields.len(),
    ensures
        forall|a: int, b: int|
            0 <= a < b < resource_fields_tails(structs, resources, j, k).len()
                ==> resource_fields_tails(structs, resources, j, k)[a].0 != resource_fields_tails(
                structs,
                resources,
                j,
                k,
            )[b].0,
        forall|idx: int, m: int|
            0 <= idx < resource_fields_tails(structs, resources, j, k).len() && k <= m < resources[
                j
            ].fields.len() ==> head_name(
                #[trigger] resource_fields_tails(structs, resources, j, k)[idx].0,
            ) != #[trigger] resources[j].fields[m].name,
    decreases j, 0int, k,
{
    assert(crate::schema::wf_resource_at(structs, resources, j));
    if k > 0 {
        lemma_resource_fields_tails_unique(structs, resources, j, k - 1);
        let prev = resource_fields_tails(structs, resources, j, k - 1);
        let name = resources[j].fields[k - 1].name;
        let chunk = resource_field_chunk(structs, resources, j, k - 1);
        let cur = resource_fields_tails(structs, resources, j, k);
        assert(cur == prev + chunk);
        assert(crate::schema::is_ident(resources[j].fields[k - 1].name));
        // Every chunk path heads with the field's own name, and chunk paths
        // are pairwise distinct.
        match resources[j].fields[k - 1].ty {
            ResourceFieldTy::Nested(i2) => {
                assert(crate::schema::resource_field_ty_ok(
                    structs,
                    resources[j].fields[k - 1].ty,
                    j,
                ));
                lemma_resource_tails_unique(structs, resources, i2 as int);
                let sub = resource_tails(structs, resources, i2 as int);
                assert forall|c: int| 0 <= c < chunk.len() implies head_name(
                    #[trigger] chunk[c].0,
                ) == name by {
                    lemma_head_of_join(name, sub[c].0);
                }
                assert forall|c1: int, c2: int| 0 <= c1 < c2 < chunk.len() implies chunk[c1].0
                    != chunk[c2].0 by {
                    assert(sub[c1].0 != sub[c2].0);
                    if chunk[c1].0 == chunk[c2].0 {
                        lemma_join_right_injective(name, sub[c1].0, sub[c2].0);
                    }
                }
            },
            _ => {
                assert(chunk.len() == 1);
                assert(chunk[0].0 == name);
                lemma_head_of_join(name, Seq::<char>::empty());
                assert(join_dotted(name, Seq::<char>::empty()) == name);
                assert(head_name(chunk[0].0) == name);
            },
        }
        assert forall|idx: int, m: int|
            0 <= idx < cur.len() && k <= m < resources[j].fields.len() implies head_name(
            #[trigger] cur[idx].0,
        ) != #[trigger] resources[j].fields[m].name by {
            if idx < prev.len() {
                assert(head_name(prev[idx].0) != resources[j].fields[m].name);
                assert(cur[idx] == prev[idx]);
            } else {
                assert(cur[idx] == chunk[idx - prev.len()]);
                assert(head_name(cur[idx].0) == name);
                assert(resources[j].fields[k - 1].name != resources[j].fields[m].name);
            }
        }
        assert forall|a: int, b: int| 0 <= a < b < cur.len() implies cur[a].0 != cur[b].0 by {
            if b < prev.len() {
                assert(cur[a] == prev[a] && cur[b] == prev[b]);
            } else if a >= prev.len() {
                assert(cur[a] == chunk[a - prev.len()] && cur[b] == chunk[b - prev.len()]);
            } else {
                assert(cur[a] == prev[a]);
                assert(cur[b] == chunk[b - prev.len()]);
                assert(head_name(prev[a].0) != resources[j].fields[k - 1].name);
                assert(head_name(cur[b].0) == name);
            }
        }
    }
}

/// Pairwise distinctness of a resource interface's relative leaf paths.
pub proof fn lemma_resource_tails_unique(
    structs: Seq<StructDefV>,
    resources: Seq<ResourceIfaceDefV>,
    j: int,
)
    requires
        wf_structs(structs),
        crate::schema::wf_resources(structs, resources),
        resource_refs_ok(resources),
        0 <= j < resources.len(),
    ensures
        forall|a: int, b: int|
            0 <= a < b < resource_tails(structs, resources, j).len() ==> resource_tails(
                structs,
                resources,
                j,
            )[a].0 != resource_tails(structs, resources, j)[b].0,
    decreases j, 1int, 0int,
{
    let nf = resources[j].fields.len() as int;
    lemma_resource_fields_tails_unique(structs, resources, j, nf);
    let ft = resource_fields_tails(structs, resources, j, nf);
    assert(resource_tails(structs, resources, j) == ft);
    assert forall|a: int, b: int|
        0 <= a < b < resource_tails(structs, resources, j).len() implies resource_tails(
        structs,
        resources,
        j,
    )[a].0 != resource_tails(structs, resources, j)[b].0 by {
        assert(ft[a].0 != ft[b].0);
    }
}

/// Resource flattening produces pairwise distinct binding paths.
pub proof fn lemma_flatten_resources_unique(
    structs: Seq<StructDefV>,
    resources: Seq<ResourceIfaceDefV>,
    j: int,
    prefix: Seq<char>,
)
    requires
        wf_structs(structs),
        crate::schema::wf_resources(structs, resources),
        resource_refs_ok(resources),
        0 <= j < resources.len(),
    ensures
        forall|a: int, b: int|
            0 <= a < b < spec_flatten_resources(structs, resources, j, prefix).len()
                ==> spec_flatten_resources(structs, resources, j, prefix)[a].path
                != spec_flatten_resources(structs, resources, j, prefix)[b].path,
{
    lemma_resource_tails_unique(structs, resources, j);
    let fl = spec_flatten_resources(structs, resources, j, prefix);
    let tails = resource_tails(structs, resources, j);
    assert forall|a: int, b: int| 0 <= a < b < fl.len() implies fl[a].path != fl[b].path by {
        assert(tails[a].0 != tails[b].0);
        if fl[a].path == fl[b].path {
            lemma_join_right_injective(prefix, tails[a].0, tails[b].0);
        }
    }
}

/// One leaf of a uniform block's byte layout: its joined path, its type
/// and its byte offset inside the packed block image.
pub struct BlockField {
    pub path: String,
    pub ty: Ty,
    pub offset: u64,
}

/// Mathematical model of a block layout leaf.
#[verifier::ext_equal]
pub struct BlockFieldV {
    pub path: Seq<char>,
    pub ty: Ty,
    pub offset: u64,
}

impl View for BlockField {
    type V = BlockFieldV;

    open spec fn view(&self) -> BlockFieldV {
        BlockFieldV { path: self.path@, ty: self.ty, offset: self.offset }
    }
}

/// Scalar components of the first `k` leaves of a tail list.
pub open spec fn comp_sum(tails: Seq<(Seq<char>, Ty)>, k: int) -> int
    decreases k,
{
    if k <= 0 {
        0
    } else {
        comp_sum(tails, k - 1) + tails[k - 1].1.spec_component_count()
    }
}

/// Component sums only read the first `k` types, so sequences agreeing
/// there have equal sums.
pub proof fn lemma_comp_sum_prefix_eq(a: Seq<(Seq<char>, Ty)>, b: Seq<(Seq<char>, Ty)>, k: int)
    requires
        k <= a.len(),
        k <= b.len(),
        forall|i: int| 0 <= i < k ==> a[i].1 == b[i].1,
    ensures
        comp_sum(a, k) == comp_sum(b, k),
    decreases k,
{
    if k > 0 {
        lemma_comp_sum_prefix_eq(a, b, k - 1);
    }
}

/// Component sums add over concatenation.
pub proof fn lemma_comp_sum_concat(a: Seq<(Seq<char>, Ty)>, b: Seq<(Seq<char>, Ty)>)
    ensures
        comp_sum(a + b, (a + b).len() as int) == comp_sum(a, a.len() as int) + comp_sum(
            b,
            b.len() as int,
        ),
    decreases b.len(),
{
    if b.len() == 0 {
        assert(a + b =~= a);
        lemma_comp_sum_prefix_eq(a + b, a, a.len() as int);
    } else {
        let n = (a + b).len() as int;
        lemma_comp_sum_concat(a, b.drop_last());
        assert(a + b.drop_last() =~= (a + b).take(n - 1));
        lemma_comp_sum_prefix_eq(a + b, a + b.drop_last(), n - 1);
        assert((a + b)[n - 1] == b.last());
        lemma_comp_sum_prefix_eq(b, b.drop_last(), b.len() as int - 1);
        assert(b[b.len() as int - 1] == b.last());
    }
}

/// The scalar components of a type's leaves sum to its packed scalar
/// count, so leaf offsets fill the block image without gaps.
pub proof fn lemma_tails_comp_sum(structs: Seq<StructDefV>, ty: Ty)
    requires
        struct_refs_ok(structs),
        ty_rank(ty) <= structs.len(),
    ensures
        comp_sum(leaf_tails(structs, ty), leaf_tails(structs, ty).len() as int)
            == crate::schema::leaf_scalars(structs, ty).len(),
    decreases ty_rank(ty), 0int, 0int,
{
    match ty {
        Ty::Struct(i) => {
            let nf = structs[i as int].fields.len() as int;
            lemma_fields_tails_comp_sum(structs, i as int, nf);
            assert(leaf_tails(structs, ty) == fields_leaf_tails(structs, i as int, nf));
            assert(crate::schema::leaf_scalars(structs, ty)
                == crate::schema::fields_leaf_scalars(structs, i as int, nf));
        },
        _ => {
            let tails = leaf_tails(structs, ty);
            assert(tails =~= seq![(Seq::<char>::empty(), ty)]);
            assert(comp_sum(tails, 0) == 0);
            assert(comp_sum(tails, 1) == ty.spec_component_count());
            assert(crate::schema::leaf_scalars(structs, ty).len()
                == ty.spec_component_count());
        },
    }
}

/// Companion of [`lemma_tails_comp_sum`] over field prefixes.
pub proof fn lemma_fields_tails_comp_sum(structs: Seq<StructDefV>, i: int, k: int)
    requires
        struct_refs_ok(structs),
        0 <= i < structs.len(),
        0 <= k <= structs[i].fields.len(),
    ensures
        comp_sum(
            fields_leaf_tails(structs, i, k),
            fields_leaf_tails(structs, i, k).len() as int,
        ) == crate::schema::fields_leaf_scalars(structs, i, k).len(),
    decreases i, 1int, k,
{
    if k > 0 {
        lemma_fields_tails_comp_sum(structs, i, k - 1);
        let fty = structs[i].fields[k - 1].ty;
        assert(crate::schema::field_ty_ref_ok(fty, i));
        lemma_tails_comp_sum(structs, fty);
        let prev = fields_leaf_tails(structs, i, k - 1);
        let sub = leaf_tails(structs, fty);
        let name = structs[i].fields[k - 1].name;
        let chunk = sub.map_values(|t: (Seq<char>, Ty)| (join_dotted(name, t.0), t.1));
        lemma_comp_sum_concat(prev, chunk);
        lemma_comp_sum_prefix_eq(chunk, sub, sub.len() as int);
        assert(fields_leaf_tails(structs, i, k) == prev + chunk);
    }
}

/// The byte layout of a uniform block holding a value of type `ty` under
/// a path prefix: one entry per leaf in declared depth-first order, each
/// at the packed offset of its first scalar, four bytes a scalar.
pub open spec fn spec_block_layout(structs: Seq<StructDefV>, ty: Ty, prefix: Seq<char>) -> Seq<
    BlockFieldV,
> {
    let tails = leaf_tails(structs, ty);
    Seq::new(
        tails.len(),
        |k: int|
            BlockFieldV {
                path: join_dotted(prefix, tails[k].0),
                ty: tails[k].1,
                offset: (4 * comp_sum(tails, k)) as u64,
            },
    )
}

/// Computes a uniform block's byte layout: the leaves of
/// [`spec_flatten`] together with their packed byte offsets. The layout
/// fills exactly the block's packed byte size, the same convention the
/// POD encoder uses, so host bytes and the declared layout agree bit for
/// bit.
#[verifier::loop_isolation(false)]
pub fn block_layout(reg: &Registry, ty: Ty, prefix: &str) -> (out: Vec<BlockField>)
    requires
        reg.wf(),
        ty_rank(ty) <= reg@.structs.len(),
    ensures
        out@.map_values(|b: BlockField| b@) == spec_block_layout(reg@.structs, ty, prefix@),
{
    let ghost structs = reg@.structs;
    let ghost tails = leaf_tails(structs, ty);
    let mut leaves: Vec<LeafBinding> = Vec::new();
    flatten_into(reg, ty, prefix, &mut leaves);
    proof {
        assert(Seq::<LeafBinding>::empty().map_values(|b: LeafBinding| b@)
            =~= Seq::<LeafBindingV>::empty());
        assert(leaves@.map_values(|b: LeafBinding| b@) =~= spec_flatten(structs, ty, prefix@));
        lemma_tails_comp_sum(structs, ty);
    }
    proof {
        match ty {
            Ty::Struct(i) => {
                assert(crate::schema::wf_struct_at(structs, i as int));
                assert(crate::schema::leaf_scalars(structs, ty).len()
                    <= crate::schema::LEAF_CAP);
            },
            _ => {
                assert(crate::schema::leaf_scalars(structs, ty).len() <= 4);
            },
        }
    }
    let mut out: Vec<BlockField> = Vec::new();
    let mut off: u64 = 0;
    let mut k: usize = 0;
    while k < leaves.len()
        invariant
            0 <= k <= tails.len(),
            off == 4 * comp_sum(tails, k as int),
            out@.map_values(|b: BlockField| b@) == spec_block_layout(
                structs,
                ty,
                prefix@,
            ).take(k as int),
        decreases tails.len() - k,
    {
        proof {
            assert(leaves@[k as int]@ == spec_flatten(structs, ty, prefix@)[k as int]);
            lemma_comp_sum_mono(tails, k as int + 1, tails.len() as int);
        }
        let b = BlockField { path: leaves[k].path.clone(), ty: leaves[k].ty, offset: off };
        let cc: u64 = match leaves[k].ty {
            Ty::Scalar(_) => 1,
            Ty::Vec2(_) => 2,
            Ty::Vec3(_) => 3,
            Ty::Vec4(_) => 4,
            _ => 0,
        };
        out.push(b);
        proof {
            assert(out@.map_values(|b2: BlockField| b2@) =~~= spec_block_layout(
                structs,
                ty,
                prefix@,
            ).take(k as int + 1));
        }
        off = off + 4 * cc;
        k = k + 1;
    }
    proof {
        assert(spec_block_layout(structs, ty, prefix@).take(tails.len() as int)
            =~= spec_block_layout(structs, ty, prefix@));
    }
    out
}

/// Component sums grow with the prefix.
pub proof fn lemma_comp_sum_mono(tails: Seq<(Seq<char>, Ty)>, k: int, n: int)
    requires
        0 <= k <= n <= tails.len(),
    ensures
        comp_sum(tails, k) <= comp_sum(tails, n),
    decreases n - k,
{
    if k < n {
        lemma_comp_sum_mono(tails, k + 1, n);
        assert(tails[k].1.spec_component_count() >= 0);
    }
}

/// `join_dotted` associates whenever the middle segment is nonempty.
pub proof fn lemma_join_assoc(a: Seq<char>, n: Seq<char>, t: Seq<char>)
    requires
        n.len() > 0,
    ensures
        join_dotted(join_dotted(a, n), t) == join_dotted(a, join_dotted(n, t)),
{
    if a.len() == 0 {
    } else if t.len() == 0 {
    } else {
        assert(join_dotted(join_dotted(a, n), t) =~= join_dotted(a, join_dotted(n, t)));
    }
}

} // verus!
