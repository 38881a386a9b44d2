//! Struct schemas and interface schemas.
//!
//! A [`Registry`] holds every user aggregate as an ordered list of
//! (field name, field type) pairs, plus the resource-interface definitions
//! that compose uniform blocks, samplers and nested interfaces. Schemas are
//! append-only: a struct may refer only to structs registered before it, so
//! the schema graph is acyclic by construction.
//!
//! The packing convention, applied identically to host byte layouts and to
//! generated struct declarations: every scalar occupies four bytes stored
//! little-endian, vectors and structs are laid out tightly in declared field
//! order with no padding.

use vstd::prelude::*;

use crate::ty::{ScalarTy, Ty};

verus! {

use vstd::utf8::is_ascii_chars;

/// Upper bound on the number of scalar leaves of one registered struct,
/// so that byte sizes and offsets never overflow.
pub const LEAF_CAP: u64 = 65536;

/// One field of a struct schema.
pub struct FieldDef {
    pub name: String,
    pub ty: Ty,
}

/// Mathematical model of a field.
#[verifier::ext_equal]
pub struct FieldDefV {
    pub name: Seq<char>,
    pub ty: Ty,
}

impl View for FieldDef {
    type V = FieldDefV;

    open spec fn view(&self) -> FieldDefV {
        FieldDefV { name: self.name@, ty: self.ty }
    }
}

/// One registered struct: a name and its ordered field schema.
pub struct StructDef {
    pub name: String,
    pub fields: Vec<FieldDef>,
}

/// Mathematical model of a struct schema.
#[verifier::ext_equal]
pub struct StructDefV {
    pub name: Seq<char>,
    pub fields: Seq<FieldDefV>,
}

impl View for StructDef {
    type V = StructDefV;

    open spec fn view(&self) -> StructDefV {
        StructDefV { name: self.name@, fields: self.fields@.map_values(|f: FieldDef| f@) }
    }
}

/// How one field of a resource interface binds to the pipeline.
#[derive(Clone, Copy, Debug, PartialEq, Eq, Structural)]
pub enum ResourceFieldTy {
    /// The field is one uniform block holding a value of the given type.
    UniformBlock(Ty),
    /// The field is one two-dimensional sampler with the given sample kind.
    Sampler2d(ScalarTy),
    /// The field composes an earlier resource interface.
    Nested(usize),
}

/// One field of a resource interface.
pub struct ResourceFieldDef {
    pub name: String,
    pub ty: ResourceFieldTy,
}

/// Mathematical model of a resource-interface field.
#[verifier::ext_equal]
pub struct ResourceFieldDefV {
    pub name: Seq<char>,
    pub ty: ResourceFieldTy,
}

impl View for ResourceFieldDef {
    type V = ResourceFieldDefV;

    open spec fn view(&self) -> ResourceFieldDefV {
        ResourceFieldDefV { name: self.name@, ty: self.ty }
    }
}

/// One registered resource interface.
pub struct ResourceIfaceDef {
    pub name: String,
    pub fields: Vec<ResourceFieldDef>,
}

/// Mathematical model of a resource interface.
#[verifier::ext_equal]
pub struct ResourceIfaceDefV {
    pub name: Seq<char>,
    pub fields: Seq<ResourceFieldDefV>,
}

impl View for ResourceIfaceDef {
    type V = ResourceIfaceDefV;

    open spec fn view(&self) -> ResourceIfaceDefV {
        ResourceIfaceDefV {
            name: self.name@,
            fields: self.fields@.map_values(|f: ResourceFieldDef| f@),
        }
    }
}

/// A fault detected while registering a schema: the index names the
/// offending field where one exists.
#[derive(Clone, Copy, Debug, PartialEq, Eq, Structural)]
pub enum SchemaError {
    /// The struct or interface name is not an identifier.
    BadName,
    /// Another struct or interface of the same name is already registered.
    DuplicateName,
    /// A schema must have at least one field.
    NoFields,
    /// The named field's name is not an identifier.
    BadFieldName(usize),
    /// The named field repeats an earlier field's name.
    DuplicateFieldName(usize),
    /// The named field's type lacks the capability the schema requires.
    BadFieldType(usize),
    /// The struct's scalar leaf count exceeds [`LEAF_CAP`].
    TooManyLeaves,
}

/// Identifier characters: ASCII letters, digits and underscore.
pub open spec fn is_ident_char(c: char) -> bool {
    ('a' <= c && c <= 'z') || ('A' <= c && c <= 'Z') || ('0' <= c && c <= '9') || c == '_'
}

/// A schema name: nonempty, identifier characters only, not starting with a
/// digit. In particular it never contains a dot, which keeps joined dotted
/// paths unambiguous.
pub open spec fn is_ident(s: Seq<char>) -> bool {
    &&& s.len() > 0
    &&& forall|i: int| 0 <= i < s.len() ==> is_ident_char(#[trigger] s[i])
    &&& !('0' <= s[0] && s[0] <= '9')
}

/// Executable identifier check.
pub fn check_ident(s: &str) -> (r: bool)
    ensures
        r == is_ident(s@),
{
    if !s.is_ascii() {
        proof {
            if is_ident(s@) {
                assert forall|i: int| 0 <= i < s@.len() implies '\0' <= #[trigger] s@[i]
                    <= '\u{7f}' by {
                    assert(is_ident_char(s@[i]));
                }
                assert(is_ascii_chars(s@));
            }
        }
        return false;
    }
    proof {
        vstd::string::is_ascii_spec_bytes(s);
    }
    let b = s.as_bytes();
    assert(b@.len() == s@.len());
    if b.len() == 0 {
        return false;
    }
    let mut i: usize = 0;
    let mut ok = true;
    while i < b.len()
        invariant
            b@ =~= Seq::new(s@.len(), |j: int| s@[j] as u8),
            is_ascii_chars(s@),
            0 <= i <= b@.len(),
            b@.len() == s@.len(),
            ok == forall|j: int| 0 <= j < i ==> is_ident_char(#[trigger] s@[j]),
        decreases b@.len() - i,
    {
        let x = b[i];
        let good = (97 <= x && x <= 122) || (65 <= x && x <= 90) || (48 <= x && x <= 57) || x
            == 95;
        proof {
            let c = s@[i as int];
            assert(c as u8 == x);
            assert('\0' <= c <= '\u{7f}');
            assert(is_ident_char(c) == good);
        }
        ok = ok && good;
        i = i + 1;
    }
    if !ok {
        return false;
    }
    let x0 = b[0];
    proof {
        let c0 = s@[0];
        assert(c0 as u8 == x0);
        assert(('0' <= c0 && c0 <= '9') == (48 <= x0 && x0 <= 57));
    }
    !(48 <= x0 && x0 <= 57)
}

/// A field type a struct may hold: a leaf, or a reference to a struct
/// registered strictly earlier than index `j`. Samplers never live inside
/// value structs.
pub open spec fn field_ty_ref_ok(ty: Ty, j: int) -> bool {
    match ty {
        Ty::Struct(i) => i < j,
        Ty::Sampler2d(_) => false,
        _ => true,
    }
}

/// Struct references always point to earlier registry entries.
pub open spec fn struct_refs_ok(structs: Seq<StructDefV>) -> bool {
    forall|j: int, k: int|
        0 <= j < structs.len() && 0 <= k < structs[j].fields.len() ==> field_ty_ref_ok(
            #[trigger] structs[j].fields[k].ty,
            j,
        )
}

/// Recursion measure: a struct type recurses only into strictly earlier
/// registry entries.
pub open spec fn ty_rank(ty: Ty) -> int {
    match ty {
        Ty::Struct(i) => i + 1,
        _ => 0,
    }
}

/// The ordered scalar kinds of every leaf component of `ty`, depth-first in
/// declared field order. The byte layout of a value is these scalars packed
/// four bytes each.
pub open spec fn leaf_scalars(structs: Seq<StructDefV>, ty: Ty) -> Seq<ScalarTy>
    decreases ty_rank(ty), 0int, 0int,
        when struct_refs_ok(structs) && ty_rank(ty) <= structs.len()
{
    match ty {
        Ty::Scalar(s) => seq![s],
        Ty::Vec2(s) => seq![s, s],
        Ty::Vec3(s) => seq![s, s, s],
        Ty::Vec4(s) => seq![s, s, s, s],
        Ty::Struct(i) => fields_leaf_scalars(structs, i as int, structs[i as int].fields.len() as int),
        Ty::Sampler2d(_) => Seq::empty(),
    }
}

/// Concatenated leaf scalars of the first `k` fields of struct `i`.
pub open spec fn fields_leaf_scalars(structs: Seq<StructDefV>, i: int, k: int) -> Seq<ScalarTy>
    decreases i, 1int, k,
        when struct_refs_ok(structs) && 0 <= i < structs.len() && k <= structs[i].fields.len()
{
    if k <= 0 {
        Seq::empty()
    } else {
        fields_leaf_scalars(structs, i, k - 1) + leaf_scalars(structs, structs[i].fields[k - 1].ty)
    }
}

/// Packed byte size of a value of type `ty`: four bytes per scalar leaf.
pub open spec fn ty_byte_size(structs: Seq<StructDefV>, ty: Ty) -> int {
    4 * leaf_scalars(structs, ty).len() as int
}

/// Well-formedness of the struct at index `j`: identifier names, at least
/// one field, unique field names, capable field types, bounded leaf count.
pub open spec fn wf_struct_at(structs: Seq<StructDefV>, j: int) -> bool {
    &&& is_ident(structs[j].name)
    &&& structs[j].fields.len() > 0
    &&& forall|k: int|
        0 <= k < structs[j].fields.len() ==> is_ident(#[trigger] structs[j].fields[k].name)
    &&& forall|k: int|
        0 <= k < structs[j].fields.len() ==> field_ty_ref_ok(#[trigger] structs[j].fields[k].ty, j)
    &&& forall|k1: int, k2: int|
        0 <= k1 < k2 < structs[j].fields.len() ==> structs[j].fields[k1].name != structs[
            j
        ].fields[k2].name
    &&& leaf_scalars(structs, Ty::Struct(j as usize)).len() <= LEAF_CAP
}

/// Well-formedness of a whole struct table, including pairwise distinct
/// struct names.
pub open spec fn wf_structs(structs: Seq<StructDefV>) -> bool {
    &&& struct_refs_ok(structs)
    &&& forall|j: int| 0 <= j < structs.len() ==> wf_struct_at(structs, j)
    &&& forall|j1: int, j2: int|
        0 <= j1 < j2 < structs.len() ==> structs[j1].name != structs[j2].name
}

/// A type that may stand under a uniform block: any value type whose struct
/// references the table resolves (samplers excluded).
pub open spec fn block_ty_ok(structs: Seq<StructDefV>, ty: Ty) -> bool {
    field_ty_ref_ok(ty, structs.len() as int)
}

/// Well-formedness of the resource interface at index `j`.
pub open spec fn wf_resource_at(
    structs: Seq<StructDefV>,
    resources: Seq<ResourceIfaceDefV>,
    j: int,
) -> bool {
    &&& is_ident(resources[j].name)
    &&& resources[j].fields.len() > 0
    &&& forall|k: int|
        0 <= k < resources[j].fields.len() ==> is_ident(#[trigger] resources[j].fields[k].name)
    &&& forall|k: int|
        0 <= k < resources[j].fields.len() ==> resource_field_ty_ok(
            structs,
            #[trigger] resources[j].fields[k].ty,
            j,
        )
    &&& forall|k1: int, k2: int|
        0 <= k1 < k2 < resources[j].fields.len() ==> resources[j].fields[k1].name != resources[
            j
        ].fields[k2].name
}

/// A resource-interface field binds a uniform block over a capable value
/// type, a non-boolean sampler, or an interface registered strictly earlier.
pub open spec fn resource_field_ty_ok(
    structs: Seq<StructDefV>,
    ty: ResourceFieldTy,
    j: int,
) -> bool {
    match ty {
        ResourceFieldTy::UniformBlock(t) => block_ty_ok(structs, t),
        ResourceFieldTy::Sampler2d(s) => s != ScalarTy::Bool,
        ResourceFieldTy::Nested(i) => i < j,
    }
}

/// Well-formedness of the whole resource-interface table.
pub open spec fn wf_resources(
    structs: Seq<StructDefV>,
    resources: Seq<ResourceIfaceDefV>,
) -> bool {
    &&& forall|j: int| 0 <= j < resources.len() ==> wf_resource_at(structs, resources, j)
    &&& forall|j1: int, j2: int|
        0 <= j1 < j2 < resources.len() ==> resources[j1].name != resources[j2].name
}

/// Appending a struct never changes the leaf scalars of types resolvable in
/// the shorter table.
pub proof fn lemma_leaf_scalars_frame(structs: Seq<StructDefV>, d: StructDefV, ty: Ty)
    requires
        struct_refs_ok(structs),
        struct_refs_ok(structs.push(d)),
        ty_rank(ty) <= structs.len(),
    ensures
        leaf_scalars(structs.push(d), ty) == leaf_scalars(structs, ty),
    decreases ty_rank(ty), 0int, 0int,
{
    match ty {
        Ty::Struct(i) => {
            lemma_fields_leaf_scalars_frame(
                structs,
                d,
                i as int,
                structs[i as int].fields.len() as int,
            );
        },
        _ => {},
    }
}

/// Companion frame lemma for field prefixes.
pub proof fn lemma_fields_leaf_scalars_frame(structs: Seq<StructDefV>, d: StructDefV, i: int, k: int)
    requires
        struct_refs_ok(structs),
        struct_refs_ok(structs.push(d)),
        0 <= i < structs.len(),
        k <= structs[i].fields.len(),
    ensures
        fields_leaf_scalars(structs.push(d), i, k) == fields_leaf_scalars(structs, i, k),
    decreases i, 1int, k,
{
    if k > 0 {
        lemma_fields_leaf_scalars_frame(structs, d, i, k - 1);
        lemma_leaf_scalars_frame(structs, d, structs[i].fields[k - 1].ty);
    }
}

/// Concatenated leaf scalars of the first `k` entries of a free-standing
/// field list, resolved against `structs`.
pub open spec fn fields_scalars(structs: Seq<StructDefV>, fields: Seq<FieldDefV>, k: int) -> Seq<
    ScalarTy,
>
    decreases structs.len(), 2int, k,
        when struct_refs_ok(structs) && k <= fields.len() && forall|k2: int|
            0 <= k2 < fields.len() ==> field_ty_ref_ok(
                #[trigger] fields[k2].ty,
                structs.len() as int,
            )
{
    if k <= 0 {
        Seq::empty()
    } else {
        fields_scalars(structs, fields, k - 1) + leaf_scalars(structs, fields[k - 1].ty)
    }
}

/// For a registered struct, the prefix scalars agree with the free-standing
/// form over its own field list.
pub proof fn lemma_fields_scalars_registered(structs: Seq<StructDefV>, i: int, k: int)
    requires
        struct_refs_ok(structs),
        0 <= i < structs.len(),
        k <= structs[i].fields.len(),
    ensures
        fields_leaf_scalars(structs, i, k) == fields_scalars(structs, structs[i].fields, k),
    decreases k,
{
    assert forall|k2: int| 0 <= k2 < structs[i].fields.len() implies field_ty_ref_ok(
        #[trigger] structs[i].fields[k2].ty,
        structs.len() as int,
    ) by {
        assert(field_ty_ref_ok(structs[i].fields[k2].ty, i));
    }
    if k > 0 {
        lemma_fields_scalars_registered(structs, i, k - 1);
    }
}

/// After pushing a new struct whose fields resolve in the old table, its
/// leaf scalars are the free-standing concatenation over the old table.
pub proof fn lemma_new_struct_scalars(structs: Seq<StructDefV>, d: StructDefV, k: int)
    requires
        struct_refs_ok(structs),
        struct_refs_ok(structs.push(d)),
        forall|k2: int|
            0 <= k2 < d.fields.len() ==> field_ty_ref_ok(
                #[trigger] d.fields[k2].ty,
                structs.len() as int,
            ),
        k <= d.fields.len(),
    ensures
        fields_leaf_scalars(structs.push(d), structs.len() as int, k) == fields_scalars(
            structs,
            d.fields,
            k,
        ),
    decreases k,
{
    if k > 0 {
        lemma_new_struct_scalars(structs, d, k - 1);
        lemma_leaf_scalars_frame(structs, d, d.fields[k - 1].ty);
    }
}

/// Mathematical model of a whole registry.
#[verifier::ext_equal]
pub struct RegistryV {
    pub structs: Seq<StructDefV>,
    pub resources: Seq<ResourceIfaceDefV>,
}

/// The schema registry: every user aggregate and resource interface, in
/// registration order.
pub struct Registry {
    structs: Vec<StructDef>,
    resources: Vec<ResourceIfaceDef>,
}

impl View for Registry {
    type V = RegistryV;

    closed spec fn view(&self) -> RegistryV {
        RegistryV {
            structs: self.structs@.map_values(|d: StructDef| d@),
            resources: self.resources@.map_values(|d: ResourceIfaceDef| d@),
        }
    }
}

/// The first fault among a struct's fields, scanning in declared order.
pub open spec fn field_fault(
    structs: Seq<StructDefV>,
    fields: Seq<FieldDefV>,
    k: int,
) -> Option<SchemaError>
    decreases fields.len() - k,
        when 0 <= k <= fields.len()
{
    if k >= fields.len() {
        None
    } else if !is_ident(fields[k].name) {
        Some(SchemaError::BadFieldName(k as usize))
    } else if exists|k2: int| 0 <= k2 < k && fields[k2].name == fields[k].name {
        Some(SchemaError::DuplicateFieldName(k as usize))
    } else if !field_ty_ref_ok(fields[k].ty, structs.len() as int) {
        Some(SchemaError::BadFieldType(k as usize))
    } else {
        field_fault(structs, fields, k + 1)
    }
}

/// The fault that blocks registration of a struct, if any: exactly the
/// checks `register_struct` performs, in order.
pub open spec fn struct_fault(
    structs: Seq<StructDefV>,
    name: Seq<char>,
    fields: Seq<FieldDefV>,
) -> Option<SchemaError> {
    if !is_ident(name) {
        Some(SchemaError::BadName)
    } else if exists|j: int| 0 <= j < structs.len() && structs[j].name == name {
        Some(SchemaError::DuplicateName)
    } else if fields.len() == 0 {
        Some(SchemaError::NoFields)
    } else if field_fault(structs, fields, 0) is Some {
        field_fault(structs, fields, 0)
    } else if fields_scalars(structs, fields, fields.len() as int).len() > LEAF_CAP {
        Some(SchemaError::TooManyLeaves)
    } else {
        None
    }
}

/// The first fault among a resource interface's fields.
pub open spec fn resource_field_fault(
    structs: Seq<StructDefV>,
    resources: Seq<ResourceIfaceDefV>,
    fields: Seq<ResourceFieldDefV>,
    k: int,
) -> Option<SchemaError>
    decreases fields.len() - k,
        when 0 <= k <= fields.len()
{
    if k >= fields.len() {
        None
    } else if !is_ident(fields[k].name) {
        Some(SchemaError::BadFieldName(k as usize))
    } else if exists|k2: int| 0 <= k2 < k && fields[k2].name == fields[k].name {
        Some(SchemaError::DuplicateFieldName(k as usize))
    } else if !resource_field_ty_ok(structs, fields[k].ty, resources.len() as int) {
        Some(SchemaError::BadFieldType(k as usize))
    } else {
        resource_field_fault(structs, resources, fields, k + 1)
    }
}

/// The fault that blocks registration of a resource interface, if any.
pub open spec fn resource_fault(
    structs: Seq<StructDefV>,
    resources: Seq<ResourceIfaceDefV>,
    name: Seq<char>,
    fields: Seq<ResourceFieldDefV>,
) -> Option<SchemaError> {
    if !is_ident(name) {
        Some(SchemaError::BadName)
    } else if exists|j: int| 0 <= j < resources.len() && resources[j].name == name {
        Some(SchemaError::DuplicateName)
    } else if fields.len() == 0 {
        Some(SchemaError::NoFields)
    } else {
        resource_field_fault(structs, resources, fields, 0)
    }
}

impl Registry {
    /// Every registered schema is well-formed.
    pub open spec fn wf(&self) -> bool {
        &&& wf_structs(self@.structs)
        &&& wf_resources(self@.structs, self@.resources)
    }

    /// An empty registry.
    pub fn new() -> (r: Registry)
        ensures
            r.wf(),
            r@.structs.len() == 0,
            r@.resources.len() == 0,
    {
        Registry { structs: Vec::new(), resources: Vec::new() }
    }

    /// Number of registered structs.
    pub fn struct_count(&self) -> (n: usize)
        ensures
            n == self@.structs.len(),
    {
        self.structs.len()
    }

    /// Number of registered resource interfaces.
    pub fn resource_count(&self) -> (n: usize)
        ensures
            n == self@.resources.len(),
    {
        self.resources.len()
    }

    /// The struct registered at `i`.
    pub fn struct_def(&self, i: usize) -> (d: &StructDef)
        requires
            i < self@.structs.len(),
        ensures
            d@ == self@.structs[i as int],
    {
        &self.structs[i]
    }

    /// The resource interface registered at `i`.
    pub fn resource_def(&self, i: usize) -> (d: &ResourceIfaceDef)
        requires
            i < self@.resources.len(),
        ensures
            d@ == self@.resources[i as int],
    {
        &self.resources[i]
    }

    /// Number of scalar leaves of a resolvable type; at most [`LEAF_CAP`].
    pub fn leaf_count(&self, ty: Ty) -> (n: u64)
        requires
            self.wf(),
            ty_rank(ty) <= self@.structs.len(),
        ensures
            n == leaf_scalars(self@.structs, ty).len(),
            n <= LEAF_CAP,
        decreases ty_rank(ty),
    {
        match ty {
            Ty::Scalar(_) => 1,
            Ty::Vec2(_) => 2,
            Ty::Vec3(_) => 3,
            Ty::Vec4(_) => 4,
            Ty::Sampler2d(_) => 0,
            Ty::Struct(i) => {
                let d = &self.structs[i];
                let ghost structs = self@.structs;
                let mut acc: u64 = 0;
                let mut k: usize = 0;
                proof {
                    lemma_fields_prefix_bound(
                        structs,
                        i as int,
                        0,
                        structs[i as int].fields.len() as int,
                    );
                }
                while k < d.fields.len()
                    invariant
                        self.wf(),
                        ty == Ty::Struct(i),
                        i < self@.structs.len(),
                        structs == self@.structs,
                        d@ == structs[i as int],
                        0 <= k <= d.fields@.len(),
                        d.fields@.len() == structs[i as int].fields.len(),
                        acc == fields_leaf_scalars(structs, i as int, k as int).len(),
                        acc <= LEAF_CAP,
                    decreases d.fields@.len() - k,
                {
                    let fty = d.fields[k].ty;
                    assert(structs[i as int].fields[k as int].ty == fty);
                    assert(field_ty_ref_ok(fty, i as int));
                    assert(ty_rank(fty) <= i as int && ty_rank(fty) < ty_rank(Ty::Struct(i)));
                    let c = self.leaf_count(fty);
                    proof {
                        lemma_fields_prefix_bound(
                            structs,
                            i as int,
                            k as int + 1,
                            structs[i as int].fields.len() as int,
                        );
                        assert(wf_struct_at(structs, i as int));
                        assert(leaf_scalars(structs, Ty::Struct(i)).len() <= LEAF_CAP);
                    }
                    acc = acc + c;
                    k = k + 1;
                }
                assert(fields_leaf_scalars(structs, i as int, k as int) == leaf_scalars(
                    structs,
                    Ty::Struct(i),
                ));
                acc
            },
        }
    }
}

impl Registry {
    /// Registers a struct schema. Succeeds exactly when [`struct_fault`]
    /// finds nothing to object to: the name and every field name is a fresh
    /// identifier, there is at least one field, every field type resolves in
    /// the registry without samplers, and the scalar leaf count stays within
    /// [`LEAF_CAP`]. On failure the registry is unchanged.
    #[verifier::loop_isolation(false)]
    pub fn register_struct(&mut self, name: String, fields: Vec<FieldDef>) -> (r: Result<
        usize,
        SchemaError,
    >)
        requires
            old(self).wf(),
        ensures
            final(self).wf(),
            final(self)@.resources == old(self)@.resources,
            match r {
                Ok(i) => {
                    &&& struct_fault(
                        old(self)@.structs,
                        name@,
                        fields@.map_values(|f: FieldDef| f@),
                    ) is None
                    &&& i == old(self)@.structs.len()
                    &&& final(self)@.structs == old(self)@.structs.push(
                        StructDefV { name: name@, fields: fields@.map_values(|f: FieldDef| f@) },
                    )
                },
                Err(e) => {
                    &&& Some(e) == struct_fault(
                        old(self)@.structs,
                        name@,
                        fields@.map_values(|f: FieldDef| f@),
                    )
                    &&& final(self)@ == old(self)@
                },
            },
    {
        let ghost structs = self@.structs;
        let ghost fieldsv = fields@.map_values(|f: FieldDef| f@);
        if !check_ident(name.as_str()) {
            return Err(SchemaError::BadName);
        }
        let mut j: usize = 0;
        while j < self.structs.len()
            invariant
                structs == self@.structs,
                0 <= j <= structs.len(),
                self.structs@.len() == structs.len(),
                forall|j2: int| 0 <= j2 < structs.len() ==> #[trigger] structs[j2].name == self.structs@[j2]@.name,
                forall|j2: int| 0 <= j2 < j ==> #[trigger] structs[j2].name != name@,
            decreases structs.len() - j,
        {
            if self.structs[j].name == name {
                proof {
                    assert(structs[j as int] == self.structs@[j as int]@);
                    assert(structs[j as int].name == name@);
                }
                return Err(SchemaError::DuplicateName);
            }
            j = j + 1;
        }
        if fields.len() == 0 {
            return Err(SchemaError::NoFields);
        }
        let mut k: usize = 0;
        while k < fields.len()
            invariant
                structs == self@.structs,
                fieldsv == fields@.map_values(|f: FieldDef| f@),
                fields@.len() == fieldsv.len(),
                0 <= k <= fieldsv.len(),
                field_fault(structs, fieldsv, 0) == field_fault(structs, fieldsv, k as int),
                forall|k2: int|
                    0 <= k2 < k ==> is_ident(#[trigger] fieldsv[k2].name) && field_ty_ref_ok(
                        fieldsv[k2].ty,
                        structs.len() as int,
                    ),
                forall|k1: int, k2: int|
                    0 <= k1 < k2 < k ==> fieldsv[k1].name != fieldsv[k2].name,
            decreases fieldsv.len() - k,
        {
            if !check_ident(fields[k].name.as_str()) {
                return Err(SchemaError::BadFieldName(k));
            }
            let mut k2: usize = 0;
            while k2 < k
                invariant
                    fieldsv == fields@.map_values(|f: FieldDef| f@),
                    fields@.len() == fieldsv.len(),
                    0 <= k2 <= k < fieldsv.len(),
                    forall|k3: int| 0 <= k3 < k2 ==> #[trigger] fieldsv[k3].name != fieldsv[k as int].name,
                decreases k - k2,
            {
                if fields[k2].name == fields[k].name {
                    proof {
                        assert(fieldsv[k2 as int] == fields@[k2 as int]@);
                        assert(fieldsv[k as int] == fields@[k as int]@);
                        assert(fieldsv[k2 as int].name == fieldsv[k as int].name);
                        assert(field_fault(structs, fieldsv, k as int) == Some(
                            SchemaError::DuplicateFieldName(k),
                        ));
                    }
                    return Err(SchemaError::DuplicateFieldName(k));
                }
                k2 = k2 + 1;
            }
            let ty_ok = match fields[k].ty {
                Ty::Struct(i) => i < self.structs.len(),
                Ty::Sampler2d(_) => false,
                _ => true,
            };
            if !ty_ok {
                return Err(SchemaError::BadFieldType(k));
            }
            k = k + 1;
        }
        assert(field_fault(structs, fieldsv, 0) is None);
        // The field scan passed, so every field type resolves; now bound the
        // scalar leaf count.
        let mut acc: u64 = 0;
        let mut k: usize = 0;
        while k < fields.len()
            invariant
                self.wf(),
                structs == self@.structs,
                fieldsv == fields@.map_values(|f: FieldDef| f@),
                fields@.len() == fieldsv.len(),
                0 <= k <= fieldsv.len(),
                forall|k2: int|
                    0 <= k2 < fieldsv.len() ==> field_ty_ref_ok(
                        #[trigger] fieldsv[k2].ty,
                        structs.len() as int,
                    ),
                acc == fields_scalars(structs, fieldsv, k as int).len(),
                acc <= LEAF_CAP,
            decreases fieldsv.len() - k,
        {
            let fty = fields[k].ty;
            assert(fieldsv[k as int].ty == fty);
            let c = self.leaf_count(fty);
            acc = acc + c;
            if acc > LEAF_CAP {
                proof {
                    lemma_fields_scalars_prefix_bound(
                        structs,
                        fieldsv,
                        k as int + 1,
                        fieldsv.len() as int,
                    );
                }
                return Err(SchemaError::TooManyLeaves);
            }
            k = k + 1;
        }
        assert(fields_scalars(structs, fieldsv, fieldsv.len() as int).len() <= LEAF_CAP);
        let i = self.structs.len();
        let ghost d = StructDefV { name: name@, fields: fieldsv };
        self.structs.push(StructDef { name, fields });
        proof {
            assert(self@.structs =~= structs.push(d));
            assert(struct_refs_ok(structs.push(d))) by {
                assert forall|j: int, k: int|
                    0 <= j < structs.push(d).len() && 0 <= k < structs.push(d)[j].fields.len()
                    implies field_ty_ref_ok(#[trigger] structs.push(d)[j].fields[k].ty, j) by {
                    if j < structs.len() {
                        assert(field_ty_ref_ok(structs[j].fields[k].ty, j));
                    } else {
                        assert(field_ty_ref_ok(fieldsv[k].ty, structs.len() as int));
                    }
                }
            }
            lemma_new_struct_scalars(structs, d, fieldsv.len() as int);
            assert(leaf_scalars(structs.push(d), Ty::Struct(i)).len() <= LEAF_CAP);
            assert forall|j: int| 0 <= j < structs.push(d).len() implies wf_struct_at(
                structs.push(d),
                j,
            ) by {
                if j < structs.len() {
                    assert(wf_struct_at(structs, j));
                    lemma_fields_leaf_scalars_frame(
                        structs,
                        d,
                        j,
                        structs[j].fields.len() as int,
                    );
                }
            }
            assert(wf_resources(structs.push(d), self@.resources)) by {
                assert forall|j: int| 0 <= j < self@.resources.len() implies wf_resource_at(
                    structs.push(d),
                    self@.resources,
                    j,
                ) by {
                    assert(wf_resource_at(structs, self@.resources, j));
                }
            }
        }
        Ok(i)
    }

    /// Registers a resource interface. Succeeds exactly when
    /// [`resource_fault`] finds nothing to object to; on failure the
    /// registry is unchanged.
    #[verifier::loop_isolation(false)]
    pub fn register_resource_interface(&mut self, name: String, fields: Vec<ResourceFieldDef>) -> (r:
        Result<usize, SchemaError>)
        requires
            old(self).wf(),
        ensures
            final(self).wf(),
            final(self)@.structs == old(self)@.structs,
            match r {
                Ok(i) => {
                    &&& resource_fault(
                        old(self)@.structs,
                        old(self)@.resources,
                        name@,
                        fields@.map_values(|f: ResourceFieldDef| f@),
                    ) is None
                    &&& i == old(self)@.resources.len()
                    &&& final(self)@.resources == old(self)@.resources.push(
                        ResourceIfaceDefV {
                            name: name@,
                            fields: fields@.map_values(|f: ResourceFieldDef| f@),
                        },
                    )
                },
                Err(e) => {
                    &&& Some(e) == resource_fault(
                        old(self)@.structs,
                        old(self)@.resources,
                        name@,
                        fields@.map_values(|f: ResourceFieldDef| f@),
                    )
                    &&& final(self)@ == old(self)@
                },
            },
    {
        let ghost structs = self@.structs;
        let ghost resources = self@.resources;
        let ghost fieldsv = fields@.map_values(|f: ResourceFieldDef| f@);
        if !check_ident(name.as_str()) {
            return Err(SchemaError::BadName);
        }
        let mut j: usize = 0;
        while j < self.resources.len()
            invariant
                resources == self@.resources,
                0 <= j <= resources.len(),
                self.resources@.len() == resources.len(),
                forall|j2: int|
                    0 <= j2 < resources.len() ==> #[trigger] resources[j2].name == self.resources@[j2]@.name,
                forall|j2: int| 0 <= j2 < j ==> #[trigger] resources[j2].name != name@,
            decreases resources.len() - j,
        {
            if self.resources[j].name == name {
                proof {
                    assert(resources[j as int] == self.resources@[j as int]@);
                    assert(resources[j as int].name == name@);
                }
                return Err(SchemaError::DuplicateName);
            }
            j = j + 1;
        }
        if fields.len() == 0 {
            return Err(SchemaError::NoFields);
        }
        let mut k: usize = 0;
        while k < fields.len()
            invariant
                structs == self@.structs,
                resources == self@.resources,
                fieldsv == fields@.map_values(|f: ResourceFieldDef| f@),
                fields@.len() == fieldsv.len(),
                0 <= k <= fieldsv.len(),
                resource_field_fault(structs, resources, fieldsv, 0) == resource_field_fault(
                    structs,
                    resources,
                    fieldsv,
                    k as int,
                ),
                forall|k2: int|
                    0 <= k2 < k ==> is_ident(#[trigger] fieldsv[k2].name) && resource_field_ty_ok(
                        structs,
                        fieldsv[k2].ty,
                        resources.len() as int,
                    ),
                forall|k1: int, k2: int|
                    0 <= k1 < k2 < k ==> fieldsv[k1].name != fieldsv[k2].name,
            decreases fieldsv.len() - k,
        {
            if !check_ident(fields[k].name.as_str()) {
                return Err(SchemaError::BadFieldName(k));
            }
            let mut k2: usize = 0;
            while k2 < k
                invariant
                    fieldsv == fields@.map_values(|f: ResourceFieldDef| f@),
                    fields@.len() == fieldsv.len(),
                    0 <= k2 <= k < fieldsv.len(),
                    forall|k3: int| 0 <= k3 < k2 ==> #[trigger] fieldsv[k3].name != fieldsv[k as int].name,
                decreases k - k2,
            {
                if fields[k2].name == fields[k].name {
                    proof {
                        assert(fieldsv[k2 as int] == fields@[k2 as int]@);
                        assert(fieldsv[k as int] == fields@[k as int]@);
                        assert(fieldsv[k2 as int].name == fieldsv[k as int].name);
                        assert(resource_field_fault(structs, resources, fieldsv, k as int) == Some(
                            SchemaError::DuplicateFieldName(k),
                        ));
                    }
                    return Err(SchemaError::DuplicateFieldName(k));
                }
                k2 = k2 + 1;
            }
            let ty_ok = match fields[k].ty {
                ResourceFieldTy::UniformBlock(t) => match t {
                    Ty::Struct(i) => i < self.structs.len(),
                    Ty::Sampler2d(_) => false,
                    _ => true,
                },
                ResourceFieldTy::Sampler2d(s) => s != ScalarTy::Bool,
                ResourceFieldTy::Nested(i) => i < self.resources.len(),
            };
            if !ty_ok {
                return Err(SchemaError::BadFieldType(k));
            }
            k = k + 1;
        }
        let i = self.resources.len();
        let ghost d = ResourceIfaceDefV { name: name@, fields: fieldsv };
        self.resources.push(ResourceIfaceDef { name, fields });
        proof {
            assert(self@.resources =~= resources.push(d));
            assert forall|j: int| 0 <= j < resources.push(d).len() implies wf_resource_at(
                structs,
                resources.push(d),
                j,
            ) by {
                if j < resources.len() {
                    assert(wf_resource_at(structs, resources, j));
                    assert forall|k2: int| 0 <= k2 < resources[j].fields.len()
                        implies resource_field_ty_ok(
                        structs,
                        #[trigger] resources[j].fields[k2].ty,
                        j,
                    ) by {}
                }
            }
        }
        Ok(i)
    }
}

/// A prefix of a free-standing field list never has more leaf scalars than
/// the whole list.
pub proof fn lemma_fields_scalars_prefix_bound(
    structs: Seq<StructDefV>,
    fields: Seq<FieldDefV>,
    k: int,
    n: int,
)
    requires
        struct_refs_ok(structs),
        forall|k2: int|
            0 <= k2 < fields.len() ==> field_ty_ref_ok(
                #[trigger] fields[k2].ty,
                structs.len() as int,
            ),
        0 <= k <= n <= fields.len(),
    ensures
        fields_scalars(structs, fields, k).len() <= fields_scalars(structs, fields, n).len(),
    decreases n - k,
{
    if k < n {
        lemma_fields_scalars_prefix_bound(structs, fields, k + 1, n);
    }
}

impl Registry {
    /// Appends the scalar leaf kinds of `ty` to `out`, in depth-first
    /// declared order.
    pub fn push_leaf_kinds(&self, ty: Ty, out: &mut Vec<ScalarTy>)
        requires
            self.wf(),
            ty_rank(ty) <= self@.structs.len(),
        ensures
            final(out)@ == old(out)@ + leaf_scalars(self@.structs, ty),
        decreases ty_rank(ty),
    {
        let ghost structs = self@.structs;
        match ty {
            Ty::Scalar(s) => {
                out.push(s);
                assert(out@ =~= old(out)@ + leaf_scalars(structs, ty));
            },
            Ty::Vec2(s) => {
                out.push(s);
                out.push(s);
                assert(out@ =~= old(out)@ + leaf_scalars(structs, ty));
            },
            Ty::Vec3(s) => {
                out.push(s);
                out.push(s);
                out.push(s);
                assert(out@ =~= old(out)@ + leaf_scalars(structs, ty));
            },
            Ty::Vec4(s) => {
                out.push(s);
                out.push(s);
                out.push(s);
                out.push(s);
                assert(out@ =~= old(out)@ + leaf_scalars(structs, ty));
            },
            Ty::Sampler2d(_) => {
                assert(out@ =~= old(out)@ + leaf_scalars(structs, ty));
            },
            Ty::Struct(i) => {
                let d = self.struct_def(i);
                let n = d.fields.len();
                let mut k: usize = 0;
                while k < n
                    invariant
                        self.wf(),
                        ty == Ty::Struct(i),
                        structs == self@.structs,
                        i < structs.len(),
                        d@ == structs[i as int],
                        n == d.fields@.len(),
                        d.fields@.len() == structs[i as int].fields.len(),
                        0 <= k <= n,
                        out@ == old(out)@ + fields_leaf_scalars(structs, i as int, k as int),
                    decreases n - k,
                {
                    let fty = d.fields[k].ty;
                    assert(structs[i as int].fields[k as int].ty == fty);
                    assert(field_ty_ref_ok(fty, i as int));
                    self.push_leaf_kinds(fty, out);
                    assert(out@ =~= old(out)@ + fields_leaf_scalars(
                        structs,
                        i as int,
                        k as int + 1,
                    ));
                    k = k + 1;
                }
                assert(fields_leaf_scalars(structs, i as int, n as int) == leaf_scalars(
                    structs,
                    Ty::Struct(i),
                ));
            },
        }
    }

    /// The scalar leaf kinds of `ty`, in depth-first declared order.
    pub fn leaf_kinds(&self, ty: Ty) -> (out: Vec<ScalarTy>)
        requires
            self.wf(),
            ty_rank(ty) <= self@.structs.len(),
        ensures
            out@ == leaf_scalars(self@.structs, ty),
    {
        let mut out: Vec<ScalarTy> = Vec::new();
        self.push_leaf_kinds(ty, &mut out);
        out
    }
}

/// A prefix of a struct's fields never has more leaf scalars than the whole.
pub proof fn lemma_fields_prefix_bound(structs: Seq<StructDefV>, i: int, k: int, n: int)
    requires
        struct_refs_ok(structs),
        0 <= i < structs.len(),
        0 <= k <= n <= structs[i].fields.len(),
    ensures
        fields_leaf_scalars(structs, i, k).len() <= fields_leaf_scalars(structs, i, n).len(),
    decreases n - k,
{
    if k < n {
        lemma_fields_prefix_bound(structs, i, k + 1, n);
    }
}

} // verus!
