//! Semantic types of the shader language: scalar kinds, vectors of them,
//! user-defined aggregates (by index into a schema registry), and samplers.

use vstd::prelude::*;

verus! {

/// A primitive scalar kind. A 32-bit float in the host domain is carried as
/// its IEEE-754 bit pattern, so every scalar occupies exactly four bytes.
#[derive(Clone, Copy, Debug, PartialEq, Eq, Structural)]
pub enum ScalarTy {
    Bool,
    F32,
    I32,
    U32,
}

/// The semantic type of a symbolic value or of a struct field. `Struct(i)`
/// refers to the `i`-th entry of the [`crate::schema::Registry`] it was
/// registered in.
#[derive(Clone, Copy, Debug, PartialEq, Eq, Structural)]
pub enum Ty {
    Scalar(ScalarTy),
    Vec2(ScalarTy),
    Vec3(ScalarTy),
    Vec4(ScalarTy),
    Struct(usize),
    Sampler2d(ScalarTy),
}

impl Ty {
    /// Number of scalar components of a scalar or vector type.
    pub open spec fn spec_component_count(self) -> nat {
        match self {
            Ty::Scalar(_) => 1,
            Ty::Vec2(_) => 2,
            Ty::Vec3(_) => 3,
            Ty::Vec4(_) => 4,
            Ty::Struct(_) => 0,
            Ty::Sampler2d(_) => 0,
        }
    }

    /// The scalar kind of a scalar or vector type.
    pub open spec fn spec_component_scalar(self) -> ScalarTy {
        match self {
            Ty::Scalar(s) => s,
            Ty::Vec2(s) => s,
            Ty::Vec3(s) => s,
            Ty::Vec4(s) => s,
            Ty::Struct(_) => ScalarTy::Bool,
            Ty::Sampler2d(_) => ScalarTy::Bool,
        }
    }

    /// A leaf type of an interface: a scalar or a vector, never an aggregate
    /// or a sampler.
    pub open spec fn spec_is_leaf(self) -> bool {
        match self {
            Ty::Scalar(_) => true,
            Ty::Vec2(_) => true,
            Ty::Vec3(_) => true,
            Ty::Vec4(_) => true,
            Ty::Struct(_) => false,
            Ty::Sampler2d(_) => false,
        }
    }

    /// True of scalar and vector types whose components admit arithmetic.
    pub open spec fn spec_is_numeric(self) -> bool {
        self.spec_is_leaf() && self.spec_component_scalar() != ScalarTy::Bool
    }

    /// Executable form of [`Ty::spec_is_leaf`].
    pub fn is_leaf(self) -> (r: bool)
        ensures
            r == self.spec_is_leaf(),
    {
        match self {
            Ty::Scalar(_) => true,
            Ty::Vec2(_) => true,
            Ty::Vec3(_) => true,
            Ty::Vec4(_) => true,
            Ty::Struct(_) => false,
            Ty::Sampler2d(_) => false,
        }
    }

    /// Executable form of [`Ty::spec_component_scalar`].
    pub fn component_scalar(self) -> (s: ScalarTy)
        ensures
            s == self.spec_component_scalar(),
    {
        match self {
            Ty::Scalar(s) => s,
            Ty::Vec2(s) => s,
            Ty::Vec3(s) => s,
            Ty::Vec4(s) => s,
            Ty::Struct(_) => ScalarTy::Bool,
            Ty::Sampler2d(_) => ScalarTy::Bool,
        }
    }

    /// Executable form of [`Ty::spec_is_numeric`].
    pub fn is_numeric(self) -> (r: bool)
        ensures
            r == self.spec_is_numeric(),
    {
        match self {
            Ty::Scalar(s) => s != ScalarTy::Bool,
            Ty::Vec2(s) => s != ScalarTy::Bool,
            Ty::Vec3(s) => s != ScalarTy::Bool,
            Ty::Vec4(s) => s != ScalarTy::Bool,
            Ty::Struct(_) => false,
            Ty::Sampler2d(_) => false,
        }
    }
}

} // verus!
