//! Text building blocks for the code generator: decimal rendering, path
//! sanitizing and shader type names.

use vstd::prelude::*;

use crate::schema::{Registry, StructDefV};
use crate::ty::{ScalarTy, Ty};

verus! {

use vstd::string::{StrSliceExecFns, StringExecFns};

/// The decimal digit character for one digit value.
pub open spec fn dec_digit(d: int) -> char {
    if d == 0 {
        '0'
    } else if d == 1 {
        '1'
    } else if d == 2 {
        '2'
    } else if d == 3 {
        '3'
    } else if d == 4 {
        '4'
    } else if d == 5 {
        '5'
    } else if d == 6 {
        '6'
    } else if d == 7 {
        '7'
    } else if d == 8 {
        '8'
    } else {
        '9'
    }
}

/// Decimal rendering of a nonnegative number, most significant digit
/// first.
pub open spec fn spec_dec(n: int) -> Seq<char>
    decreases n,
{
    if n < 10 {
        seq![dec_digit(n)]
    } else {
        spec_dec(n / 10) + seq![dec_digit(n % 10)]
    }
}

/// Decimal rendering of a signed 32-bit value, with a leading minus sign
/// where negative.
pub open spec fn spec_dec_i32(v: i32) -> Seq<char> {
    if v >= 0 {
        spec_dec(v as int)
    } else {
        seq!['-'] + spec_dec(-(v as int))
    }
}

/// Executable decimal digit.
fn digit_str(d: u64) -> (r: &'static str)
    requires
        d < 10,
    ensures
        r@ == seq![dec_digit(d as int)],
{
    let r: &'static str = if d == 0 {
        "0"
    } else if d == 1 {
        "1"
    } else if d == 2 {
        "2"
    } else if d == 3 {
        "3"
    } else if d == 4 {
        "4"
    } else if d == 5 {
        "5"
    } else if d == 6 {
        "6"
    } else if d == 7 {
        "7"
    } else if d == 8 {
        "8"
    } else {
        "9"
    };
    proof {
        reveal_strlit("0");
        reveal_strlit("1");
        reveal_strlit("2");
        reveal_strlit("3");
        reveal_strlit("4");
        reveal_strlit("5");
        reveal_strlit("6");
        reveal_strlit("7");
        reveal_strlit("8");
        reveal_strlit("9");
        assert(r@ =~= seq![dec_digit(d as int)]);
    }
    r
}

/// Executable decimal rendering.
pub fn fmt_u64(n: u64) -> (r: String)
    ensures
        r@ == spec_dec(n as int),
    decreases n,
{
    if n < 10 {
        return digit_str(n).to_owned();
    }
    let mut r = fmt_u64(n / 10);
    r.append(digit_str(n % 10));
    assert(r@ =~= spec_dec(n as int));
    r
}

/// Executable signed decimal rendering.
pub fn fmt_i32(v: i32) -> (r: String)
    ensures
        r@ == spec_dec_i32(v),
{
    if v >= 0 {
        let r = fmt_u64(v as u64);
        assert(r@ =~= spec_dec_i32(v));
        r
    } else {
        let mut r = String::new();
        r.append("-");
        let m: u64 = (-(v as i64)) as u64;
        let d = fmt_u64(m);
        r.append(d.as_str());
        proof {
            reveal_strlit("-");
            assert(r@ =~= seq!['-'] + spec_dec(-(v as int)));
        }
        r
    }
}

/// A dotted path turned into one identifier: dots become underscores.
pub open spec fn sanitize(p: Seq<char>) -> Seq<char> {
    p.map_values(|c: char| if c == '.' { '_' } else { c })
}

/// Executable path sanitizing.
pub fn ident_of(p: &str) -> (r: String)
    ensures
        r@ == sanitize(p@),
{
    let n = p.unicode_len();
    let mut r = String::new();
    let mut i: usize = 0;
    while i < n
        invariant
            n == p@.len(),
            0 <= i <= n,
            r@ == sanitize(p@).take(i as int),
        decreases n - i,
    {
        let c = p.get_char(i);
        if c == '.' {
            r.append("_");
            proof {
                reveal_strlit("_");
                assert(r@ =~= sanitize(p@).take(i as int + 1));
            }
        } else {
            let s1 = p.substring_char(i, i + 1);
            r.append(s1);
            proof {
                assert(s1@ =~= seq![p@[i as int]]);
                assert(r@ =~= sanitize(p@).take(i as int + 1));
            }
        }
        i = i + 1;
    }
    assert(r@ =~= sanitize(p@));
    r
}

/// The shader-language name of a type: scalar and vector names are built
/// in, an aggregate goes by its registered name, samplers by their sample
/// kind.
pub open spec fn spec_glsl_ty(structs: Seq<StructDefV>, ty: Ty) -> Seq<char> {
    match ty {
        Ty::Scalar(ScalarTy::Bool) => "bool"@,
        Ty::Scalar(ScalarTy::F32) => "float"@,
        Ty::Scalar(ScalarTy::I32) => "int"@,
        Ty::Scalar(ScalarTy::U32) => "uint"@,
        Ty::Vec2(ScalarTy::F32) => "vec2"@,
        Ty::Vec3(ScalarTy::F32) => "vec3"@,
        Ty::Vec4(ScalarTy::F32) => "vec4"@,
        Ty::Vec2(ScalarTy::I32) => "ivec2"@,
        Ty::Vec3(ScalarTy::I32) => "ivec3"@,
        Ty::Vec4(ScalarTy::I32) => "ivec4"@,
        Ty::Vec2(ScalarTy::U32) => "uvec2"@,
        Ty::Vec3(ScalarTy::U32) => "uvec3"@,
        Ty::Vec4(ScalarTy::U32) => "uvec4"@,
        Ty::Vec2(ScalarTy::Bool) => "bvec2"@,
        Ty::Vec3(ScalarTy::Bool) => "bvec3"@,
        Ty::Vec4(ScalarTy::Bool) => "bvec4"@,
        Ty::Struct(i) => if i < structs.len() {
            structs[i as int].name
        } else {
            Seq::empty()
        },
        Ty::Sampler2d(ScalarTy::I32) => "isampler2D"@,
        Ty::Sampler2d(ScalarTy::U32) => "usampler2D"@,
        Ty::Sampler2d(_) => "sampler2D"@,
    }
}

/// Executable shader type name.
pub fn glsl_ty_name(reg: &Registry, ty: Ty) -> (r: String)
    requires
        ty matches Ty::Struct(i) ==> i < reg@.structs.len(),
    ensures
        r@ == spec_glsl_ty(reg@.structs, ty),
{
    match ty {
        Ty::Scalar(ScalarTy::Bool) => "bool".to_owned(),
        Ty::Scalar(ScalarTy::F32) => "float".to_owned(),
        Ty::Scalar(ScalarTy::I32) => "int".to_owned(),
        Ty::Scalar(ScalarTy::U32) => "uint".to_owned(),
        Ty::Vec2(ScalarTy::F32) => "vec2".to_owned(),
        Ty::Vec3(ScalarTy::F32) => "vec3".to_owned(),
        Ty::Vec4(ScalarTy::F32) => "vec4".to_owned(),
        Ty::Vec2(ScalarTy::I32) => "ivec2".to_owned(),
        Ty::Vec3(ScalarTy::I32) => "ivec3".to_owned(),
        Ty::Vec4(ScalarTy::I32) => "ivec4".to_owned(),
        Ty::Vec2(ScalarTy::U32) => "uvec2".to_owned(),
        Ty::Vec3(ScalarTy::U32) => "uvec3".to_owned(),
        Ty::Vec4(ScalarTy::U32) => "uvec4".to_owned(),
        Ty::Vec2(ScalarTy::Bool) => "bvec2".to_owned(),
        Ty::Vec3(ScalarTy::Bool) => "bvec3".to_owned(),
        Ty::Vec4(ScalarTy::Bool) => "bvec4".to_owned(),
        Ty::Struct(i) => reg.struct_def(i).name.clone(),
        Ty::Sampler2d(ScalarTy::I32) => "isampler2D".to_owned(),
        Ty::Sampler2d(ScalarTy::U32) => "usampler2D".to_owned(),
        Ty::Sampler2d(ScalarTy::Bool) => "sampler2D".to_owned(),
        Ty::Sampler2d(ScalarTy::F32) => "sampler2D".to_owned(),
    }
}

} // verus!
