//! The vector and quaternion types of `glam`, carried through the library as
//! opaque values, and the few operations on them that transform resolution
//! composes.
use vstd::prelude::*;

verus! {

#[verifier::external_type_specification]
#[verifier::external_body]
pub struct ExVec3(glam::Vec3);

#[verifier::external_type_specification]
#[verifier::external_body]
pub struct ExVec4(glam::Vec4);

#[verifier::external_type_specification]
#[verifier::external_body]
pub struct ExQuat(glam::Quat);

#[verifier::external_type_specification]
#[verifier::external_body]
pub struct ExMat4(glam::Mat4);

/// The first three components of a four-component vector.
pub uninterp spec fn vec4_xyz(v: glam::Vec4) -> glam::Vec3;

/// The component-wise sum of two vectors.
pub uninterp spec fn vec3_sum(a: glam::Vec3, b: glam::Vec3) -> glam::Vec3;

/// The component-wise product of two vectors.
pub uninterp spec fn vec3_product(a: glam::Vec3, b: glam::Vec3) -> glam::Vec3;

/// The Hamilton product `a * b` of two quaternions.
pub uninterp spec fn quat_product(a: glam::Quat, b: glam::Quat) -> glam::Quat;

/// Relies on `glam::Vec4::truncate`: it drops the `w` component.
#[verifier::external_body]
pub(crate) fn xyz(v: glam::Vec4) -> (r: glam::Vec3)
    ensures
        r == vec4_xyz(v),
{
    v.truncate()
}

/// Relies on `glam::Vec3`'s `+`: the component-wise sum.
#[verifier::external_body]
pub(crate) fn add3(a: glam::Vec3, b: glam::Vec3) -> (r: glam::Vec3)
    ensures
        r == vec3_sum(a, b),
{
    a + b
}

/// Relies on `glam::Vec3`'s `*`: the component-wise product.
#[verifier::external_body]
pub(crate) fn mul3(a: glam::Vec3, b: glam::Vec3) -> (r: glam::Vec3)
    ensures
        r == vec3_product(a, b),
{
    a * b
}

/// Relies on `glam::Quat`'s `*`: the quaternion product.
#[verifier::external_body]
pub(crate) fn mul_quat(a: glam::Quat, b: glam::Quat) -> (r: glam::Quat)
    ensures
        r == quat_product(a, b),
{
    a * b
}

/// The vector `(x, y, z)` of integers, each converted to a float.
pub uninterp spec fn vec3_of_ints(x: i32, y: i32, z: i32) -> glam::Vec3;

/// The vector `(x, y, z, w)` of integers, each converted to a float.
pub uninterp spec fn vec4_of_ints(x: i32, y: i32, z: i32, w: i32) -> glam::Vec4;

/// The quaternion `x i + y j + z k + w` of integers, each converted to a
/// float; `quat_of_ints(0, 0, 0, 1)` is the identity rotation.
pub uninterp spec fn quat_of_ints(x: i32, y: i32, z: i32, w: i32) -> glam::Quat;

/// The affine matrix that scales, then rotates, then translates.
pub uninterp spec fn trs_matrix(scale: glam::Vec3, rotation: glam::Quat, translation: glam::Vec3) -> glam::Mat4;

/// The point `p` transformed by the matrix `m`, with perspective divide.
pub uninterp spec fn projected_point(m: glam::Mat4, p: glam::Vec3) -> glam::Vec3;

/// Relies on `glam::IVec3::as_vec3`: each component converted to `f32`.
#[verifier::external_body]
pub(crate) fn vec3_from_ints(x: i32, y: i32, z: i32) -> (r: glam::Vec3)
    ensures
        r == vec3_of_ints(x, y, z),
{
    glam::IVec3::new(x, y, z).as_vec3()
}

/// Relies on `glam::IVec4::as_vec4`: each component converted to `f32`.
#[verifier::external_body]
pub(crate) fn vec4_from_ints(x: i32, y: i32, z: i32, w: i32) -> (r: glam::Vec4)
    ensures
        r == vec4_of_ints(x, y, z, w),
{
    glam::IVec4::new(x, y, z, w).as_vec4()
}

/// Relies on `glam::Quat::from_vec4`, which keeps the components as given,
/// applied to `glam::IVec4::as_vec4`.
#[verifier::external_body]
pub(crate) fn quat_from_ints(x: i32, y: i32, z: i32, w: i32) -> (r: glam::Quat)
    ensures
        r == quat_of_ints(x, y, z, w),
{
    glam::Quat::from_vec4(glam::IVec4::new(x, y, z, w).as_vec4())
}

/// Relies on `glam::Mat4::from_scale_rotation_translation`.
#[verifier::external_body]
pub(crate) fn matrix_from_trs(scale: glam::Vec3, rotation: glam::Quat, translation: glam::Vec3) -> (r: glam::Mat4)
    ensures
        r == trs_matrix(scale, rotation, translation),
{
    glam::Mat4::from_scale_rotation_translation(scale, rotation, translation)
}

/// Relies on `glam::Mat4::project_point3`.
#[verifier::external_body]
pub(crate) fn project_point(m: glam::Mat4, p: glam::Vec3) -> (r: glam::Vec3)
    ensures
        r == projected_point(m, p),
{
    m.project_point3(p)
}

} // verus!
