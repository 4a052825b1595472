//! The 4x4 transform matrix of the graphics state.
//!
//! A matrix is held as the bit patterns of its sixteen float entries in
//! column-major order, so that contracts can speak of matrix values as
//! plain words. The arithmetic itself (products, inverses, view
//! matrices) is delegated to glam behind the trusted functions below;
//! structural constructors (identity, translation, scaling) are stated
//! exactly, entry by entry.
use vstd::prelude::*;

use crate::text::copy_u32s;

verus! {

/// The bit pattern of the float value one.
pub open spec fn one_bits() -> u32 {
    0x3f80_0000u32
}

/// A 4x4 float matrix: sixteen entries as bit patterns, column-major.
#[derive(Debug, PartialEq)]
pub struct Matrix {
    bits: Vec<u32>,
}

impl View for Matrix {
    type V = Seq<u32>;

    closed spec fn view(&self) -> Seq<u32> {
        self.bits@
    }
}

impl Clone for Matrix {
    fn clone(&self) -> (r: Self)
        ensures
            r@ == self@,
    {
        Matrix { bits: copy_u32s(&self.bits) }
    }
}

/// The identity matrix, entry by entry.
pub open spec fn identity_bits() -> Seq<u32> {
    seq![
        one_bits(), 0u32, 0u32, 0u32,
        0u32, one_bits(), 0u32, 0u32,
        0u32, 0u32, one_bits(), 0u32,
        0u32, 0u32, 0u32, one_bits(),
    ]
}

/// The matrix translating by `(x, y, z)`, entry by entry: identity
/// columns, the translation in the last column.
pub open spec fn translation_bits(x: u32, y: u32, z: u32) -> Seq<u32> {
    seq![
        one_bits(), 0u32, 0u32, 0u32,
        0u32, one_bits(), 0u32, 0u32,
        0u32, 0u32, one_bits(), 0u32,
        x, y, z, one_bits(),
    ]
}

/// The matrix scaling by `(x, y, z)`, entry by entry: the factors on the
/// diagonal.
pub open spec fn scale_bits(x: u32, y: u32, z: u32) -> Seq<u32> {
    seq![
        x, 0u32, 0u32, 0u32,
        0u32, y, 0u32, 0u32,
        0u32, 0u32, z, 0u32,
        0u32, 0u32, 0u32, one_bits(),
    ]
}

impl Matrix {
    pub open spec fn wf(&self) -> bool {
        self@.len() == 16
    }

    /// The identity matrix.
    pub fn identity() -> (r: Matrix)
        ensures
            r@ == identity_bits(),
            r.wf(),
    {
        Matrix::diagonal(0x3f80_0000u32, 0x3f80_0000u32, 0x3f80_0000u32)
    }

    /// The matrix with `(x, y, z, one)` on the diagonal.
    fn diagonal(x: u32, y: u32, z: u32) -> (r: Matrix)
        ensures
            r@ == scale_bits(x, y, z),
            r.wf(),
    {
        let mut bits: Vec<u32> = Vec::new();
        bits.push(x);
        bits.push(0);
        bits.push(0);
        bits.push(0);
        bits.push(0);
        bits.push(y);
        bits.push(0);
        bits.push(0);
        bits.push(0);
        bits.push(0);
        bits.push(z);
        bits.push(0);
        bits.push(0);
        bits.push(0);
        bits.push(0);
        bits.push(0x3f80_0000u32);
        proof {
            assert(bits@ =~= scale_bits(x, y, z));
        }
        Matrix { bits }
    }

    /// A matrix from sixteen entry bit patterns, column-major.
    pub fn from_cols_bits(bits: Vec<u32>) -> (r: Matrix)
        requires
            bits@.len() == 16,
        ensures
            r@ == bits@,
            r.wf(),
    {
        Matrix { bits }
    }

    /// The matrix translating by `(x, y, z)` (entries as bit patterns).
    pub fn translation(x: u32, y: u32, z: u32) -> (r: Matrix)
        ensures
            r@ == translation_bits(x, y, z),
            r.wf(),
    {
        let mut bits: Vec<u32> = Vec::new();
        bits.push(0x3f80_0000u32);
        bits.push(0);
        bits.push(0);
        bits.push(0);
        bits.push(0);
        bits.push(0x3f80_0000u32);
        bits.push(0);
        bits.push(0);
        bits.push(0);
        bits.push(0);
        bits.push(0x3f80_0000u32);
        bits.push(0);
        bits.push(x);
        bits.push(y);
        bits.push(z);
        bits.push(0x3f80_0000u32);
        proof {
            assert(bits@ =~= translation_bits(x, y, z));
        }
        Matrix { bits }
    }

    /// The matrix scaling by `(x, y, z)` (entries as bit patterns).
    pub fn scale(x: u32, y: u32, z: u32) -> (r: Matrix)
        ensures
            r@ == scale_bits(x, y, z),
            r.wf(),
    {
        Matrix::diagonal(x, y, z)
    }

    /// The entry bit patterns, column-major.
    pub fn entries(&self) -> (r: &Vec<u32>)
        ensures
            r@ == self@,
    {
        &self.bits
    }
}

/// The product of two 4x4 float matrices, by entry bit patterns: a
/// function of the entries alone (products and sums of floats in a fixed
/// order).
pub uninterp spec fn mat_mul_of(a: Seq<u32>, b: Seq<u32>) -> Seq<u32>;

/// Relies on glam's `Mat4` multiplication (`Mul<Mat4> for Mat4`): the
/// matrix product of the two arguments, deterministic in the entries.
#[verifier::external_body]
pub fn mat_mul(a: &Matrix, b: &Matrix) -> (r: Matrix)
    requires
        a.wf(),
        b.wf(),
    ensures
        r@ == mat_mul_of(a@, b@),
        r.wf(),
{
    let mut xa = glam::Mat4::IDENTITY.to_cols_array();
    let mut xb = glam::Mat4::IDENTITY.to_cols_array();
    for i in 0..16 {
        xa[i] = bytemuck::cast(a.bits[i]);
        xb[i] = bytemuck::cast(b.bits[i]);
    }
    let m = glam::Mat4::from_cols_array(&xa) * glam::Mat4::from_cols_array(&xb);
    Matrix { bits: m.to_cols_array().iter().map(|v| v.to_bits()).collect() }
}

/// The inverse of a 4x4 float matrix, by entry bit patterns: a function
/// of the entries alone (cofactor arithmetic in a fixed order).
pub uninterp spec fn mat_inverse_of(m: Seq<u32>) -> Seq<u32>;

/// Relies on glam's `Mat4::inverse`: the matrix inverse of the argument,
/// deterministic in the entries — the fixed cofactor operation sequence
/// of the pinned glam version. A singular matrix gives non-finite
/// entries, never a fault.
#[verifier::external_body]
pub fn mat_inverse(m: &Matrix) -> (r: Matrix)
    requires
        m.wf(),
    ensures
        r@ == mat_inverse_of(m@),
        r.wf(),
{
    let mut xm = glam::Mat4::IDENTITY.to_cols_array();
    for i in 0..16 {
        xm[i] = bytemuck::cast(m.bits[i]);
    }
    let inv = glam::Mat4::from_cols_array(&xm).inverse();
    Matrix { bits: inv.to_cols_array().iter().map(|v| v.to_bits()).collect() }
}

/// The left-handed view matrix for an eye point, a focal point and an up
/// vector (each as three float bit patterns): a function of the
/// arguments alone (differences, square roots and divisions in a fixed
/// order).
pub uninterp spec fn mat_look_at_of(
    ex: u32,
    ey: u32,
    ez: u32,
    lx: u32,
    ly: u32,
    lz: u32,
    ux: u32,
    uy: u32,
    uz: u32,
) -> Seq<u32>;

/// Relies on glam's `Mat4::look_at_lh`: the left-handed look-at view
/// matrix, deterministic in the nine scalars.
#[verifier::external_body]
pub fn mat_look_at(
    ex: u32,
    ey: u32,
    ez: u32,
    lx: u32,
    ly: u32,
    lz: u32,
    ux: u32,
    uy: u32,
    uz: u32,
) -> (r: Matrix)
    ensures
        r@ == mat_look_at_of(ex, ey, ez, lx, ly, lz, ux, uy, uz),
        r.wf(),
{
    let eye = glam::Vec3::new(bytemuck::cast(ex), bytemuck::cast(ey), bytemuck::cast(ez));
    let at = glam::Vec3::new(bytemuck::cast(lx), bytemuck::cast(ly), bytemuck::cast(lz));
    let up = glam::Vec3::new(bytemuck::cast(ux), bytemuck::cast(uy), bytemuck::cast(uz));
    let m = glam::Mat4::look_at_lh(eye, at, up);
    Matrix { bits: m.to_cols_array().iter().map(|v| v.to_bits()).collect() }
}

/// Relies on glam's `Mat4::from_axis_angle`: the rotation matrix about
/// the axis by the angle exactly as the directive carried it. The
/// entries involve the platform's sine and cosine, which may differ
/// between machines, so nothing is promised of them beyond the shape.
#[verifier::external_body]
pub fn mat_rotation(angle: u32, x: u32, y: u32, z: u32) -> (r: Matrix)
    ensures
        r.wf(),
{
    let axis = glam::Vec3::new(bytemuck::cast(x), bytemuck::cast(y), bytemuck::cast(z));
    let m = glam::Mat4::from_axis_angle(axis, bytemuck::cast(angle));
    Matrix { bits: m.to_cols_array().iter().map(|v| v.to_bits()).collect() }
}

} // verus!
