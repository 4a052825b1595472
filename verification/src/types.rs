//! The typed entity records a scene aggregates.
//!
//! Conversion of a type name plus parameter table into a concrete typed
//! entity (camera kinds, shape kinds, ...) is a collaborator's business;
//! the scene stores each entity as its type name and its resolved,
//! merged parameter table. The one conversion provided here is the
//! sphere parameter resolution, with its documented defaults.
use vstd::prelude::*;

use crate::mat::one_bits;
use crate::param::{spec_pl_float, ParamList, ParamView};

verus! {

/// Global options, a name-keyed table; a later `Option` directive for a
/// name overwrites the earlier one.
#[derive(Debug)]
pub struct Options {
    pub params: ParamList,
}

impl Options {
    /// Record one global option.
    pub fn apply(&mut self, param: crate::param::Param)
        requires
            old(self).params.wf(),
        ensures
            final(self).params.wf(),
            final(self).params@ == old(self).params@.insert(param@.name, param@),
    {
        self.params.set_param(param);
    }
}

impl Default for Options {
    fn default() -> (r: Self)
        ensures
            r.params@ == Map::<Seq<char>, ParamView>::empty(),
            r.params.wf(),
    {
        Options { params: ParamList::default() }
    }
}

/// A camera: its type name and its parameter table.
#[derive(Debug)]
pub struct Camera {
    pub ty: String,
    pub params: ParamList,
}

/// A film: its type name and its parameter table.
#[derive(Debug)]
pub struct Film {
    pub ty: String,
    pub params: ParamList,
}

/// An integrator: its type name and its parameter table.
#[derive(Debug)]
pub struct Integrator {
    pub ty: String,
    pub params: ParamList,
}

/// An accelerator: its type name and its parameter table.
#[derive(Debug)]
pub struct Accelerator {
    pub ty: String,
    pub params: ParamList,
}

/// A sampler: its type name and its parameter table.
#[derive(Debug)]
pub struct Sampler {
    pub ty: String,
    pub params: ParamList,
}

/// A texture: its name, value type, texture class, and parameters.
#[derive(Debug)]
pub struct Texture {
    pub name: String,
    pub ty: String,
    pub class: String,
    pub params: ParamList,
}

/// A material: its type name (or, for a named material, its name) and
/// its merged parameter table.
#[derive(Debug)]
pub struct Material {
    pub ty: String,
    pub params: ParamList,
}

/// A light source: its type name and its parameter table.
#[derive(Debug)]
pub struct Light {
    pub ty: String,
    pub params: ParamList,
}

/// An area light source: its type name and its merged parameter table.
#[derive(Debug)]
pub struct AreaLight {
    pub ty: String,
    pub params: ParamList,
}

/// A participating medium: its merged parameter table.
#[derive(Debug)]
pub struct Medium {
    pub params: ParamList,
}

/// A shape: its type name and its merged parameter table.
#[derive(Debug)]
pub struct Shape {
    pub ty: String,
    pub params: ParamList,
}

/// The bit pattern of a float with its sign flipped: exact negation.
pub open spec fn neg_bits(b: u32) -> u32 {
    b ^ 0x8000_0000u32
}

/// The bit pattern of the float value 360.
pub open spec fn f360_bits() -> u32 {
    0x43b4_0000u32
}

/// The resolved parameters of a sphere shape, floats as bit patterns.
#[derive(Debug, PartialEq, Eq, Structural, Clone, Copy)]
pub struct SphereParams {
    pub radius: u32,
    pub z_min: u32,
    pub z_max: u32,
    pub phi_max: u32,
    pub alpha: u32,
}

/// Resolve a sphere's parameter table to its five scalars, with the
/// documented defaults: radius one; the z range the full sphere (minus
/// radius to radius); the sweep angle 360 degrees; alpha one.
pub fn sphere_params(params: &ParamList) -> (r: SphereParams)
    requires
        params.wf(),
    ensures
        r.radius == spec_pl_float(params@, "radius"@, one_bits()),
        r.z_min == spec_pl_float(params@, "zmin"@, neg_bits(r.radius)),
        r.z_max == spec_pl_float(params@, "zmax"@, r.radius),
        r.phi_max == spec_pl_float(params@, "phimax"@, f360_bits()),
        r.alpha == spec_pl_float(params@, "alpha"@, one_bits()),
{
    let radius = params.float("radius", 0x3f80_0000u32);
    let z_min = params.float("zmin", radius ^ 0x8000_0000u32);
    let z_max = params.float("zmax", radius);
    let phi_max = params.float("phimax", 0x43b4_0000u32);
    let alpha = params.float("alpha", 0x3f80_0000u32);
    SphereParams { radius, z_min, z_max, phi_max, alpha }
}

} // verus!
