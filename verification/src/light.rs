//! A positional point light with an intensity color.

use vstd::prelude::*;
use crate::color::Color;
use crate::color::Rgb;
use crate::color::col_within;
use crate::tuple::Tuple;
use crate::tuple::Vec4;
use crate::tuple::tup_within;

verus! {

/// The mathematical value of a point light.
pub ghost struct LightV {
    pub position: Vec4,
    pub intensity: Rgb,
}

/// A point light: a position and an intensity color.
#[derive(Debug, Clone, Copy)]
pub struct PointLight {
    pub position: Tuple,
    pub intensity: Color,
}

impl View for PointLight {
    type V = LightV;

    open spec fn view(&self) -> LightV {
        LightV { position: self.position@, intensity: self.intensity@ }
    }
}

/// A light the shading pipeline accepts: position within the scene
/// volume and intensity channels within ten units.
pub open spec fn light_wf(l: LightV) -> bool {
    &&& tup_within(l.position, 80_000_000_000int)
    &&& l.position.w == crate::fixed::SCALE as int
    &&& col_within(l.intensity, 10_000_000_000int)
}

impl PointLight {
    /// A light from a position and an intensity.
    pub fn new(position: &Tuple, intensity: &Color) -> (l: PointLight)
        ensures
            l@.position == position@,
            l@.intensity == intensity@,
    {
        PointLight { position: *position, intensity: *intensity }
    }
}

} // verus!
