//! Surface materials and the Phong reflectance model.

use vstd::prelude::*;
use crate::color::Color;
use crate::color::Rgb;
use crate::color::black_s;
use crate::color::col_hadamard;
use crate::color::col_plus;
use crate::color::col_scale;
use crate::color::col_within;
use crate::fixed::SCALE;
use crate::fixed::fx_mul;
use crate::fixed::fx_mul_s;
use crate::fixed::lemma_fx_unit_closed;
use crate::light::LightV;
use crate::light::PointLight;
use crate::light::light_wf;
use crate::matrix::MatV;
use crate::pattern::PAT_COL_LIM;
use crate::pattern::PAT_PT_LIM;
use crate::pattern::PatV;
use crate::pattern::PatternType;
use crate::pattern::pat_wf;
use crate::pattern::pattern_at_shape_s;
use crate::tuple::Tuple;
use crate::tuple::Vec4;
use crate::tuple::dot_s;
use crate::tuple::mag_s;
use crate::tuple::norm_s;
use crate::tuple::reflect_s;
use crate::tuple::tup_minus;
use crate::tuple::tup_neg;
use crate::tuple::tup_within;

verus! {

/// Bound on the scalar material parameters: the real value 10.
pub const MATL_SCALAR_LIM: i128 = 10_000_000_000;

/// Bound on the shininess exponent: the real value 1000.
pub const SHININESS_LIM: i128 = 1_000_000_000_000;

/// Bound on the eye vector components accepted by `lighting`.
pub const EYE_LIM: i128 = 200_000_000_000;

/// Bound on the normal vector components accepted by `lighting`.
pub const NORMAL_LIM: i128 = 3_000_000_000;

/// The mathematical value of a material.
pub ghost struct MatlV {
    pub color: Rgb,
    pub pattern: Option<PatV>,
    pub ambient: int,
    pub diffuse: int,
    pub specular: int,
    pub shininess: int,
    pub reflective: int,
    pub transparency: int,
    pub refractive_index: int,
}

/// A surface material: a flat color or pattern, the Phong
/// coefficients, and the reflection and refraction parameters.
#[derive(Debug, Clone, Copy)]
pub struct Material {
    pub color: Color,
    pub pattern: Option<PatternType>,
    pub ambient: i128,
    pub diffuse: i128,
    pub specular: i128,
    pub shininess: i128,
    pub reflective: i128,
    pub transparency: i128,
    pub refractive_index: i128,
}

impl View for Material {
    type V = MatlV;

    open spec fn view(&self) -> MatlV {
        MatlV {
            color: self.color@,
            pattern: match self.pattern {
                Option::Some(p) => Option::Some(p@),
                Option::None => Option::None,
            },
            ambient: self.ambient as int,
            diffuse: self.diffuse as int,
            specular: self.specular as int,
            shininess: self.shininess as int,
            reflective: self.reflective as int,
            transparency: self.transparency as int,
            refractive_index: self.refractive_index as int,
        }
    }
}

/// A material the shading pipeline accepts: bounded color, a
/// well-formed pattern if any, nonnegative bounded coefficients,
/// fractional reflectivity and transparency, and a positive
/// refractive index.
pub open spec fn matl_wf(m: MatlV) -> bool {
    &&& col_within(m.color, PAT_COL_LIM as int)
    &&& match m.pattern {
        Option::Some(p) => pat_wf(p),
        Option::None => true,
    }
    &&& 0 <= m.ambient <= MATL_SCALAR_LIM as int
    &&& 0 <= m.diffuse <= MATL_SCALAR_LIM as int
    &&& 0 <= m.specular <= MATL_SCALAR_LIM as int
    &&& 0 <= m.shininess <= SHININESS_LIM as int
    &&& 0 <= m.reflective <= SCALE as int
    &&& 0 <= m.transparency <= SCALE as int
    &&& (SCALE as int) / 10 <= m.refractive_index <= MATL_SCALAR_LIM as int
}

/// The default material's mathematical value: white, the plastic-like
/// coefficients, no pattern, opaque, air-like refraction.
pub open spec fn default_matl_s() -> MatlV {
    MatlV {
        color: Rgb { r: SCALE as int, g: SCALE as int, b: SCALE as int },
        pattern: Option::None,
        ambient: 100_000_000int,
        diffuse: 900_000_000int,
        specular: 900_000_000int,
        shininess: 200_000_000_000int,
        reflective: 0int,
        transparency: 0int,
        refractive_index: SCALE as int,
    }
}

/// An integer power of a fixed-point base in the unit interval.
pub open spec fn pow_s(b: int, n: nat) -> int
    decreases n,
{
    if n == 0 {
        SCALE as int
    } else {
        fx_mul_s(b, pow_s(b, (n - 1) as nat))
    }
}

/// A fixed-point value clamped from above to one.
pub open spec fn clamp_unit(v: int) -> int {
    if v > SCALE as int {
        SCALE as int
    } else {
        v
    }
}

/// The Phong lighting model over the mathematical values.  The base
/// color is the pattern sample or the flat color; ambient light
/// always contributes; diffuse and specular contribute when the
/// surface is lit and faces the light; the specular highlight decays
/// with the integer part of the shininess exponent.  A light sitting
/// on the surface point itself contributes only ambient light.
pub open spec fn lighting_s(
    m: MatlV,
    shape_inv: MatV,
    l: LightV,
    point: Vec4,
    eyev: Vec4,
    normalv: Vec4,
    in_shadow: bool,
) -> Rgb {
    let base = match m.pattern {
        Option::Some(p) => pattern_at_shape_s(p, shape_inv, point),
        Option::None => m.color,
    };
    let eff = col_hadamard(base, l.intensity);
    let ambient = col_scale(eff, m.ambient);
    if mag_s(tup_minus(l.position, point)) < 1 {
        ambient
    } else {
        let lightv = norm_s(tup_minus(l.position, point));
        let ldn = dot_s(lightv, normalv);
        if in_shadow || ldn < 0 {
            ambient
        } else {
            let diffuse = col_scale(col_scale(eff, m.diffuse), ldn);
            let reflectv = reflect_s(tup_neg(lightv), normalv);
            let rde = dot_s(reflectv, eyev);
            let specular = if rde < 0 {
                black_s()
            } else {
                col_scale(
                    col_scale(l.intensity, m.specular),
                    pow_s(clamp_unit(rde), (m.shininess / (SCALE as int)) as nat),
                )
            };
            col_plus(col_plus(ambient, diffuse), specular)
        }
    }
}

/// Powers of a unit-interval base stay in the unit interval.
pub proof fn lemma_pow_unit(b: int, n: nat)
    requires
        0 <= b <= SCALE as int,
    ensures
        0 <= pow_s(b, n) <= SCALE as int,
    decreases n,
{
    if n > 0 {
        lemma_pow_unit(b, (n - 1) as nat);
        lemma_fx_unit_closed(b, pow_s(b, (n - 1) as nat));
    }
}

/// The integer power of a clamped fixed-point base.
pub fn fx_pow(b: i128, n: i128) -> (r: i128)
    requires
        0 <= b <= SCALE,
        0 <= n <= 10_000,
    ensures
        r == pow_s(b as int, n as nat),
        0 <= r <= SCALE,
    decreases n,
{
    proof {
        lemma_pow_unit(b as int, n as nat);
    }
    if n == 0 {
        SCALE
    } else {
        let p = fx_pow(b, n - 1);
        proof {
            lemma_pow_unit(b as int, (n - 1) as nat);
        }
        fx_mul(b, p)
    }
}

impl Material {
    /// A material from optional parts; absent parts take the default
    /// plastic-like values.
    pub fn new(
        color: Option<Color>,
        pattern: Option<PatternType>,
        ambient: Option<i128>,
        diffuse: Option<i128>,
        specular: Option<i128>,
        shininess: Option<i128>,
        reflective: Option<i128>,
        transparency: Option<i128>,
        refractive_index: Option<i128>,
    ) -> (m: Material)
        requires
            (color matches Option::Some(c) ==> col_within(c@, PAT_COL_LIM as int)),
            (pattern matches Option::Some(p) ==> pat_wf(p@)),
            (ambient matches Option::Some(v) ==> 0 <= v <= MATL_SCALAR_LIM),
            (diffuse matches Option::Some(v) ==> 0 <= v <= MATL_SCALAR_LIM),
            (specular matches Option::Some(v) ==> 0 <= v <= MATL_SCALAR_LIM),
            (shininess matches Option::Some(v) ==> 0 <= v <= SHININESS_LIM),
            (reflective matches Option::Some(v) ==> 0 <= v <= SCALE),
            (transparency matches Option::Some(v) ==> 0 <= v <= SCALE),
            (refractive_index matches Option::Some(v) ==> SCALE / 10 <= v <= MATL_SCALAR_LIM),
        ensures
            m@.color == (match color {
                Option::Some(c) => c@,
                Option::None => Rgb { r: SCALE as int, g: SCALE as int, b: SCALE as int },
            }),
            m@.pattern == (match pattern {
                Option::Some(p) => Option::Some(p@),
                Option::None => Option::<PatV>::None,
            }),
            m@.ambient == (match ambient {
                Option::Some(v) => v as int,
                Option::None => 100_000_000int,
            }),
            m@.diffuse == (match diffuse {
                Option::Some(v) => v as int,
                Option::None => 900_000_000int,
            }),
            m@.specular == (match specular {
                Option::Some(v) => v as int,
                Option::None => 900_000_000int,
            }),
            m@.shininess == (match shininess {
                Option::Some(v) => v as int,
                Option::None => 200_000_000_000int,
            }),
            m@.reflective == (match reflective {
                Option::Some(v) => v as int,
                Option::None => 0int,
            }),
            m@.transparency == (match transparency {
                Option::Some(v) => v as int,
                Option::None => 0int,
            }),
            m@.refractive_index == (match refractive_index {
                Option::Some(v) => v as int,
                Option::None => SCALE as int,
            }),
            matl_wf(m@),
    {
        Material {
            color: match color {
                Option::Some(c) => c,
                Option::None => Color::white(),
            },
            pattern,
            ambient: match ambient {
                Option::Some(v) => v,
                Option::None => 100_000_000,
            },
            diffuse: match diffuse {
                Option::Some(v) => v,
                Option::None => 900_000_000,
            },
            specular: match specular {
                Option::Some(v) => v,
                Option::None => 900_000_000,
            },
            shininess: match shininess {
                Option::Some(v) => v,
                Option::None => 200_000_000_000,
            },
            reflective: match reflective {
                Option::Some(v) => v,
                Option::None => 0,
            },
            transparency: match transparency {
                Option::Some(v) => v,
                Option::None => 0,
            },
            refractive_index: match refractive_index {
                Option::Some(v) => v,
                Option::None => SCALE,
            },
        }
    }

    /// The default material: white, plastic-like coefficients.
    pub fn default() -> (m: Material)
        ensures
            m@ == default_matl_s(),
            matl_wf(m@),
    {
        Material::new(None, None, None, None, None, None, None, None, None)
    }

    /// The Phong lighting at a surface point.
    pub fn lighting(
        &self,
        object: &crate::shape::Shape,
        light: &PointLight,
        point: &Tuple,
        eyev: &Tuple,
        normalv: &Tuple,
        in_shadow: bool,
    ) -> (c: Color)
        requires
            matl_wf(self@),
            crate::shape::shape_wf(object@),
            light_wf(light@),
            tup_within(point@, PAT_PT_LIM as int),
            point@.w == SCALE as int,
            tup_within(eyev@, EYE_LIM as int),
            tup_within(normalv@, NORMAL_LIM as int),
        ensures
            c@ == lighting_s(self@, object@.inverse, light@, point@, eyev@, normalv@,
                in_shadow),
    {
        let base = match &self.pattern {
            Option::Some(p) => p.pattern_at_shape(object, point),
            Option::None => self.color,
        };
        proof {
            lemma_lighting_base_bound(self@, object@.inverse, point@);
        }
        let eff = base.times_col(&light.intensity);
        proof {
            lemma_eff_bound(base@, light@.intensity);
            crate::color::lemma_col_scale_bound(eff@, self@.ambient,
                30_000_000_000_000_000_001int, MATL_SCALAR_LIM as int);
        }
        let ambient = eff.times(self.ambient);
        let diff = light.position.minus(point);
        let mg = diff.magnitude();
        if mg < 1 {
            return ambient;
        }
        let lightv = diff.normalize();
        let ldn = Tuple::dot_product(&lightv, normalv);
        proof {
            crate::tuple::lemma_prod_bound(lightv@.x, normalv@.x, 2_100_000_000int,
                NORMAL_LIM as int);
            crate::tuple::lemma_prod_bound(lightv@.y, normalv@.y, 2_100_000_000int,
                NORMAL_LIM as int);
            crate::tuple::lemma_prod_bound(lightv@.z, normalv@.z, 2_100_000_000int,
                NORMAL_LIM as int);
            crate::fixed::lemma_rdiv_bound(
                lightv@.x * normalv@.x + lightv@.y * normalv@.y + lightv@.z * normalv@.z,
                SCALE as int, 18_900_000_000_000_000_000int);
        }
        if in_shadow || ldn < 0 {
            return ambient;
        }
        proof {
            crate::color::lemma_col_scale_bound(eff@, self@.diffuse,
                30_000_000_000_000_000_001int, MATL_SCALAR_LIM as int);
            crate::color::lemma_col_scale_bound(
                crate::color::col_scale(eff@, self@.diffuse), ldn as int,
                300_000_000_000_000_000_011int, 19_000_000_000int);
        }
        let diffuse = eff.times(self.diffuse).times(ldn);
        proof {
            assert(lightv@.w == 0);
        }
        let reflectv = Tuple::reflect(&lightv.neg(), normalv);
        proof {
            lemma_reflect_bound(tup_neg(lightv@), normalv@);
        }
        let rde = Tuple::dot_product(&reflectv, eyev);
        proof {
            crate::tuple::lemma_prod_bound(reflectv@.x, eyev@.x, 200_000_000_000int,
                EYE_LIM as int);
            crate::tuple::lemma_prod_bound(reflectv@.y, eyev@.y, 200_000_000_000int,
                EYE_LIM as int);
            crate::tuple::lemma_prod_bound(reflectv@.z, eyev@.z, 200_000_000_000int,
                EYE_LIM as int);
            crate::fixed::lemma_rdiv_bound(
                reflectv@.x * eyev@.x + reflectv@.y * eyev@.y + reflectv@.z * eyev@.z,
                SCALE as int, 120_000_000_000_000_000_000_000int);
        }
        let specular = if rde < 0 {
            Color::black()
        } else {
            let b = if rde > SCALE {
                SCALE
            } else {
                rde
            };
            let n = match self.shininess.checked_div_euclid(SCALE) {
                Option::Some(v) => v,
                Option::None => 0,
            };
            proof {
                crate::fixed::lemma_div_range(self@.shininess, SCALE as int,
                    SHININESS_LIM as int);
                vstd::arithmetic::div_mod::lemma_div_pos_is_pos(self@.shininess,
                    SCALE as int);
            }
            let factor = fx_pow(b, n);
            proof {
                crate::color::lemma_col_scale_bound(light@.intensity, self@.specular,
                    10_000_000_000int, MATL_SCALAR_LIM as int);
                crate::color::lemma_col_scale_bound(
                    crate::color::col_scale(light@.intensity, self@.specular),
                    factor as int, 100_000_000_001int, SCALE as int);
            }
            light.intensity.times(self.specular).times(factor)
        };
        ambient.plus(&diffuse).plus(&specular)
    }
}

/// The base color of lighting is bounded: pattern samples echo at
/// most the pattern-space point, and flat colors are bounded by
/// well-formedness.
proof fn lemma_lighting_base_bound(m: MatlV, shape_inv: MatV, point: Vec4)
    requires
        matl_wf(m),
        crate::matrix::mat_square(shape_inv),
        shape_inv.rows == 4,
        crate::matrix::mat_within(shape_inv, 80_000_000_000int),
        tup_within(point, PAT_PT_LIM as int),
    ensures
        col_within(
            match m.pattern {
                Option::Some(p) => pattern_at_shape_s(p, shape_inv, point),
                Option::None => m.color,
            },
            3_000_000_000_000_000_000int,
        ),
{
    match m.pattern {
        Option::Some(p) => {
            crate::matrix::lemma_mul_tuple_bound(shape_inv, point, 80_000_000_000int,
                110_000_000_000_000int);
            let op = crate::matrix::mul_tuple_s(shape_inv, point);
            crate::matrix::lemma_mul_tuple_bound(p.inverse, op,
                20_000_000_000int, 35_200_000_000_000_001int);
            let pp = crate::matrix::mul_tuple_s(p.inverse, op);
            let c = crate::pattern::pattern_at_s(p, pp);
            match p.kind {
                crate::pattern::PatKind::Gradient => {
                    lemma_gradient_bound(p, pp);
                },
                _ => {},
            }
        },
        Option::None => {},
    }
}

/// A gradient sample is bounded by the colors plus one interpolation
/// step.
proof fn lemma_gradient_bound(p: PatV, pt: Vec4)
    requires
        pat_wf(p),
    ensures
        col_within(crate::pattern::gradient_at_s(p, pt), 50_000_000_000int),
{
    let s = SCALE as int;
    let f = pt.x % s;
    vstd::arithmetic::div_mod::lemma_mod_bound(pt.x, s);
    crate::fixed::lemma_fx_mul_s_bound(p.second.r - p.first.r, f,
        2 * PAT_COL_LIM as int, s);
    crate::fixed::lemma_fx_mul_s_bound(p.second.g - p.first.g, f,
        2 * PAT_COL_LIM as int, s);
    crate::fixed::lemma_fx_mul_s_bound(p.second.b - p.first.b, f,
        2 * PAT_COL_LIM as int, s);
}

/// The effective color is bounded.
proof fn lemma_eff_bound(base: Rgb, intensity: Rgb)
    requires
        col_within(base, 3_000_000_000_000_000_000int),
        col_within(intensity, 10_000_000_000int),
    ensures
        col_within(col_hadamard(base, intensity), 30_000_000_000_000_000_001int),
{
    crate::fixed::lemma_fx_mul_s_bound(base.r, intensity.r,
        3_000_000_000_000_000_000int, 10_000_000_000int);
    crate::fixed::lemma_fx_mul_s_bound(base.g, intensity.g,
        3_000_000_000_000_000_000int, 10_000_000_000int);
    crate::fixed::lemma_fx_mul_s_bound(base.b, intensity.b,
        3_000_000_000_000_000_000int, 10_000_000_000int);
}

/// The reflection of a bounded vector about a bounded normal is
/// bounded.
proof fn lemma_reflect_bound(v: Vec4, n: Vec4)
    requires
        tup_within(v, 3_000_000_000int),
        tup_within(n, NORMAL_LIM as int),
    ensures
        tup_within(reflect_s(v, n), 200_000_000_000int),
{
    crate::tuple::lemma_prod_bound(v.x, n.x, 3_000_000_000int, 3_000_000_000int);
    crate::tuple::lemma_prod_bound(v.y, n.y, 3_000_000_000int, 3_000_000_000int);
    crate::tuple::lemma_prod_bound(v.z, n.z, 3_000_000_000int, 3_000_000_000int);
    crate::fixed::lemma_rdiv_bound(v.x * n.x + v.y * n.y + v.z * n.z, SCALE as int,
        27_000_000_000_000_000_000int);
    let d2 = 2 * dot_s(v, n);
    crate::fixed::lemma_fx_mul_s_bound(n.x, d2, NORMAL_LIM as int, 54_000_000_002int);
    crate::fixed::lemma_fx_mul_s_bound(n.y, d2, NORMAL_LIM as int, 54_000_000_002int);
    crate::fixed::lemma_fx_mul_s_bound(n.z, d2, NORMAL_LIM as int, 54_000_000_002int);
}

/// The lighting result is bounded: ambient, diffuse and specular each
/// stay within fixed limits for well-formed inputs.
pub proof fn lemma_lighting_bound(
    m: MatlV,
    shape_inv: MatV,
    l: LightV,
    point: Vec4,
    eyev: Vec4,
    normalv: Vec4,
    in_shadow: bool,
)
    requires
        matl_wf(m),
        light_wf(l),
        crate::matrix::mat_square(shape_inv),
        shape_inv.rows == 4,
        crate::matrix::mat_within(shape_inv, 80_000_000_000int),
        tup_within(point, PAT_PT_LIM as int),
        point.w == SCALE as int,
        tup_within(eyev, EYE_LIM as int),
        tup_within(normalv, NORMAL_LIM as int),
    ensures
        col_within(lighting_s(m, shape_inv, l, point, eyev, normalv, in_shadow),
            6_500_000_000_000_000_000_000int),
{
    lemma_lighting_base_bound(m, shape_inv, point);
    let base = match m.pattern {
        Option::Some(p) => pattern_at_shape_s(p, shape_inv, point),
        Option::None => m.color,
    };
    let eff = col_hadamard(base, l.intensity);
    lemma_eff_bound(base, l.intensity);
    crate::color::lemma_col_scale_bound(eff, m.ambient, 30_000_000_000_000_000_001int,
        MATL_SCALAR_LIM as int);
    let ambient = col_scale(eff, m.ambient);
    if mag_s(tup_minus(l.position, point)) >= 1 {
        let lv = tup_minus(l.position, point);
        crate::tuple::lemma_norm_comp_bound_pub(lv);
        let lightv = norm_s(lv);
        assert(lightv.w == 0);
        crate::tuple::lemma_prod_bound(lightv.x, normalv.x, 2_100_000_000int,
            NORMAL_LIM as int);
        crate::tuple::lemma_prod_bound(lightv.y, normalv.y, 2_100_000_000int,
            NORMAL_LIM as int);
        crate::tuple::lemma_prod_bound(lightv.z, normalv.z, 2_100_000_000int,
            NORMAL_LIM as int);
        crate::fixed::lemma_rdiv_bound(
            lightv.x * normalv.x + lightv.y * normalv.y + lightv.z * normalv.z,
            SCALE as int, 18_900_000_000_000_000_000int);
        let ldn = dot_s(lightv, normalv);
        crate::color::lemma_col_scale_bound(eff, m.diffuse, 30_000_000_000_000_000_001int,
            MATL_SCALAR_LIM as int);
        crate::color::lemma_col_scale_bound(col_scale(eff, m.diffuse), ldn,
            300_000_000_000_000_000_011int, 19_000_000_000int);
        lemma_reflect_bound(tup_neg(lightv), normalv);
        let reflectv = reflect_s(tup_neg(lightv), normalv);
        crate::tuple::lemma_prod_bound(reflectv.x, eyev.x, 200_000_000_000int,
            EYE_LIM as int);
        crate::tuple::lemma_prod_bound(reflectv.y, eyev.y, 200_000_000_000int,
            EYE_LIM as int);
        crate::tuple::lemma_prod_bound(reflectv.z, eyev.z, 200_000_000_000int,
            EYE_LIM as int);
        crate::fixed::lemma_rdiv_bound(
            reflectv.x * eyev.x + reflectv.y * eyev.y + reflectv.z * eyev.z,
            SCALE as int, 120_000_000_000_000_000_000_000int);
        let rde = dot_s(reflectv, eyev);
        if rde >= 0 {
            lemma_pow_unit(clamp_unit(rde), (m.shininess / (SCALE as int)) as nat);
            crate::color::lemma_col_scale_bound(l.intensity, m.specular,
                10_000_000_000int, MATL_SCALAR_LIM as int);
            crate::color::lemma_col_scale_bound(col_scale(l.intensity, m.specular),
                pow_s(clamp_unit(rde), (m.shininess / (SCALE as int)) as nat),
                100_000_000_001int, SCALE as int);
        }
    }
}

} // verus!
