//! How surfaces answer light.

use vstd::prelude::*;
use crate::geometry::HitRecord;
use crate::ray::Ray;
use crate::scalar::{Scalar, key_le, key_lt, ONE_KEY};
use crate::texture::{SolidColorTexture, Texture};
use crate::vec3::{Color, Vec3};

verus! {

/// A scatter event: the ray that leaves the surface, and the factor by
/// which the light that arrives along it is weakened, channel by channel.
#[derive(Clone, Copy, Debug, PartialEq, Eq, Structural)]
pub struct Scatter {
    pub scattered_ray: Ray,
    pub attenuation: Color,
}

/// What a surface is made of.
///
/// Scattering may draw random numbers, so an implementation only says which
/// outcomes it can produce. What a surface emits is a function of the hit.
pub trait Material: Sized {
    /// Whether `outcome` is among the answers that `scatter` can give.
    spec fn can_scatter(
        &self,
        ray_in: Ray,
        hit_record: HitRecord<'_, Self>,
        outcome: Option<Scatter>,
    ) -> bool;

    /// The light that the surface sends out at the hit.
    spec fn emits_spec(&self, ray_in: Ray, hit_record: HitRecord<'_, Self>) -> Color;

    /// Chooses an outgoing ray for an incoming one, or absorbs it.
    fn scatter(&self, ray_in: &Ray, hit_record: &HitRecord<'_, Self>) -> (outcome: Option<Scatter>)
        ensures
            self.can_scatter(*ray_in, *hit_record, outcome),
    ;

    /// The light that the surface sends out at the hit.
    fn emits(&self, ray_in: &Ray, hit_record: &HitRecord<'_, Self>) -> (color: Color)
        ensures
            color == self.emits_spec(*ray_in, *hit_record),
    ;
}

/// A matt surface.
pub struct LambertianMaterial<T> {
    pub albedo: T,
}

impl<T: Texture> LambertianMaterial<T> {
    /// A matt surface with the given pattern.
    pub fn new(albedo: T) -> (material: LambertianMaterial<T>)
        ensures
            material.albedo == albedo,
    {
        LambertianMaterial { albedo }
    }

    /// The scatter event of a matt surface. `candidate` is the sum of the
    /// surface normal and a random unit vector; where it has all but
    /// vanished the normal itself is taken. The light is weakened by the
    /// pattern's colour at the hit.
    pub fn scatter_toward<M>(&self, candidate: Vec3, hit_record: &HitRecord<'_, M>) -> (event:
        Scatter)
        ensures
            event.scattered_ray.origin == hit_record.point,
            event.scattered_ray.direction == if candidate.vanishes() {
                hit_record.normal
            } else {
                candidate
            },
            event.attenuation == self.albedo.value_spec(
                hit_record.u,
                hit_record.v,
                hit_record.point,
            ),
    {
        let direction = if candidate.near_zero() {
            hit_record.normal
        } else {
            candidate
        };
        Scatter {
            scattered_ray: Ray::new(hit_record.point, direction),
            attenuation: self.albedo.value(hit_record.u, hit_record.v, hit_record.point),
        }
    }
}

impl LambertianMaterial<SolidColorTexture> {
    /// A matt surface of one colour.
    pub fn new_from_color(color: Color) -> (material: LambertianMaterial<SolidColorTexture>)
        ensures
            material.albedo.color == color,
    {
        LambertianMaterial { albedo: SolidColorTexture::new(color) }
    }
}

/// A mirror, blurred by `fuzz`.
pub struct MetalMaterial<T> {
    pub albedo: T,
    pub fuzz: Scalar,
}

impl<T: Texture> MetalMaterial<T> {
    /// A metal with the given pattern and blur.
    pub fn new(albedo: T, fuzz: Scalar) -> (material: MetalMaterial<T>)
        ensures
            material.albedo == albedo,
            material.fuzz == fuzz,
    {
        MetalMaterial { albedo, fuzz }
    }

    /// The scatter event of a metal. `direction` is the mirrored direction
    /// with the blur added, `facing` its dot product with the surface
    /// normal. The ray is absorbed unless `facing` is above zero, that is
    /// unless the blurred reflection leaves the surface.
    pub fn scatter_along<M>(
        &self,
        direction: Vec3,
        facing: Scalar,
        hit_record: &HitRecord<'_, M>,
    ) -> (outcome: Option<Scatter>)
        ensures
            outcome is Some <==> key_lt(0, facing@),
            outcome matches Some(event) ==> {
                &&& event.scattered_ray.origin == hit_record.point
                &&& event.scattered_ray.direction == direction
                &&& event.attenuation == self.albedo.value_spec(
                    hit_record.u,
                    hit_record.v,
                    hit_record.point,
                )
            },
    {
        if Scalar::zero().lt(&facing) {
            Some(
                Scatter {
                    scattered_ray: Ray::new(hit_record.point, direction),
                    attenuation: self.albedo.value(hit_record.u, hit_record.v, hit_record.point),
                },
            )
        } else {
            None
        }
    }
}

impl MetalMaterial<SolidColorTexture> {
    /// A metal of one colour.
    pub fn new_from_color(albedo: Color, fuzz: Scalar) -> (material: MetalMaterial<
        SolidColorTexture,
    >)
        ensures
            material.albedo.color == albedo,
            material.fuzz == fuzz,
    {
        MetalMaterial { albedo: SolidColorTexture::new(albedo), fuzz }
    }
}

/// A clear material that bends light, such as glass.
pub struct DielectricMaterial {
    pub index_of_refraction: Scalar,
}

impl DielectricMaterial {
    /// Whether a ray is mirrored rather than bent: it is where the ratio of
    /// the refractive indices times the sine of the angle of incidence is
    /// above one, so that no bent ray exists, and otherwise where the
    /// reflectance is above the random draw.
    pub open spec fn mirrors(ratio_sine: Scalar, reflectance: Scalar, draw: Scalar) -> bool {
        key_lt(ONE_KEY as int, ratio_sine@) || key_lt(draw@, reflectance@)
    }

    /// A clear material with the given refractive index.
    pub fn new(index_of_refraction: Scalar) -> (material: DielectricMaterial)
        ensures
            material.index_of_refraction == index_of_refraction,
    {
        DielectricMaterial { index_of_refraction }
    }

    /// The scatter event of a clear material: the ray leaves the hit along
    /// `reflected` where it is mirrored and along `refracted` where it is
    /// bent, and loses nothing either way.
    pub fn scatter_between<M>(
        &self,
        reflected: Vec3,
        refracted: Vec3,
        ratio_sine: Scalar,
        reflectance: Scalar,
        draw: Scalar,
        hit_record: &HitRecord<'_, M>,
    ) -> (event: Scatter)
        ensures
            event.scattered_ray.origin == hit_record.point,
            event.scattered_ray.direction == if Self::mirrors(ratio_sine, reflectance, draw) {
                reflected
            } else {
                refracted
            },
            event.attenuation == Vec3::white(),
    {
        let direction = if Scalar::one().lt(&ratio_sine) || draw.lt(&reflectance) {
            reflected
        } else {
            refracted
        };
        Scatter {
            scattered_ray: Ray::new(hit_record.point, direction),
            attenuation: Vec3::new(Scalar::one(), Scalar::one(), Scalar::one()),
        }
    }
}

/// A surface that shines from its front and scatters nothing.
pub struct DiffuseLightMaterial<T> {
    pub emit: T,
}

impl<T: Texture> DiffuseLightMaterial<T> {
    /// A light with the given pattern.
    pub fn new(emit: T) -> (material: DiffuseLightMaterial<T>)
        ensures
            material.emit == emit,
    {
        DiffuseLightMaterial { emit }
    }
}

impl DiffuseLightMaterial<SolidColorTexture> {
    /// A light of one colour.
    pub fn new_from_color(color: Color) -> (material: DiffuseLightMaterial<SolidColorTexture>)
        ensures
            material.emit.color == color,
    {
        DiffuseLightMaterial { emit: SolidColorTexture::new(color) }
    }
}

impl<T: Texture> Material for DiffuseLightMaterial<T> {
    open spec fn can_scatter(
        &self,
        ray_in: Ray,
        hit_record: HitRecord<'_, Self>,
        outcome: Option<Scatter>,
    ) -> bool {
        outcome is None
    }

    open spec fn emits_spec(&self, ray_in: Ray, hit_record: HitRecord<'_, Self>) -> Color {
        if hit_record.front_face {
            self.emit.value_spec(hit_record.u, hit_record.v, hit_record.point)
        } else {
            Vec3::origin()
        }
    }

    /// A light never scatters.
    fn scatter(&self, ray_in: &Ray, hit_record: &HitRecord<'_, Self>) -> (outcome: Option<Scatter>) {
        None
    }

    /// The pattern's colour where the front of the surface is seen, black
    /// from behind.
    fn emits(&self, ray_in: &Ray, hit_record: &HitRecord<'_, Self>) -> (color: Color) {
        if hit_record.front_face {
            self.emit.value(hit_record.u, hit_record.v, hit_record.point)
        } else {
            Vec3::default()
        }
    }
}

/// The energy bound of matt surfaces: where the colour of a matt surface
/// has all its components between zero and one, so has the attenuation of
/// every scatter event of that surface, which is the colour of its pattern
/// at the hit.
pub proof fn matt_attenuation_is_bounded(
    material: LambertianMaterial<SolidColorTexture>,
    event: Scatter,
    u: Scalar,
    v: Scalar,
    point: Vec3,
)
    requires
        material.albedo.color.in_unit_cube(),
        event.attenuation == material.albedo.value_spec(u, v, point),
    ensures
        event.attenuation.in_unit_cube(),
{
}

/// The energy bound of metals: where the colour of a metal has all its
/// components between zero and one, so has the attenuation of every scatter
/// event of that metal, which is the colour of its pattern at the hit.
pub proof fn metal_attenuation_is_bounded(
    material: MetalMaterial<SolidColorTexture>,
    event: Scatter,
    u: Scalar,
    v: Scalar,
    point: Vec3,
)
    requires
        material.albedo.color.in_unit_cube(),
        event.attenuation == material.albedo.value_spec(u, v, point),
    ensures
        event.attenuation.in_unit_cube(),
{
}

/// No total reflection where a bent ray exists: where the ratio of the
/// indices times the sine of the angle of incidence is a number not above
/// one, as it is at normal incidence, where the sine is zero, glass mirrors
/// a ray only by the chance of the draw.
pub proof fn glass_reflects_only_by_chance(ratio_sine: Scalar, reflectance: Scalar, draw: Scalar)
    requires
        key_le(ratio_sine@, ONE_KEY as int),
    ensures
        DielectricMaterial::mirrors(ratio_sine, reflectance, draw) == key_lt(draw@, reflectance@),
{
}

} // verus!
