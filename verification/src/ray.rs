//! Rays.

use vstd::prelude::*;
use crate::geometry::Hittable;
use crate::material::{DiffuseLightMaterial, Material, Scatter};
use crate::scalar::{Scalar, INFINITY_KEY, SHADOW_EPSILON_KEY};
use crate::texture::Texture;
use crate::vec3::{Color, Vec3};

verus! {

/// A half-line: the points `origin + t * direction` for the parameters `t`
/// that a query admits.
#[derive(Clone, Copy, Debug, PartialEq, Eq, Structural)]
pub struct Ray {
    pub origin: Vec3,
    pub direction: Vec3,
}

impl Ray {
    /// The ray from `origin` along `direction`.
    pub fn new(origin: Vec3, direction: Vec3) -> (ray: Ray)
        ensures
            ray.origin == origin,
            ray.direction == direction,
    {
        Ray { origin, direction }
    }
}

/// The light that arrives along a ray, as the sum it is made of.
///
/// The value of `Scattered` is `emitted + attenuation * incoming`, channel by
/// channel; the other three stand for a colour as it is.
pub enum Radiance {
    /// The bounce budget ran out: black.
    Spent,
    /// The ray left the scene: the colour of the background.
    Background { color: Color },
    /// The ray ended on a surface that did not scatter it.
    Emitted { emitted: Color },
    /// The ray was scattered; `incoming` arrives along `ray`.
    Scattered { emitted: Color, attenuation: Color, ray: Ray, incoming: Box<Radiance> },
}

/// The lower end of every query that the estimator makes: the double
/// nearest to one thousandth, which keeps a scattered ray from hitting the
/// surface it starts on.
pub open spec fn shadow_epsilon() -> Scalar {
    Scalar { key: SHADOW_EPSILON_KEY }
}

/// The upper end of every query that the estimator makes: none.
pub open spec fn unbounded() -> Scalar {
    Scalar { key: INFINITY_KEY }
}

impl Radiance {
    /// How many scatter events the estimate follows.
    pub open spec fn depth(self) -> nat
        decreases self,
    {
        match self {
            Radiance::Scattered { emitted, attenuation, ray, incoming } => 1 + incoming.depth(),
            _ => 0,
        }
    }

    /// The colour, where it takes no arithmetic to say it.
    pub open spec fn settled_spec(self) -> Option<Color> {
        match self {
            Radiance::Spent => Some(Vec3::origin()),
            Radiance::Background { color } => Some(color),
            Radiance::Emitted { emitted } => Some(emitted),
            Radiance::Scattered { emitted, attenuation, ray, incoming } => None,
        }
    }

    /// Whether this is an estimate of the light along `ray` in `world` with
    /// the given budget: black with no bounce left; the background where the
    /// ray hits nothing; otherwise what the surface emits, and, where the
    /// surface can scatter the ray so, the estimate along the scattered ray
    /// with one bounce less.
    pub open spec fn explains<H>(self, ray: Ray, world: H, background: Color, bounces_left: nat) -> bool
        where H: Hittable, H::Material: Material
        decreases self,
    {
        if bounces_left == 0 {
            self is Spent
        } else {
            match world.hit_spec(ray, shadow_epsilon(), unbounded()) {
                None => self == (Radiance::Background { color: background }),
                Some(hit_record) => match self {
                    Radiance::Emitted { emitted } => {
                        &&& emitted == hit_record.material.emits_spec(ray, hit_record)
                        &&& hit_record.material.can_scatter(ray, hit_record, None)
                    },
                    Radiance::Scattered { emitted, attenuation, ray: scattered_ray, incoming } => {
                        &&& emitted == hit_record.material.emits_spec(ray, hit_record)
                        &&& hit_record.material.can_scatter(
                            ray,
                            hit_record,
                            Some(Scatter { scattered_ray, attenuation }),
                        )
                        &&& incoming.explains(
                            scattered_ray,
                            world,
                            background,
                            (bounces_left - 1) as nat,
                        )
                    },
                    _ => false,
                },
            }
        }
    }

    /// The colour of an estimate that needs no arithmetic; `None` where a
    /// scatter event has to be summed up.
    pub fn settled(&self) -> (color: Option<Color>)
        ensures
            color == self.settled_spec(),
    {
        match self {
            Radiance::Spent => Some(Vec3::default()),
            Radiance::Background { color } => Some(*color),
            Radiance::Emitted { emitted } => Some(*emitted),
            Radiance::Scattered { .. } => None,
        }
    }
}

impl Ray {
    /// Estimates the light that arrives along the ray.
    ///
    /// With no bounce left the estimate is black. Otherwise the ray is
    /// tested against the scene from one thousandth on, without an upper
    /// end. Where it hits nothing the estimate is the background. Where it
    /// hits a surface the estimate holds what the surface emits, and, if the
    /// surface scatters the ray, the estimate along the scattered ray with
    /// one bounce less.
    pub fn color<H>(&self, hittable: &H, background: Color, bounces_left: usize) -> (radiance:
        Radiance)
        where H: Hittable, H::Material: Material
        ensures
            radiance.explains(*self, *hittable, background, bounces_left as nat),
            radiance.depth() <= bounces_left,
        decreases bounces_left,
    {
        if bounces_left == 0 {
            return Radiance::Spent;
        }
        match hittable.hit(self, Scalar { key: SHADOW_EPSILON_KEY }, Scalar::infinity()) {
            Some(hit_record) => {
                let emitted = hit_record.material.emits(self, &hit_record);
                match hit_record.material.scatter(self, &hit_record) {
                    Some(scatter) => {
                        let incoming = scatter.scattered_ray.color(
                            hittable,
                            background,
                            bounces_left - 1,
                        );
                        Radiance::Scattered {
                            emitted,
                            attenuation: scatter.attenuation,
                            ray: scatter.scattered_ray,
                            incoming: Box::new(incoming),
                        }
                    },
                    None => Radiance::Emitted { emitted },
                }
            },
            None => Radiance::Background { color: background },
        }
    }
}

/// With a budget of no bounces every estimate is black, whatever the scene
/// holds; it is the background where the background is black.
pub proof fn no_bounces_give_black<H>(radiance: Radiance, ray: Ray, world: H, background: Color)
    where H: Hittable, H::Material: Material
    requires
        radiance.explains(ray, world, background, 0),
    ensures
        radiance.settled_spec() == Some(Vec3::origin()),
        background == Vec3::origin() ==> radiance.settled_spec() == Some(background),
{
}

/// A ray that hits a light returns exactly what the light emits there: a
/// light scatters nothing, so nothing is weakened and nothing is added.
pub proof fn light_is_seen_unattenuated<H, T>(
    radiance: Radiance,
    ray: Ray,
    world: H,
    background: Color,
    bounces_left: nat,
)
    where H: Hittable<Material = DiffuseLightMaterial<T>>, T: Texture
    requires
        bounces_left > 0,
        world.hit_spec(ray, shadow_epsilon(), unbounded()) is Some,
        radiance.explains(ray, world, background, bounces_left),
    ensures
        ({
            let hit_record = world.hit_spec(ray, shadow_epsilon(), unbounded())->0;
            radiance.settled_spec() == Some(
                if hit_record.front_face {
                    hit_record.material.emit.value_spec(
                        hit_record.u,
                        hit_record.v,
                        hit_record.point,
                    )
                } else {
                    Vec3::origin()
                },
            )
        }),
{
}

} // verus!
