//! Triangle meshes as they come out of a model file.

use vstd::prelude::*;
use crate::scalar::Scalar;
use crate::vec3::Vec3;

verus! {

/// The kinds of material that a model file can ask for.
#[derive(Clone, Copy, Debug, PartialEq, Eq, Structural)]
pub enum Shading {
    Dielectric,
    Metal,
    Lambertian,
}

/// The material that an illumination model of a model file stands for:
/// model 7 is glass, model 5 a mirror, and everything else, or none, matt.
pub open spec fn shading_for(illumination_model: Option<u8>) -> Shading {
    match illumination_model {
        Some(model) => if model == 7 {
            Shading::Dielectric
        } else if model == 5 {
            Shading::Metal
        } else {
            Shading::Lambertian
        },
        None => Shading::Lambertian,
    }
}

/// The material that an illumination model of a model file stands for.
pub fn shading_of(illumination_model: Option<u8>) -> (shading: Shading)
    ensures
        shading == shading_for(illumination_model),
{
    match illumination_model {
        Some(7) => Shading::Dielectric,
        Some(5) => Shading::Metal,
        _ => Shading::Lambertian,
    }
}

/// A mesh: corner indices, three to a triangle; the coordinates of the
/// vertices, three to a vertex; normals in the same layout, or none; and
/// the number of the material, if the mesh names one.
pub struct Mesh {
    pub indices: Vec<u32>,
    pub positions: Vec<Scalar>,
    pub normals: Vec<Scalar>,
    pub material_id: Option<usize>,
}

/// One triangle of a mesh: its three corners in their order, the normal that the file
/// gives for its first corner, if the file has normals, and the number of
/// its material.
#[derive(Clone, Copy, Debug)]
pub struct Facet {
    pub first: Vec3,
    pub second: Vec3,
    pub third: Vec3,
    pub normal: Option<Vec3>,
    pub material_id: Option<usize>,
}

/// The three values that a list holds for a vertex.
pub open spec fn triple_at(values: Seq<Scalar>, vertex: int) -> Vec3 {
    Vec3 { x: values[3 * vertex], y: values[3 * vertex + 1], z: values[3 * vertex + 2] }
}

/// Whether a list holds three values for a vertex.
pub open spec fn has_triple(values: Seq<Scalar>, vertex: int) -> bool {
    0 <= vertex && 3 * vertex + 2 < values.len()
}

impl Mesh {
    /// The number of triangles: a third of the number of corner indices,
    /// rounded down.
    pub open spec fn triangles(self) -> int {
        self.indices@.len() as int / 3
    }

    /// The vertex that is a corner of a triangle.
    pub open spec fn corner(self, triangle: int, corner: int) -> int {
        self.indices@[3 * triangle + corner] as int
    }

    /// The triangle can be looked up: its three corners have coordinates,
    /// and, where the mesh has normals, its first corner has one.
    pub open spec fn indexes(self, triangle: int) -> bool {
        &&& has_triple(self.positions@, self.corner(triangle, 0))
        &&& has_triple(self.positions@, self.corner(triangle, 1))
        &&& has_triple(self.positions@, self.corner(triangle, 2))
        &&& self.normals@.len() > 0 ==> has_triple(self.normals@, self.corner(triangle, 0))
    }

    /// Every triangle can be looked up, and the material, if one is named,
    /// is one of `material_count` materials.
    pub open spec fn is_well_indexed(self, material_count: usize) -> bool {
        &&& forall|triangle: int| 0 <= triangle < self.triangles() ==> #[trigger] self.indexes(
            triangle,
        )
        &&& self.material_id matches Some(id) ==> id < material_count
    }

    /// The triangle at a place of the mesh.
    pub open spec fn facet(self, triangle: int) -> Facet {
        Facet {
            first: triple_at(self.positions@, self.corner(triangle, 0)),
            second: triple_at(self.positions@, self.corner(triangle, 1)),
            third: triple_at(self.positions@, self.corner(triangle, 2)),
            normal: if self.normals@.len() == 0 {
                None
            } else {
                Some(triple_at(self.normals@, self.corner(triangle, 0)))
            },
            material_id: self.material_id,
        }
    }

    /// Whether a list holds three values for a vertex.
    fn holds(values: &Vec<Scalar>, vertex: u32) -> (held: bool)
        ensures
            held == has_triple(values@, vertex as int),
    {
        let length = values.len();
        length >= 3 && (vertex as usize) <= (length - 3) / 3
    }

    /// The three values that a list holds for a vertex.
    fn triple(values: &Vec<Scalar>, vertex: u32) -> (vector: Vec3)
        requires
            has_triple(values@, vertex as int),
        ensures
            vector == triple_at(values@, vertex as int),
    {
        let length = values.len();
        assert(3 * vertex + 2 < length);
        let first = (vertex as usize) * 3;
        Vec3::new(values[first], values[first + 1], values[first + 2])
    }

    /// Checks that every triangle of the mesh can be looked up and that its
    /// material, if it names one, is one of `material_count` materials.
    pub fn check(&self, material_count: usize) -> (sound: bool)
        ensures
            sound == self.is_well_indexed(material_count),
    {
        match self.material_id {
            Some(id) => {
                if id >= material_count {
                    return false;
                }
            },
            None => {},
        }
        let length = self.indices.len();
        let count = length / 3;
        let mut triangle: usize = 0;
        while triangle < count
            invariant
                triangle <= count,
                count == self.triangles(),
                length == self.indices@.len(),
                3 * count <= length,
                forall|done: int| 0 <= done < triangle ==> #[trigger] self.indexes(done),
            decreases count - triangle,
        {
            let first = self.indices[3 * triangle];
            let sound = Self::holds(&self.positions, first) && Self::holds(
                &self.positions,
                self.indices[3 * triangle + 1],
            ) && Self::holds(&self.positions, self.indices[3 * triangle + 2]) && (
            self.normals.len() == 0 || Self::holds(&self.normals, first));
            if !sound {
                assert(!self.indexes(triangle as int));
                return false;
            }
            triangle = triangle + 1;
        }
        true
    }

    /// The triangles of the mesh, in the order of their corner indices.
    pub fn facets(&self, material_count: usize) -> (facets: Vec<Facet>)
        requires
            self.is_well_indexed(material_count),
        ensures
            facets@.len() == self.triangles(),
            forall|triangle: int|
                0 <= triangle < self.triangles() ==> #[trigger] facets@[triangle] == self.facet(
                    triangle,
                ),
    {
        let length = self.indices.len();
        let count = length / 3;
        let mut facets: Vec<Facet> = Vec::new();
        let mut triangle: usize = 0;
        while triangle < count
            invariant
                triangle <= count,
                count == self.triangles(),
                length == self.indices@.len(),
                3 * count <= length,
                self.is_well_indexed(material_count),
                facets@.len() == triangle,
                forall|done: int|
                    0 <= done < triangle ==> #[trigger] facets@[done] == self.facet(done),
            decreases count - triangle,
        {
            assert(self.indexes(triangle as int));
            let first = self.indices[3 * triangle];
            let second = Self::triple(&self.positions, self.indices[3 * triangle + 1]);
            let third = Self::triple(&self.positions, self.indices[3 * triangle + 2]);
            let normal = if self.normals.len() == 0 {
                None
            } else {
                Some(Self::triple(&self.normals, first))
            };
            facets.push(
                Facet {
                    first: Self::triple(&self.positions, first),
                    second,
                    third,
                    normal,
                    material_id: self.material_id,
                },
            );
            triangle = triangle + 1;
        }
        facets
    }
}

} // verus!
