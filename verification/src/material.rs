//! Surface materials.
//!
//! A material's numbers are single-precision values held as [`Scalar`]s.  The
//! four coefficients are, in order: diffuse, specular, reflectivity,
//! transparency.  None of them is held to a range.

use vstd::prelude::*;
use crate::color::Color;
use crate::scalar::{Scalar, ONE_BITS};
use crate::texture::Texture;

verus! {

/// The place of each coefficient in `Material::properties`.
pub const DIFFUSE: usize = 0;

pub const SPECULAR: usize = 1;

pub const REFLECTIVITY: usize = 2;

pub const TRANSPARENCY: usize = 3;

#[derive(Clone, Debug)]
pub struct Material {
    pub color: Color,
    pub texture: Option<Texture>,
    /// The specular exponent.
    pub shininess: Scalar,
    pub properties: [Scalar; 4],
    /// The refractive index; 1 is that of empty space.
    pub refractive_index: Scalar,
    /// Light that the surface gives off by itself.
    pub emission: Color,
}

impl Material {
    /// The surface has neither a specular highlight nor a mirror image: its
    /// specular coefficient and its reflectivity are both zero.
    pub open spec fn diffuse_only(&self) -> bool {
        self.properties@[SPECULAR as int].is_zero() && self.properties@[REFLECTIVITY as int].is_zero()
    }

    /// The surface spawns a reflected ray: its reflectivity is above zero.
    pub open spec fn reflective(&self) -> bool {
        self.properties@[REFLECTIVITY as int].is_positive()
    }

    /// The surface spawns a refracted ray: its transparency is above zero.
    pub open spec fn transparent(&self) -> bool {
        self.properties@[TRANSPARENCY as int].is_positive()
    }

    /// A flat-coloured material that gives off no light.
    pub fn new(color: Color, shininess: Scalar, properties: [Scalar; 4], refractive_index: Scalar) -> (m:
        Material)
        ensures
            m.color == color,
            m.texture is None,
            m.shininess == shininess,
            m.properties == properties,
            m.refractive_index == refractive_index,
            m.emission == (Color { r: 0, g: 0, b: 0 }),
    {
        Material {
            color,
            texture: None,
            shininess,
            properties,
            refractive_index,
            emission: Color::black(),
        }
    }

    /// A black material: all coefficients and the shininess zero, the
    /// refractive index one, no texture, no light of its own.
    pub fn black() -> (m: Material)
        ensures
            m.color == (Color { r: 0, g: 0, b: 0 }),
            m.texture is None,
            m.shininess.bits == 0,
            forall|i: int| 0 <= i < 4 ==> (#[trigger] m.properties@[i]).bits == 0,
            m.refractive_index.bits == ONE_BITS,
            m.emission == (Color { r: 0, g: 0, b: 0 }),
            m.diffuse_only(),
            !m.reflective(),
            !m.transparent(),
    {
        Material {
            color: Color::new(0, 0, 0),
            texture: None,
            shininess: Scalar::zero(),
            properties: [Scalar::zero(), Scalar::zero(), Scalar::zero(), Scalar::zero()],
            refractive_index: Scalar::from_bits(ONE_BITS),
            emission: Color::black(),
        }
    }

    /// A textured material: its own colour is white and it gives off no
    /// light.
    pub fn with_texture(
        texture: Texture,
        shininess: Scalar,
        properties: [Scalar; 4],
        refractive_index: Scalar,
    ) -> (m: Material)
        ensures
            m.color == (Color { r: 255, g: 255, b: 255 }),
            m.texture == Some(texture),
            m.shininess == shininess,
            m.properties == properties,
            m.refractive_index == refractive_index,
            m.emission == (Color { r: 0, g: 0, b: 0 }),
    {
        Material {
            color: Color::white(),
            texture: Some(texture),
            shininess,
            properties,
            refractive_index,
            emission: Color::black(),
        }
    }

    /// A flat-coloured material that gives off light.
    pub fn with_emission(
        color: Color,
        shininess: Scalar,
        properties: [Scalar; 4],
        refractive_index: Scalar,
        emission: Color,
    ) -> (m: Material)
        ensures
            m.color == color,
            m.texture is None,
            m.shininess == shininess,
            m.properties == properties,
            m.refractive_index == refractive_index,
            m.emission == emission,
    {
        Material { color, texture: None, shininess, properties, refractive_index, emission }
    }

    pub fn is_diffuse(&self) -> (r: bool)
        ensures
            r == self.diffuse_only(),
    {
        self.properties[SPECULAR].is_zero() && self.properties[REFLECTIVITY].is_zero()
    }

    pub fn is_reflective(&self) -> (r: bool)
        ensures
            r == self.reflective(),
    {
        self.properties[REFLECTIVITY].is_positive()
    }

    pub fn is_transparent(&self) -> (r: bool)
        ensures
            r == self.transparent(),
    {
        self.properties[TRANSPARENCY].is_positive()
    }
}

} // verus!
