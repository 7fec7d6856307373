//! Materials: a tagged variant per shading rule, each owning its own
//! fragment-generation data. The solid-color member keeps its color as
//! the GLSL text of the three components, ready to stand verbatim in
//! generated source.
use vstd::prelude::*;
use crate::shader_attribute::{ShaderAttribute, attr_is, FLOAT_DATA_TYPE};

verus! {

/// A color as the decimal text of its red, green and blue components,
/// exactly as generated fragment source spells them.
#[derive(Debug)]
pub struct ColorRgb {
    pub r: String,
    pub g: String,
    pub b: String,
}

impl ColorRgb {
    pub fn new(r: String, g: String, b: String) -> (c: Self)
        ensures
            c.r@ == r@,
            c.g@ == g@,
            c.b@ == b@,
    {
        Self { r, g, b }
    }
}

/// A solid-color material: the color and the fragment-stage output it
/// writes.
#[derive(Debug)]
pub struct SolidColorMaterial {
    pub color: ColorRgb,
    pub color_out: ShaderAttribute,
}

impl SolidColorMaterial {
    pub fn create(color: ColorRgb) -> (r: Self)
        ensures
            r.color == color,
            attr_is(&r.color_out, None, 4, FLOAT_DATA_TYPE as int, "color_out"@, "vec4"@, 16),
    {
        Self {
            color,
            color_out: ShaderAttribute::output_float4("color_out".to_owned()),
        }
    }

    pub fn get_color_out(&self) -> (r: &ShaderAttribute)
        ensures
            r == &self.color_out,
    {
        &self.color_out
    }

    pub fn get_color(&self) -> (r: &ColorRgb)
        ensures
            r == &self.color,
    {
        &self.color
    }
}

/// The material kinds; each adds its own fragment-generation rule.
#[derive(Debug)]
pub enum MaterialType {
    SolidColor(SolidColorMaterial),
}

/// A named material of some kind.
#[derive(Debug)]
pub struct Material {
    pub material_type: MaterialType,
    pub name: String,
}

impl Material {
    pub fn create_with_type(material_type: MaterialType, name: &str) -> (r: Self)
        ensures
            r.material_type == material_type,
            r.name@ == name@,
    {
        Self {
            material_type,
            name: name.to_owned(),
        }
    }

    pub fn create_solid_color(color: ColorRgb, name: &str) -> (r: Self)
        ensures
            r.material_type matches MaterialType::SolidColor(m) && m.color == color && attr_is(
                &m.color_out,
                None,
                4,
                FLOAT_DATA_TYPE as int,
                "color_out"@,
                "vec4"@,
                16,
            ),
            r.name@ == name@,
    {
        Self::create_with_type(MaterialType::SolidColor(SolidColorMaterial::create(color)), name)
    }

    pub fn get_material_type(&self) -> (r: &MaterialType)
        ensures
            r == &self.material_type,
    {
        &self.material_type
    }

    pub fn get_name(&self) -> (r: &str)
        ensures
            r@ == self.name@,
    {
        self.name.as_str()
    }
}

} // verus!
