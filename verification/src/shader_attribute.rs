//! Typed descriptors of shader-stage attributes and their GLSL
//! declaration text. An input attribute always carries a binding
//! index; varyings, outputs and uniforms never do. Stride is the byte
//! width of one value of the attribute.
use vstd::prelude::*;

verus! {

/// The GL enumerant for 32-bit floating-point attribute data.
pub const FLOAT_DATA_TYPE: u32 = 5126;

/// Bytes of one 32-bit float component.
pub const FLOAT_SIZE: i32 = 4;

pub open spec fn digit_char(d: int) -> char {
    ((48 + d) as u8) as char
}

/// The decimal text of an unsigned number.
pub open spec fn dec_str(n: nat) -> Seq<char>
    decreases n,
{
    if n < 10 {
        seq![digit_char(n as int)]
    } else {
        dec_str(n / 10) + seq![digit_char((n % 10) as int)]
    }
}

fn digit_char_of(d: u32) -> (c: char)
    requires
        d < 10,
    ensures
        c == digit_char(d as int),
{
    (48 + d as u8) as char
}

/// The decimal text of `n`, one digit character at a time.
pub fn u32_to_string(n: u32) -> (r: String)
    ensures
        r@ == dec_str(n as nat),
    decreases n,
{
    if n < 10 {
        let mut r = String::new();
        r.push(digit_char_of(n));
        proof {
            assert(r@ =~= dec_str(n as nat));
        }
        r
    } else {
        let mut r = u32_to_string(n / 10);
        r.push(digit_char_of(n % 10));
        proof {
            assert(r@ =~= dec_str(n as nat));
        }
        r
    }
}

/// A single shader attribute: an optional vertex-input location, a
/// component count, the GL data type, the display name used verbatim in
/// generated text, the GLSL type name, and the byte stride of one
/// value.
#[derive(Debug)]
pub struct ShaderAttribute {
    pub index: Option<u32>,
    pub size: i32,
    pub data_type: u32,
    pub name: String,
    pub cpp_type: String,
    pub stride: i32,
}

/// The attribute's fields, stated value by value.
pub open spec fn attr_is(
    a: &ShaderAttribute,
    index: Option<u32>,
    size: int,
    data_type: int,
    name: Seq<char>,
    cpp_type: Seq<char>,
    stride: int,
) -> bool {
    &&& a.index == index
    &&& a.size == size
    &&& a.data_type == data_type
    &&& a.name@ == name
    &&& a.cpp_type@ == cpp_type
    &&& a.stride == stride
}

/// GLSL text of an indexed vertex-stage input declaration.
pub open spec fn vertex_in_text(index: u32, cpp_type: Seq<char>, name: Seq<char>) -> Seq<char> {
    "layout(location = "@ + dec_str(index as nat) + ") in "@ + cpp_type + " "@ + name + ";\n"@
}

/// GLSL text of a vertex-stage output declaration.
pub open spec fn vertex_out_text(cpp_type: Seq<char>, name: Seq<char>) -> Seq<char> {
    "out "@ + cpp_type + " "@ + name + ";\n"@
}

/// GLSL text of a fragment-stage input declaration.
pub open spec fn fragment_in_text(cpp_type: Seq<char>, name: Seq<char>) -> Seq<char> {
    "in "@ + cpp_type + " "@ + name + ";\n"@
}

/// GLSL text of a uniform declaration.
pub open spec fn uniform_text(cpp_type: Seq<char>, name: Seq<char>) -> Seq<char> {
    "uniform "@ + cpp_type + " "@ + name + ";\n"@
}

impl ShaderAttribute {
    pub fn index(&self) -> (r: Option<u32>)
        ensures
            r == self.index,
    {
        self.index
    }

    pub fn size(&self) -> (r: i32)
        ensures
            r == self.size,
    {
        self.size
    }

    pub fn data_type(&self) -> (r: u32)
        ensures
            r == self.data_type,
    {
        self.data_type
    }

    pub fn name(&self) -> (r: &String)
        ensures
            r@ == self.name@,
    {
        &self.name
    }

    pub fn get_cpp_type(&self) -> (r: &String)
        ensures
            r@ == self.cpp_type@,
    {
        &self.cpp_type
    }

    pub fn get_stride(&self) -> (r: i32)
        ensures
            r == self.stride,
    {
        self.stride
    }

    /// The indexed input declaration of this attribute; only an input
    /// attribute, which always carries its binding index, has one.
    pub fn as_vertex_shader_in(&self) -> (r: String)
        requires
            self.index is Some,
        ensures
            self.index matches Some(i) && r@ == vertex_in_text(i, self.cpp_type@, self.name@),
    {
        let i = match self.index {
            Some(i) => i,
            None => 0,
        };
        let mut r = String::new();
        r.append("layout(location = ");
        let num = u32_to_string(i);
        r.append(num.as_str());
        r.append(") in ");
        r.append(self.cpp_type.as_str());
        r.append(" ");
        r.append(self.name.as_str());
        r.append(";\n");
        r
    }

    pub fn as_vertex_shader_out(&self) -> (r: String)
        ensures
            r@ == vertex_out_text(self.cpp_type@, self.name@),
    {
        let mut r = String::new();
        r.append("out ");
        r.append(self.cpp_type.as_str());
        r.append(" ");
        r.append(self.name.as_str());
        r.append(";\n");
        r
    }

    pub fn as_fragment_shader_in(&self) -> (r: String)
        ensures
            r@ == fragment_in_text(self.cpp_type@, self.name@),
    {
        let mut r = String::new();
        r.append("in ");
        r.append(self.cpp_type.as_str());
        r.append(" ");
        r.append(self.name.as_str());
        r.append(";\n");
        r
    }

    pub fn as_fragment_shader_out(&self) -> (r: String)
        ensures
            r@ == vertex_out_text(self.cpp_type@, self.name@),
    {
        let mut r = String::new();
        r.append("out ");
        r.append(self.cpp_type.as_str());
        r.append(" ");
        r.append(self.name.as_str());
        r.append(";\n");
        r
    }

    pub fn as_uniform(&self) -> (r: String)
        ensures
            r@ == uniform_text(self.cpp_type@, self.name@),
    {
        let mut r = String::new();
        r.append("uniform ");
        r.append(self.cpp_type.as_str());
        r.append(" ");
        r.append(self.name.as_str());
        r.append(";\n");
        r
    }

    /// An indexed four-component float input.
    pub fn float4(index: u32, name: String) -> (r: Self)
        ensures
            attr_is(&r, Some(index), 4, FLOAT_DATA_TYPE as int, name@, "vec4"@, 16),
    {
        Self {
            index: Some(index),
            size: 4,
            data_type: FLOAT_DATA_TYPE,
            name,
            cpp_type: "vec4".to_owned(),
            stride: FLOAT_SIZE * 4,
        }
    }

    /// An un-indexed four-component float output or varying.
    pub fn output_float4(name: String) -> (r: Self)
        ensures
            attr_is(&r, None, 4, FLOAT_DATA_TYPE as int, name@, "vec4"@, 16),
    {
        Self {
            index: None,
            size: 4,
            data_type: FLOAT_DATA_TYPE,
            name,
            cpp_type: "vec4".to_owned(),
            stride: FLOAT_SIZE * 4,
        }
    }

    /// An indexed three-component float input.
    pub fn float3(index: u32, name: String) -> (r: Self)
        ensures
            attr_is(&r, Some(index), 3, FLOAT_DATA_TYPE as int, name@, "vec3"@, 12),
    {
        Self {
            index: Some(index),
            size: 3,
            data_type: FLOAT_DATA_TYPE,
            name,
            cpp_type: "vec3".to_owned(),
            stride: FLOAT_SIZE * 3,
        }
    }

    /// An un-indexed three-component float output or varying.
    pub fn output_float3(name: String) -> (r: Self)
        ensures
            attr_is(&r, None, 3, FLOAT_DATA_TYPE as int, name@, "vec3"@, 12),
    {
        Self {
            index: None,
            size: 3,
            data_type: FLOAT_DATA_TYPE,
            name,
            cpp_type: "vec3".to_owned(),
            stride: FLOAT_SIZE * 3,
        }
    }

    /// A 4x4 float matrix uniform.
    pub fn uniform_mat4(name: String) -> (r: Self)
        ensures
            attr_is(&r, None, -1, 0, name@, "mat4"@, 64),
    {
        Self {
            index: None,
            size: -1,
            data_type: 0,
            name,
            cpp_type: "mat4".to_owned(),
            stride: FLOAT_SIZE * 16,
        }
    }
}

/// One vertex-stage input paired with the varying that carries the same
/// quantity on to the fragment stage, under one shared display name.
#[derive(Debug)]
pub struct ShaderAttributePair {
    pub name: String,
    pub attribute_in: ShaderAttribute,
    pub attribute_out: ShaderAttribute,
}

impl ShaderAttributePair {
    /// A four-component pair: the input named `<name>_in` at the given
    /// location, the varying under the name itself.
    pub fn float4(index: u32, name: String) -> (r: Self)
        ensures
            r.name@ == name@,
            attr_is(&r.attribute_in, Some(index), 4, FLOAT_DATA_TYPE as int, name@ + "_in"@, "vec4"@, 16),
            attr_is(&r.attribute_out, None, 4, FLOAT_DATA_TYPE as int, name@, "vec4"@, 16),
    {
        let in_name = name.clone().concat("_in");
        Self {
            name: name.clone(),
            attribute_in: ShaderAttribute::float4(index, in_name),
            attribute_out: ShaderAttribute::output_float4(name),
        }
    }

    /// A three-component pair: the input named `<name>_in` at the given
    /// location, the varying under the name itself.
    pub fn float3(index: u32, name: String) -> (r: Self)
        ensures
            r.name@ == name@,
            attr_is(&r.attribute_in, Some(index), 3, FLOAT_DATA_TYPE as int, name@ + "_in"@, "vec3"@, 12),
            attr_is(&r.attribute_out, None, 3, FLOAT_DATA_TYPE as int, name@, "vec3"@, 12),
    {
        let in_name = name.clone().concat("_in");
        Self {
            name: name.clone(),
            attribute_in: ShaderAttribute::float3(index, in_name),
            attribute_out: ShaderAttribute::output_float3(name),
        }
    }

    pub fn get_name(&self) -> (r: &String)
        ensures
            r@ == self.name@,
    {
        &self.name
    }

    pub fn get_attribute_in(&self) -> (r: &ShaderAttribute)
        ensures
            r == &self.attribute_in,
    {
        &self.attribute_in
    }

    pub fn get_attribute_out(&self) -> (r: &ShaderAttribute)
        ensures
            r == &self.attribute_out,
    {
        &self.attribute_out
    }
}

} // verus!
