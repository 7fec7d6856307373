//! Vertex-shader descriptors and the mesh they describe.
//!
//! A descriptor fixes the packing order of the interleaved vertex
//! buffer: the position input first, then one input per attribute
//! pair, in sequence order. A mesh holds its vertex words (one 32-bit
//! little-endian word per float component), an optional triangle index
//! buffer, and the descriptor, so render-time binding can recompute
//! stride and offsets rather than cache them.
use vstd::prelude::*;
use crate::shader_attribute::{ShaderAttribute, ShaderAttributePair, attr_is, FLOAT_DATA_TYPE};

verus! {

/// The binding index an input attribute carries.
pub open spec fn attr_index(a: &ShaderAttribute) -> u32 {
    match a.index {
        Some(i) => i,
        None => 0,
    }
}

/// First index among the pairs whose shared name is `nm`, or the
/// number of pairs when none is.
pub open spec fn find_pair(props: Seq<ShaderAttributePair>, nm: Seq<char>) -> int
    decreases props.len(),
{
    if props.len() == 0 {
        0
    } else if props[0].name@ == nm {
        0
    } else {
        1 + find_pair(props.skip(1), nm)
    }
}

pub proof fn lemma_find_pair(props: Seq<ShaderAttributePair>, nm: Seq<char>)
    ensures
        0 <= find_pair(props, nm) <= props.len(),
        find_pair(props, nm) < props.len() ==> props[find_pair(props, nm)].name@ == nm,
        forall|j: int| 0 <= j < find_pair(props, nm) ==> props[j].name@ != nm,
    decreases props.len(),
{
    if props.len() > 0 && props[0].name@ != nm {
        lemma_find_pair(props.skip(1), nm);
        assert forall|j: int| 0 <= j < find_pair(props, nm) implies props[j].name@ != nm by {
            if j > 0 {
                assert(props.skip(1)[j - 1] == props[j]);
            }
        }
        if find_pair(props, nm) < props.len() {
            assert(props.skip(1)[find_pair(props, nm) - 1] == props[find_pair(props, nm)]);
        }
    }
}

/// Total byte stride of the pairs' input attributes.
pub open spec fn sum_strides(props: Seq<ShaderAttributePair>) -> int
    decreases props.len(),
{
    if props.len() == 0 {
        0
    } else {
        sum_strides(props.drop_last()) + props.last().attribute_in.stride
    }
}

/// Total component count of the pairs' input attributes.
pub open spec fn sum_sizes(props: Seq<ShaderAttributePair>) -> int
    decreases props.len(),
{
    if props.len() == 0 {
        0
    } else {
        sum_sizes(props.drop_last()) + props.last().attribute_in.size
    }
}

pub proof fn lemma_sum_strides_prefix(props: Seq<ShaderAttributePair>, k: int)
    requires
        0 <= k <= props.len(),
        forall|j: int| 0 <= j < props.len() ==> props[j].attribute_in.stride >= 0,
    ensures
        0 <= sum_strides(props.take(k)) <= sum_strides(props),
        sum_strides(props.take(props.len() as int)) == sum_strides(props),
    decreases props.len() - k,
{
    assert(props.take(props.len() as int) =~= props);
    assert(forall|j: int| 0 <= j < props.take(k).len() ==> #[trigger] props.take(
        k,
    )[j].attribute_in.stride >= 0);
    lemma_sum_nonneg(props.take(k));
    if k < props.len() {
        assert(props.take(k + 1).drop_last() =~= props.take(k));
        assert(props.take(k + 1).last() == props[k]);
        lemma_sum_strides_prefix(props, k + 1);
    } else {
        lemma_sum_nonneg(props);
    }
}

proof fn lemma_sum_nonneg(props: Seq<ShaderAttributePair>)
    requires
        forall|j: int| 0 <= j < props.len() ==> props[j].attribute_in.stride >= 0,
    ensures
        sum_strides(props) >= 0,
    decreases props.len(),
{
    if props.len() > 0 {
        lemma_sum_nonneg(props.drop_last());
    }
}

/// One per-draw attribute binding: what a renderer hands to the GPU
/// for one input attribute of the currently bound buffer.
#[derive(Debug, PartialEq, Eq, Structural, Clone, Copy)]
pub struct AttributeBinding {
    pub index: u32,
    pub size: i32,
    pub data_type: u32,
    pub stride: i32,
    pub offset: i32,
}

/// The fixed position input, the clip-space output, the ordered
/// attribute pairs, and the camera-transform uniform of a simple
/// vertex stage.
#[derive(Debug)]
pub struct SimpleVertexShader {
    pub vertex_in: ShaderAttribute,
    pub vertex_out: ShaderAttribute,
    pub vertex_properties: Vec<ShaderAttributePair>,
    pub camera_matrix: ShaderAttribute,
}

impl SimpleVertexShader {
    pub fn new(vertex_in: ShaderAttribute, vertex_out: ShaderAttribute, properties: Vec<
        ShaderAttributePair,
    >) -> (r: Self)
        ensures
            r.vertex_in == vertex_in,
            r.vertex_out == vertex_out,
            r.vertex_properties == properties,
            attr_is(&r.camera_matrix, None, -1, 0, "camera_matrix"@, "mat4"@, 64),
    {
        Self {
            vertex_in,
            vertex_out,
            vertex_properties: properties,
            camera_matrix: ShaderAttribute::uniform_mat4("camera_matrix".to_owned()),
        }
    }

    /// The four-component position layout with no extra attributes.
    pub fn default() -> (r: Self)
        ensures
            attr_is(&r.vertex_in, Some(0u32), 4, FLOAT_DATA_TYPE as int, "position"@, "vec4"@, 16),
            attr_is(&r.vertex_out, None, 4, FLOAT_DATA_TYPE as int, "gl_Position"@, "vec4"@, 16),
            r.vertex_properties@.len() == 0,
            attr_is(&r.camera_matrix, None, -1, 0, "camera_matrix"@, "mat4"@, 64),
    {
        Self {
            vertex_in: ShaderAttribute::float4(0, "position".to_owned()),
            vertex_out: ShaderAttribute::output_float4("gl_Position".to_owned()),
            vertex_properties: Vec::new(),
            camera_matrix: ShaderAttribute::uniform_mat4("camera_matrix".to_owned()),
        }
    }

    /// A three-component position input followed by the given pairs.
    pub fn from_vertex_map(properties: Vec<ShaderAttributePair>) -> (r: Self)
        ensures
            attr_is(&r.vertex_in, Some(0u32), 3, FLOAT_DATA_TYPE as int, "position"@, "vec3"@, 12),
            attr_is(&r.vertex_out, None, 4, FLOAT_DATA_TYPE as int, "gl_Position"@, "vec4"@, 16),
            r.vertex_properties == properties,
            attr_is(&r.camera_matrix, None, -1, 0, "camera_matrix"@, "mat4"@, 64),
    {
        Self {
            vertex_in: ShaderAttribute::float3(0, "position".to_owned()),
            vertex_out: ShaderAttribute::output_float4("gl_Position".to_owned()),
            vertex_properties: properties,
            camera_matrix: ShaderAttribute::uniform_mat4("camera_matrix".to_owned()),
        }
    }

    pub fn get_vertex_in(&self) -> (r: &ShaderAttribute)
        ensures
            r == &self.vertex_in,
    {
        &self.vertex_in
    }

    pub fn get_vertex_out(&self) -> (r: &ShaderAttribute)
        ensures
            r == &self.vertex_out,
    {
        &self.vertex_out
    }

    pub fn get_vertex_properties(&self) -> (r: &Vec<ShaderAttributePair>)
        ensures
            r == &self.vertex_properties,
    {
        &self.vertex_properties
    }

    pub fn get_vertex_property(&self, index: usize) -> (r: &ShaderAttributePair)
        requires
            index < self.vertex_properties@.len(),
        ensures
            r == &self.vertex_properties@[index as int],
    {
        &self.vertex_properties[index]
    }

    /// The first pair carrying the given shared name, if any does.
    pub fn get_vertex_property_with_name(&self, name: String) -> (r: Option<&ShaderAttributePair>)
        ensures
            ({
                let f = find_pair(self.vertex_properties@, name@);
                if f < self.vertex_properties@.len() {
                    r matches Some(p) && p == &self.vertex_properties@[f]
                } else {
                    r is None
                }
            }),
    {
        let ghost props = self.vertex_properties@;
        proof {
            lemma_find_pair(props, name@);
        }
        let mut i: usize = 0;
        while i < self.vertex_properties.len()
            invariant
                0 <= i <= props.len(),
                props == self.vertex_properties@,
                forall|j: int| 0 <= j < i ==> props[j].name@ != name@,
                0 <= find_pair(props, name@) <= props.len(),
                find_pair(props, name@) < props.len() ==> props[find_pair(props, name@)].name@
                    == name@,
                forall|j: int| 0 <= j < find_pair(props, name@) ==> props[j].name@ != name@,
            decreases props.len() - i,
        {
            let pair_name = self.vertex_properties[i].get_name();
            if pair_name.eq(&name) {
                proof {
                    assert(find_pair(props, name@) == i);
                }
                return Some(&self.vertex_properties[i]);
            }
            i = i + 1;
        }
        proof {
            assert(find_pair(props, name@) == props.len());
        }
        None
    }

    pub fn get_camera_matrix(&self) -> (r: &ShaderAttribute)
        ensures
            r == &self.camera_matrix,
    {
        &self.camera_matrix
    }

    /// The per-draw bindings of every input attribute: position first,
    /// then the pairs in order. The stride is the byte width of one
    /// whole vertex; offsets accumulate the earlier attributes'
    /// strides.
    #[verifier::loop_isolation(false)]
    pub fn get_attribute_bindings(&self) -> (r: Vec<AttributeBinding>)
        requires
            self.vertex_in.index is Some,
            forall|j: int| 0 <= j < self.vertex_properties@.len()
                ==> self.vertex_properties@[j].attribute_in.index is Some,
            self.vertex_in.stride >= 0,
            forall|j: int| 0 <= j < self.vertex_properties@.len()
                ==> self.vertex_properties@[j].attribute_in.stride >= 0,
            self.vertex_in.stride + sum_strides(self.vertex_properties@) <= i32::MAX,
        ensures
            ({
                let props = self.vertex_properties@;
                let total = self.vertex_in.stride + sum_strides(props);
                &&& r@.len() == 1 + props.len()
                &&& r@[0] == (AttributeBinding {
                    index: attr_index(&self.vertex_in),
                    size: self.vertex_in.size,
                    data_type: self.vertex_in.data_type,
                    stride: total as i32,
                    offset: 0,
                })
                &&& forall|k: int| 0 <= k < props.len() ==> r@[k + 1] == (AttributeBinding {
                    index: attr_index(&props[k].attribute_in),
                    size: props[k].attribute_in.size,
                    data_type: props[k].attribute_in.data_type,
                    stride: total as i32,
                    offset: (self.vertex_in.stride + sum_strides(props.take(k))) as i32,
                })
            }),
    {
        let ghost props = self.vertex_properties@;
        proof {
            lemma_sum_strides_prefix(props, 0);
            assert(props.take(0) =~= Seq::<ShaderAttributePair>::empty());
        }
        let mut stride: i32 = self.vertex_in.get_stride();
        let mut i: usize = 0;
        while i < self.vertex_properties.len()
            invariant
                0 <= i <= props.len(),
                stride == self.vertex_in.stride + sum_strides(props.take(i as int)),
            decreases props.len() - i,
        {
            proof {
                lemma_sum_strides_prefix(props, i as int);
                lemma_sum_strides_prefix(props, i + 1);
                assert(props.take(i + 1).drop_last() =~= props.take(i as int));
                assert(props.take(i + 1).last() == props[i as int]);
            }
            stride = stride + self.vertex_properties[i].get_attribute_in().get_stride();
            i = i + 1;
        }
        proof {
            assert(props.take(props.len() as int) =~= props);
        }
        let total = stride;
        let mut result: Vec<AttributeBinding> = Vec::new();
        let first_index = match self.vertex_in.index() {
            Some(first_index) => first_index,
            None => 0,
        };
        result.push(AttributeBinding {
            index: first_index,
            size: self.vertex_in.size(),
            data_type: self.vertex_in.data_type(),
            stride: total,
            offset: 0,
        });
        let mut offset: i32 = self.vertex_in.get_stride();
        let mut i: usize = 0;
        while i < self.vertex_properties.len()
            invariant
                0 <= i <= props.len(),
                offset == self.vertex_in.stride + sum_strides(props.take(i as int)),
                result@.len() == 1 + i,
                result@[0] == (AttributeBinding {
                    index: attr_index(&self.vertex_in),
                    size: self.vertex_in.size,
                    data_type: self.vertex_in.data_type,
                    stride: (self.vertex_in.stride + sum_strides(props)) as i32,
                    offset: 0,
                }),
                total == self.vertex_in.stride + sum_strides(props),
                forall|k: int| 0 <= k < i ==> result@[k + 1] == (AttributeBinding {
                    index: attr_index(&props[k].attribute_in),
                    size: props[k].attribute_in.size,
                    data_type: props[k].attribute_in.data_type,
                    stride: (self.vertex_in.stride + sum_strides(props)) as i32,
                    offset: (self.vertex_in.stride + sum_strides(props.take(k))) as i32,
                }),
            decreases props.len() - i,
        {
            proof {
                lemma_sum_strides_prefix(props, i as int);
                lemma_sum_strides_prefix(props, i + 1);
                assert(props.take(i + 1).drop_last() =~= props.take(i as int));
                assert(props.take(i + 1).last() == props[i as int]);
            }
            let attr = self.vertex_properties[i].get_attribute_in();
            let index = match attr.index() {
                Some(index) => index,
                None => 0,
            };
            result.push(AttributeBinding {
                index,
                size: attr.size(),
                data_type: attr.data_type(),
                stride: total,
                offset,
            });
            offset = offset + attr.get_stride();
            i = i + 1;
        }
        result
    }
}

/// The vertex-stage descriptor of a mesh; each member owns its own
/// layout and code-generation rule.
#[derive(Debug)]
pub enum VertexShader {
    Simple(SimpleVertexShader),
}

impl VertexShader {
    pub fn default_simple() -> (r: Self)
        ensures
            r matches VertexShader::Simple(s) && {
                &&& attr_is(&s.vertex_in, Some(0u32), 4, FLOAT_DATA_TYPE as int, "position"@, "vec4"@, 16)
                &&& s.vertex_properties@.len() == 0
            },
    {
        Self::Simple(SimpleVertexShader::default())
    }

    /// The layout the PLY loader produces: a three-component position
    /// and one three-component "normal" pair at location 1.
    pub fn default_simple_with_normal() -> (r: Self)
        ensures
            r matches VertexShader::Simple(s) && {
                &&& attr_is(&s.vertex_in, Some(0u32), 3, FLOAT_DATA_TYPE as int, "position"@, "vec3"@, 12)
                &&& s.vertex_properties@.len() == 1
                &&& s.vertex_properties@[0].name@ == "normal"@
                &&& attr_is(
                    &s.vertex_properties@[0].attribute_in,
                    Some(1u32),
                    3,
                    FLOAT_DATA_TYPE as int,
                    "normal_in"@,
                    "vec3"@,
                    12,
                )
                &&& attr_is(
                    &s.vertex_properties@[0].attribute_out,
                    None,
                    3,
                    FLOAT_DATA_TYPE as int,
                    "normal"@,
                    "vec3"@,
                    12,
                )
            },
    {
        let mut properties: Vec<ShaderAttributePair> = Vec::new();
        properties.push(ShaderAttributePair::float3(1, "normal".to_owned()));
        proof {
            assert("normal"@ + "_in"@ =~= "normal_in"@) by {
                reveal_strlit("normal");
                reveal_strlit("_in");
                reveal_strlit("normal_in");
            }
        }
        Self::Simple(SimpleVertexShader::from_vertex_map(properties))
    }

    pub fn simple(properties: Vec<ShaderAttributePair>) -> (r: Self)
        ensures
            r matches VertexShader::Simple(s) && s.vertex_properties == properties,
    {
        Self::Simple(SimpleVertexShader::from_vertex_map(properties))
    }

    pub fn get_vertex_out(&self) -> (r: &ShaderAttribute)
        ensures
            self matches VertexShader::Simple(s) && r == &s.vertex_out,
    {
        match self {
            Self::Simple(simple_shader) => &simple_shader.vertex_out,
        }
    }

    /// The pair named "normal", when the layout carries one.
    pub fn get_normal(&self) -> (r: Option<&ShaderAttributePair>)
        ensures
            self matches VertexShader::Simple(s) && ({
                let f = find_pair(s.vertex_properties@, "normal"@);
                if f < s.vertex_properties@.len() {
                    r matches Some(p) && p == &s.vertex_properties@[f]
                } else {
                    r is None
                }
            }),
    {
        match self {
            Self::Simple(simple_shader) => {
                simple_shader.get_vertex_property_with_name("normal".to_owned())
            },
        }
    }

    /// The per-draw bindings of the layout; see
    /// `SimpleVertexShader::get_attribute_bindings`.
    pub fn get_attribute_bindings(&self) -> (r: Vec<AttributeBinding>)
        requires
            self matches VertexShader::Simple(s) && {
                &&& s.vertex_in.index is Some
                &&& forall|j: int| 0 <= j < s.vertex_properties@.len()
                    ==> s.vertex_properties@[j].attribute_in.index is Some
                &&& s.vertex_in.stride >= 0
                &&& forall|j: int| 0 <= j < s.vertex_properties@.len()
                    ==> s.vertex_properties@[j].attribute_in.stride >= 0
                &&& s.vertex_in.stride + sum_strides(s.vertex_properties@) <= i32::MAX
            },
        ensures
            self matches VertexShader::Simple(s) && ({
                let props = s.vertex_properties@;
                let total = s.vertex_in.stride + sum_strides(props);
                &&& r@.len() == 1 + props.len()
                &&& r@[0] == (AttributeBinding {
                    index: attr_index(&s.vertex_in),
                    size: s.vertex_in.size,
                    data_type: s.vertex_in.data_type,
                    stride: total as i32,
                    offset: 0,
                })
                &&& forall|k: int| 0 <= k < props.len() ==> r@[k + 1] == (AttributeBinding {
                    index: attr_index(&props[k].attribute_in),
                    size: props[k].attribute_in.size,
                    data_type: props[k].attribute_in.data_type,
                    stride: total as i32,
                    offset: (s.vertex_in.stride + sum_strides(props.take(k))) as i32,
                })
            }),
    {
        match self {
            Self::Simple(simple_shader) => simple_shader.get_attribute_bindings(),
        }
    }
}

/// How many 32-bit float words one interleaved vertex of the layout
/// takes.
pub open spec fn floats_per_vertex(shader: &VertexShader) -> int {
    match shader {
        VertexShader::Simple(s) => s.vertex_in.size + sum_sizes(s.vertex_properties@),
    }
}

/// A mesh: interleaved vertex data as 32-bit little-endian words (one
/// word per float component), an optional triangle index buffer, and
/// the vertex-shader descriptor that fixes the packing.
#[derive(Debug)]
pub struct Mesh {
    pub vertexes: Vec<u32>,
    pub vertex_indexes: Option<Vec<u32>>,
    pub shader: VertexShader,
    pub name: String,
}

impl Mesh {
    /// The data invariant: vertex words fill whole vertexes of the
    /// descriptor's width, and indexes, when present, whole triangles.
    pub open spec fn wf(&self) -> bool {
        &&& floats_per_vertex(&self.shader) > 0
        &&& self.vertexes@.len() as int % floats_per_vertex(&self.shader) == 0
        &&& self.vertex_indexes matches Some(ix) ==> ix@.len() % 3 == 0
    }

    /// A non-indexed mesh over the default four-component layout.
    pub fn create(vertexes: Vec<u32>, name: &str) -> (r: Self)
        requires
            vertexes@.len() % 4 == 0,
        ensures
            r.wf(),
            r.vertexes == vertexes,
            r.vertex_indexes is None,
            r.name@ == name@,
    {
        Self::create_with_shader(vertexes, VertexShader::default_simple(), name)
    }

    /// A non-indexed mesh over the given layout.
    pub fn create_with_shader(vertexes: Vec<u32>, shader: VertexShader, name: &str) -> (r: Self)
        requires
            floats_per_vertex(&shader) > 0,
            vertexes@.len() as int % floats_per_vertex(&shader) == 0,
        ensures
            r.wf(),
            r.vertexes == vertexes,
            r.vertex_indexes is None,
            r.shader == shader,
            r.name@ == name@,
    {
        Self {
            vertexes,
            vertex_indexes: None,
            shader,
            name: name.to_owned(),
        }
    }

    /// An indexed mesh: the index buffer holds whole triangles.
    pub fn create_indexed(vertexes: Vec<u32>, indexes: Vec<u32>, shader: VertexShader, name: &str) -> (r:
        Self)
        requires
            floats_per_vertex(&shader) > 0,
            vertexes@.len() as int % floats_per_vertex(&shader) == 0,
            indexes@.len() % 3 == 0,
        ensures
            r.wf(),
            r.vertexes == vertexes,
            r.vertex_indexes matches Some(ix) && ix == indexes,
            r.shader == shader,
            r.name@ == name@,
    {
        Self {
            vertexes,
            vertex_indexes: Some(indexes),
            shader,
            name: name.to_owned(),
        }
    }

    /// The non-indexed draw count, as the renderer computes it. It
    /// divides by three rather than by the descriptor's width, so it
    /// overcounts for any layout wider than three floats per vertex.
    pub fn get_vertex_count(&self) -> (r: i32)
        requires
            self.vertexes@.len() / 3 <= i32::MAX,
        ensures
            r == self.vertexes@.len() as int / 3,
    {
        (self.vertexes.len() / 3) as i32
    }

    pub fn get_shader(&self) -> (r: &VertexShader)
        ensures
            r == &self.shader,
    {
        &self.shader
    }

    pub fn get_name(&self) -> (r: &String)
        ensures
            r@ == self.name@,
    {
        &self.name
    }

    /// The vertex words as bytes, little-endian, in buffer order: what
    /// a GPU upload of the vertex buffer sends.
    #[verifier::loop_isolation(false)]
    pub fn get_raw(&self) -> (r: Vec<u8>)
        ensures
            r@.len() == 4 * self.vertexes@.len(),
            forall|i: int, j: int| 0 <= i < self.vertexes@.len() && 0 <= j < 4 ==> #[trigger] r@[4
                * i + j] == (self.vertexes@[i] as int / vstd::arithmetic::power2::pow2(
                8 * j as nat,
            ) as int) % 0x100,
    {
        let mut r: Vec<u8> = Vec::new();
        let mut i: usize = 0;
        while i < self.vertexes.len()
            invariant
                0 <= i <= self.vertexes@.len(),
                r@.len() == 4 * i,
                forall|m: int, j: int| 0 <= m < i && 0 <= j < 4 ==> #[trigger] r@[4 * m + j]
                    == (self.vertexes@[m] as int / vstd::arithmetic::power2::pow2(
                    8 * j as nat,
                ) as int) % 0x100,
            decreases self.vertexes@.len() - i,
        {
            let w = self.vertexes[i];
            let b0 = (w % 0x100) as u8;
            let b1 = ((w / 0x100) % 0x100) as u8;
            let b2 = ((w / 0x1_0000) % 0x100) as u8;
            let b3 = ((w / 0x100_0000) % 0x100) as u8;
            let ghost before = r@;
            r.push(b0);
            r.push(b1);
            r.push(b2);
            r.push(b3);
            proof {
                vstd::arithmetic::power2::lemma2_to64();
                assert(r@ =~= before + seq![b0, b1, b2, b3]);
                assert(vstd::arithmetic::power2::pow2(0) == 1);
                assert(vstd::arithmetic::power2::pow2(8) == 0x100);
                assert(vstd::arithmetic::power2::pow2(16) == 0x1_0000);
                assert(vstd::arithmetic::power2::pow2(24) == 0x100_0000);
                assert(r@[4 * (i as int)] == b0);
                assert(r@[4 * (i as int) + 1] == b1);
                assert(r@[4 * (i as int) + 2] == b2);
                assert(r@[4 * (i as int) + 3] == b3);
                assert(b0 as int == (w as int / 1) % 0x100);
                assert(b1 as int == (w as int / 0x100) % 0x100);
                assert(b2 as int == (w as int / 0x1_0000) % 0x100);
                assert(b3 as int == (w as int / 0x100_0000) % 0x100);
                assert forall|m: int, j: int| 0 <= m < i + 1 && 0 <= j < 4 implies #[trigger] r@[4
                    * m + j] == (self.vertexes@[m] as int / vstd::arithmetic::power2::pow2(
                    8 * j as nat,
                ) as int) % 0x100 by {
                    if m < i {
                        assert(r@[4 * m + j] == before[4 * m + j]);
                    } else {
                        assert(4 * m + j == 4 * (i as int) + j);
                        if j == 0 {
                            assert(r@[4 * (i as int)] == b0);
                        } else if j == 1 {
                            assert(r@[4 * (i as int) + 1] == b1);
                        } else if j == 2 {
                            assert(r@[4 * (i as int) + 2] == b2);
                        } else {
                            assert(r@[4 * (i as int) + 3] == b3);
                        }
                    }
                }
            }
            i = i + 1;
        }
        r
    }
}

} // verus!
