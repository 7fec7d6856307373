//! Deterministic GLSL source generation.
//!
//! Each stage starts from a template holding placeholder comments and
//! replaces every occurrence of each marker with text accumulated from
//! the material and vertex descriptors. The whole pipeline is a pure
//! function of those descriptors and the template text: the
//! specifications below pin the generated source character by
//! character.
use vstd::prelude::*;
use vstd::string::StrSliceExecFns;
use crate::material::{Material, MaterialType, SolidColorMaterial};
use crate::mesh::{Mesh, SimpleVertexShader, VertexShader, attr_index, find_pair};
use crate::shader_attribute::{
    vertex_in_text, vertex_out_text, fragment_in_text, ShaderAttributePair,
};

verus! {

/// The placeholder comment that stands for a marker name in a
/// template.
pub open spec fn marker_text(mark: Seq<char>) -> Seq<char> {
    "/* "@ + mark + " */"@
}

/// The text with every occurrence of `pat` replaced by `sub`, scanning
/// left to right without overlap, exactly as `str::replace` does.
pub open spec fn spec_replace(s: Seq<char>, pat: Seq<char>, sub: Seq<char>) -> Seq<char>
    decreases s.len() when pat.len() > 0
{
    if s.len() < pat.len() {
        s
    } else if s.take(pat.len() as int) == pat {
        sub + spec_replace(s.skip(pat.len() as int), pat, sub)
    } else {
        seq![s[0]] + spec_replace(s.skip(1), pat, sub)
    }
}

/// The marker-to-text pairs of a replacement list, as plain sequences.
pub open spec fn reps_view(v: Seq<(String, String)>) -> Seq<(Seq<char>, Seq<char>)> {
    Seq::new(v.len(), |i: int| (v[i].0@, v[i].1@))
}

/// The source after each replacement pair is applied in order: the
/// marker comment built from the pair's first member is replaced by
/// its second.
pub open spec fn spec_replace_all(s: Seq<char>, reps: Seq<(Seq<char>, Seq<char>)>) -> Seq<char>
    decreases reps.len(),
{
    if reps.len() == 0 {
        s
    } else {
        spec_replace_all(spec_replace(s, marker_text(reps[0].0), reps[0].1), reps.skip(1))
    }
}

/// Whether the window of `src` at `i` equals `pat`.
fn matches_at(src: &str, i: usize, pat: &str) -> (b: bool)
    requires
        i + pat@.len() <= src@.len(),
        src@.len() <= usize::MAX,
    ensures
        b == (src@.subrange(i as int, i + pat@.len()) == pat@),
    decreases pat@.len(),
{
    let m = pat.unicode_len();
    let mut j: usize = 0;
    while j < m
        invariant
            0 <= j <= m == pat@.len(),
            i + m <= src@.len(),
            src@.len() <= usize::MAX,
            forall|k: int| 0 <= k < j ==> src@[i + k] == pat@[k],
        decreases m - j,
    {
        if src.get_char(i + j) != pat.get_char(j) {
            proof {
                assert(src@.subrange(i as int, i + pat@.len())[j as int] == src@[i + j]);
            }
            return false;
        }
        j = j + 1;
    }
    proof {
        assert(src@.subrange(i as int, i + pat@.len()) =~= pat@);
    }
    true
}

/// Replaces every occurrence of the marker comment built from
/// `comment_mark` with `content`.
#[verifier::loop_isolation(false)]
pub fn replace_comment(source: &String, comment_mark: String, content: String) -> (result: String)
    ensures
        result@ == spec_replace(source@, marker_text(comment_mark@), content@),
{
    let mut marker = "/* ".to_owned();
    marker.append(comment_mark.as_str());
    marker.append(" */");
    let ghost pat = marker_text(comment_mark@);
    let ghost sub = content@;
    let ghost s = source@;
    proof {
        assert(pat.len() >= "/* "@.len()) by {
            reveal_strlit("/* ");
        }
        assert(pat.len() > 0) by {
            reveal_strlit("/* ");
        }
    }
    let src = source.as_str();
    let n = src.unicode_len();
    let m = marker.as_str().unicode_len();
    let mut result = String::new();
    let mut i: usize = 0;
    proof {
        assert(s.skip(0) =~= s);
    }
    while i < n
        invariant
            0 <= i <= n == s.len(),
            m == pat.len(),
            spec_replace(s, pat, sub) == result@ + spec_replace(s.skip(i as int), pat, sub),
        decreases n - i,
    {
        let ghost rem = s.skip(i as int);
        let is_match = if n - i >= m {
            matches_at(src, i, marker.as_str())
        } else {
            false
        };
        proof {
            if n - i >= m {
                assert(s.subrange(i as int, i + m) =~= rem.take(m as int));
            }
        }
        if is_match {
            result.append(content.as_str());
            i = i + m;
            proof {
                assert(rem.take(m as int) == pat);
                assert(spec_replace(rem, pat, sub) == sub + spec_replace(
                    rem.skip(m as int),
                    pat,
                    sub,
                ));
                assert(rem.skip(m as int) =~= s.skip(i as int));
            }
        } else {
            result.push(src.get_char(i));
            i = i + 1;
            proof {
                if rem.len() >= m {
                    assert(rem.take(m as int) != pat);
                    assert(spec_replace(rem, pat, sub) == seq![rem[0]] + spec_replace(
                        rem.skip(1),
                        pat,
                        sub,
                    ));
                } else {
                    assert(spec_replace(rem, pat, sub) == rem);
                    assert(spec_replace(rem.skip(1), pat, sub) == rem.skip(1));
                    assert(rem =~= seq![rem[0]] + rem.skip(1));
                }
                assert(rem[0] == s[i - 1]);
                assert(rem.skip(1) =~= s.skip(i as int));
            }
        }
    }
    proof {
        assert(s.skip(n as int) =~= Seq::<char>::empty());
        assert(spec_replace(s.skip(n as int), pat, sub) =~= Seq::<char>::empty());
        assert(result@ =~= result@ + Seq::<char>::empty());
    }
    result
}

/// Applies each replacement pair in order, one whole pass over the
/// text per marker name.
#[verifier::loop_isolation(false)]
pub fn replace_comments(source: String, replacements: Vec<(String, String)>) -> (result: String)
    ensures
        result@ == spec_replace_all(source@, reps_view(replacements@)),
{
    let ghost reps = reps_view(replacements@);
    let ghost src0 = source@;
    let mut result = source;
    let mut idx: usize = 0;
    proof {
        assert(reps.skip(0) =~= reps);
    }
    while idx < replacements.len()
        invariant
            0 <= idx <= replacements@.len() == reps.len(),
            spec_replace_all(result@, reps.skip(idx as int)) == spec_replace_all(src0, reps),
        decreases replacements@.len() - idx,
    {
        let mark = replacements[idx].0.clone();
        let content = replacements[idx].1.clone();
        result = replace_comment(&result, mark, content);
        proof {
            assert(reps.skip(idx as int)[0] == reps[idx as int]);
            assert(reps.skip(idx as int).skip(1) =~= reps.skip(idx as int + 1));
        }
        idx = idx + 1;
    }
    proof {
        assert(reps.skip(reps.len() as int) =~= Seq::<(Seq<char>, Seq<char>)>::empty());
    }
    result
}

/// The indexed-input declarations of the pairs, in order.
pub open spec fn props_inputs_text(props: Seq<ShaderAttributePair>) -> Seq<char>
    decreases props.len(),
{
    if props.len() == 0 {
        Seq::empty()
    } else {
        props_inputs_text(props.drop_last()) + vertex_in_text(
            attr_index(&props.last().attribute_in),
            props.last().attribute_in.cpp_type@,
            props.last().attribute_in.name@,
        )
    }
}

/// The varying declarations of the pairs, in order.
pub open spec fn props_outputs_text(props: Seq<ShaderAttributePair>) -> Seq<char>
    decreases props.len(),
{
    if props.len() == 0 {
        Seq::empty()
    } else {
        props_outputs_text(props.drop_last()) + vertex_out_text(
            props.last().attribute_out.cpp_type@,
            props.last().attribute_out.name@,
        )
    }
}

/// The per-pair copy of each input into its varying, in order.
pub open spec fn props_assigns_text(props: Seq<ShaderAttributePair>) -> Seq<char>
    decreases props.len(),
{
    if props.len() == 0 {
        Seq::empty()
    } else {
        props_assigns_text(props.drop_last()) + props.last().attribute_out.name@ + " = "@
            + props.last().attribute_in.name@ + ";\n"@
    }
}

/// Everything the vertex stage's `INPUTS` marker receives: the fixed
/// position input first, then one declaration per pair.
pub open spec fn vertex_inputs_text(sh: SimpleVertexShader) -> Seq<char> {
    vertex_in_text(attr_index(&sh.vertex_in), sh.vertex_in.cpp_type@, sh.vertex_in.name@)
        + props_inputs_text(sh.vertex_properties@)
}

/// Everything the vertex stage's `VERTEX_CODE` marker receives: the
/// camera transform of the position, the per-pair copies, and the
/// clip-space assignment.
pub open spec fn vertex_code_text(sh: SimpleVertexShader) -> Seq<char> {
    "vec4 _transformed_position = "@ + sh.camera_matrix.name@ + " * vec4("@ + sh.vertex_in.name@
        + ", 1.0);\n"@ + props_assigns_text(sh.vertex_properties@) + sh.vertex_out.name@
        + " = _transformed_position;\n"@
}

/// The full vertex source: the template with its three markers
/// replaced, in order, by the inputs, the varyings and the code.
pub open spec fn spec_gen_vertex(sh: SimpleVertexShader, template: Seq<char>) -> Seq<char> {
    spec_replace(
        spec_replace(
            spec_replace(template, marker_text("INPUTS"@), vertex_inputs_text(sh)),
            marker_text("OUTPUTS"@),
            props_outputs_text(sh.vertex_properties@),
        ),
        marker_text("VERTEX_CODE"@),
        vertex_code_text(sh),
    )
}

/// Whether the layout carries a pair named "normal".
pub open spec fn has_normal_pair(sh: SimpleVertexShader) -> bool {
    find_pair(sh.vertex_properties@, "normal"@) < sh.vertex_properties@.len()
}

/// The "normal" pair of the layout.
pub open spec fn normal_pair(sh: SimpleVertexShader) -> ShaderAttributePair {
    sh.vertex_properties@[find_pair(sh.vertex_properties@, "normal"@)]
}

/// The assignment of the material's color literal to its output.
pub open spec fn base_color_assignment(m: SolidColorMaterial) -> Seq<char> {
    m.color_out.name@ + " = vec4("@ + m.color.r@ + ", "@ + m.color.g@ + ", "@ + m.color.b@
        + ", 1);\n"@
}

/// The fixed-direction Lambertian modulation of the output color by
/// the interpolated normal.
pub open spec fn lambert_modulation(m: SolidColorMaterial, normal_name: Seq<char>) -> Seq<char> {
    "vec3 _light_dir = normalize(vec3(-1.0, -1.0, 0.0));\n"@
        + "float _diffuse = dot(_light_dir, "@ + normal_name + ") * 0.4 + 0.5;\n"@
        + m.color_out.name@ + ".xyz *= _diffuse;\n"@
}

/// Everything the fragment stage's `FRAGMENT_CODE` marker receives.
pub open spec fn fragment_code_text(m: SolidColorMaterial, sh: SimpleVertexShader) -> Seq<char> {
    if has_normal_pair(sh) {
        base_color_assignment(m) + lambert_modulation(m, normal_pair(sh).name@)
    } else {
        base_color_assignment(m)
    }
}

/// Everything the fragment stage's `INPUTS` marker receives: the
/// normal varying, when the layout carries one.
pub open spec fn fragment_inputs_text(sh: SimpleVertexShader) -> Seq<char> {
    if has_normal_pair(sh) {
        fragment_in_text(normal_pair(sh).attribute_out.cpp_type@, normal_pair(sh).attribute_out.name@)
    } else {
        Seq::empty()
    }
}

/// The full fragment source of a solid-color material.
pub open spec fn spec_gen_solid_color(
    m: SolidColorMaterial,
    sh: SimpleVertexShader,
    template: Seq<char>,
) -> Seq<char> {
    spec_replace(
        spec_replace(
            spec_replace(template, marker_text("INPUTS"@), fragment_inputs_text(sh)),
            marker_text("OUTPUTS"@),
            vertex_out_text(m.color_out.cpp_type@, m.color_out.name@),
        ),
        marker_text("FRAGMENT_CODE"@),
        fragment_code_text(m, sh),
    )
}

/// The full fragment source of any material, by its kind.
pub open spec fn spec_gen_material(m: Material, sh: VertexShader, template: Seq<char>) -> Seq<
    char,
> {
    match m.material_type {
        MaterialType::SolidColor(sc) => match sh {
            VertexShader::Simple(simple) => spec_gen_solid_color(sc, simple, template),
        },
    }
}

/// The full vertex source of any layout, by its kind.
pub open spec fn spec_gen_vertex_shader(sh: VertexShader, template: Seq<char>) -> Seq<char> {
    match sh {
        VertexShader::Simple(simple) => spec_gen_vertex(simple, template),
    }
}

/// The simple member a layout holds.
pub open spec fn simple_of(sh: VertexShader) -> SimpleVertexShader {
    match sh {
        VertexShader::Simple(simple) => simple,
    }
}

#[verifier::loop_isolation(false)]
fn get_simple_vertex_shader(shader: &SimpleVertexShader, template_vertex_source: &str) -> (r:
    String)
    requires
        shader.vertex_in.index is Some,
        forall|j: int| 0 <= j < shader.vertex_properties@.len()
            ==> shader.vertex_properties@[j].attribute_in.index is Some,
    ensures
        r@ == spec_gen_vertex(*shader, template_vertex_source@),
{
    let ghost props = shader.vertex_properties@;
    let mut inputs = shader.get_vertex_in().as_vertex_shader_in();
    let mut i: usize = 0;
    proof {
        assert(props.take(0) =~= Seq::<ShaderAttributePair>::empty());
        assert(inputs@ =~= vertex_in_text(
            attr_index(&shader.vertex_in),
            shader.vertex_in.cpp_type@,
            shader.vertex_in.name@,
        ) + props_inputs_text(props.take(0)));
    }
    while i < shader.vertex_properties.len()
        invariant
            0 <= i <= props.len(),
            inputs@ == vertex_in_text(
                attr_index(&shader.vertex_in),
                shader.vertex_in.cpp_type@,
                shader.vertex_in.name@,
            ) + props_inputs_text(props.take(i as int)),
        decreases props.len() - i,
    {
        let decl = shader.get_vertex_property(i).get_attribute_in().as_vertex_shader_in();
        inputs.append(decl.as_str());
        i = i + 1;
        proof {
            assert(props.take(i as int).drop_last() =~= props.take(i - 1));
            assert(props.take(i as int).last() == props[i - 1]);
        }
    }
    proof {
        assert(props.take(props.len() as int) =~= props);
    }
    let mut outputs = String::new();
    let mut i: usize = 0;
    proof {
        assert(outputs@ =~= props_outputs_text(props.take(0)));
    }
    while i < shader.vertex_properties.len()
        invariant
            0 <= i <= props.len(),
            outputs@ == props_outputs_text(props.take(i as int)),
        decreases props.len() - i,
    {
        let decl = shader.get_vertex_property(i).get_attribute_out().as_vertex_shader_out();
        outputs.append(decl.as_str());
        i = i + 1;
        proof {
            assert(props.take(i as int).drop_last() =~= props.take(i - 1));
            assert(props.take(i as int).last() == props[i - 1]);
        }
    }
    let mut vertex_code = "vec4 _transformed_position = ".to_owned();
    vertex_code.append(shader.get_camera_matrix().name().as_str());
    vertex_code.append(" * vec4(");
    vertex_code.append(shader.get_vertex_in().name().as_str());
    vertex_code.append(", 1.0);\n");
    let ghost code_head = vertex_code@;
    let mut i: usize = 0;
    proof {
        assert(vertex_code@ =~= code_head + props_assigns_text(props.take(0)));
    }
    while i < shader.vertex_properties.len()
        invariant
            0 <= i <= props.len(),
            vertex_code@ == code_head + props_assigns_text(props.take(i as int)),
        decreases props.len() - i,
    {
        let pair = shader.get_vertex_property(i);
        vertex_code.append(pair.get_attribute_out().name().as_str());
        vertex_code.append(" = ");
        vertex_code.append(pair.get_attribute_in().name().as_str());
        vertex_code.append(";\n");
        i = i + 1;
        proof {
            assert(props.take(i as int).drop_last() =~= props.take(i - 1));
            assert(props.take(i as int).last() == props[i - 1]);
        }
    }
    vertex_code.append(shader.get_vertex_out().name().as_str());
    vertex_code.append(" = _transformed_position;\n");
    let template = template_vertex_source.to_owned();
    let pass1 = replace_comment(&template, "INPUTS".to_owned(), inputs);
    let pass2 = replace_comment(&pass1, "OUTPUTS".to_owned(), outputs);
    replace_comment(&pass2, "VERTEX_CODE".to_owned(), vertex_code)
}

/// The vertex source of the mesh's layout, from the given template
/// text.
pub fn gen_vertex_shader(mesh: &Mesh, template_vertex_source: &str) -> (r: String)
    requires
        mesh.shader matches VertexShader::Simple(s) && {
            &&& s.vertex_in.index is Some
            &&& forall|j: int| 0 <= j < s.vertex_properties@.len()
                ==> s.vertex_properties@[j].attribute_in.index is Some
        },
    ensures
        r@ == spec_gen_vertex_shader(mesh.shader, template_vertex_source@),
{
    match mesh.get_shader() {
        VertexShader::Simple(simple_shader) => get_simple_vertex_shader(
            simple_shader,
            template_vertex_source,
        ),
    }
}

fn get_solid_color_material_shader(
    shader: &SolidColorMaterial,
    mesh: &Mesh,
    template_fragment_source: &str,
) -> (r: String)
    requires
        mesh.shader matches VertexShader::Simple(s),
    ensures
        mesh.shader matches VertexShader::Simple(s) && r@ == spec_gen_solid_color(
            *shader,
            s,
            template_fragment_source@,
        ),
{
    let outputs = shader.get_color_out().as_fragment_shader_out();
    let mut fragment_code = String::new();
    fragment_code.append(shader.get_color_out().name().as_str());
    fragment_code.append(" = vec4(");
    fragment_code.append(shader.get_color().r.as_str());
    fragment_code.append(", ");
    fragment_code.append(shader.get_color().g.as_str());
    fragment_code.append(", ");
    fragment_code.append(shader.get_color().b.as_str());
    fragment_code.append(", 1);\n");
    let mut inputs = String::new();
    match mesh.get_shader().get_normal() {
        Some(normal) => {
            let decl = normal.get_attribute_out().as_fragment_shader_in();
            inputs.append(decl.as_str());
            fragment_code.append("vec3 _light_dir = normalize(vec3(-1.0, -1.0, 0.0));\n");
            fragment_code.append("float _diffuse = dot(_light_dir, ");
            fragment_code.append(normal.get_name().as_str());
            fragment_code.append(") * 0.4 + 0.5;\n");
            fragment_code.append(shader.get_color_out().name().as_str());
            fragment_code.append(".xyz *= _diffuse;\n");
        },
        None => {},
    }
    proof {
        let sh = simple_of(mesh.shader);
        assert(inputs@ =~= fragment_inputs_text(sh));
        assert(fragment_code@ =~= fragment_code_text(*shader, sh));
        assert(outputs@ =~= vertex_out_text(shader.color_out.cpp_type@, shader.color_out.name@));
    }
    let template = template_fragment_source.to_owned();
    let pass1 = replace_comment(&template, "INPUTS".to_owned(), inputs);
    let pass2 = replace_comment(&pass1, "OUTPUTS".to_owned(), outputs);
    replace_comment(&pass2, "FRAGMENT_CODE".to_owned(), fragment_code)
}

/// The fragment source of the material over the mesh's layout, from
/// the given template text.
pub fn gen_material_shader(material: &Material, mesh: &Mesh, template_fragment_source: &str) -> (r:
    String)
    requires
        mesh.shader matches VertexShader::Simple(s),
    ensures
        r@ == spec_gen_material(*material, mesh.shader, template_fragment_source@),
{
    match material.get_material_type() {
        MaterialType::SolidColor(solid_material) => get_solid_color_material_shader(
            solid_material,
            mesh,
            template_fragment_source,
        ),
    }
}

/// Shader generation is a pure function of the descriptors and the
/// template: two fragment sources generated from equal material,
/// layout and template text are character-for-character identical.
pub proof fn lemma_shader_generation_deterministic(
    material: &Material,
    mesh1: &Mesh,
    mesh2: &Mesh,
    t1: &str,
    t2: &str,
    r1: String,
    r2: String,
)
    requires
        mesh1.shader == mesh2.shader,
        t1@ == t2@,
        call_ensures(gen_material_shader, (material, mesh1, t1), r1),
        call_ensures(gen_material_shader, (material, mesh2, t2), r2),
    ensures
        r1@ == r2@,
{
}

/// The same, for the vertex stage: two vertex sources generated from
/// equal layout and template text are identical.
pub proof fn lemma_vertex_generation_deterministic(
    mesh1: &Mesh,
    mesh2: &Mesh,
    t1: &str,
    t2: &str,
    r1: String,
    r2: String,
)
    requires
        mesh1.shader == mesh2.shader,
        t1@ == t2@,
        call_ensures(gen_vertex_shader, (mesh1, t1), r1),
        call_ensures(gen_vertex_shader, (mesh2, t2), r2),
    ensures
        r1@ == r2@,
{
}

/// A solid-color fragment stage writes the color assignment always,
/// and the Lambertian modulation exactly when the layout carries a
/// "normal" pair: with one, the generated code is the assignment
/// followed by the modulation and the inputs are the normal varying's
/// declaration; without one, the code is the assignment alone and the
/// inputs are empty, so nothing Lambertian reaches the source beyond
/// what the template itself spells.
pub proof fn lemma_solid_color_lambert(m: SolidColorMaterial, sh: SimpleVertexShader)
    ensures
        has_normal_pair(sh) ==> fragment_code_text(m, sh) == base_color_assignment(m)
            + lambert_modulation(m, normal_pair(sh).name@),
        has_normal_pair(sh) ==> fragment_inputs_text(sh) == fragment_in_text(
            normal_pair(sh).attribute_out.cpp_type@,
            normal_pair(sh).attribute_out.name@,
        ),
        !has_normal_pair(sh) ==> fragment_code_text(m, sh) == base_color_assignment(m),
        !has_normal_pair(sh) ==> fragment_inputs_text(sh) == Seq::<char>::empty(),
{
}

/// The needle occurs contiguously somewhere in the haystack.
pub open spec fn contains_seq(hay: Seq<char>, needle: Seq<char>) -> bool {
    exists|i: int|
        0 <= i <= hay.len() - needle.len() && #[trigger] hay.subrange(i, i + needle.len() as int)
            == needle
}

/// Replacement plants its substitution: wherever the pattern occurs in
/// the text, the replaced text holds the substitution.
pub proof fn lemma_replace_inserts(s: Seq<char>, pat: Seq<char>, sub: Seq<char>)
    requires
        pat.len() > 0,
        contains_seq(s, pat),
    ensures
        contains_seq(spec_replace(s, pat, sub), sub),
    decreases s.len(),
{
    let r = spec_replace(s, pat, sub);
    let m = pat.len() as int;
    if s.len() < pat.len() {
        let i = choose|i: int|
            0 <= i <= s.len() - pat.len() && #[trigger] s.subrange(i, i + pat.len() as int) == pat;
        assert(false);
    } else if s.take(m) == pat {
        assert(r == sub + spec_replace(s.skip(m), pat, sub));
        let z: int = 0;
        assert(r.subrange(z, z + sub.len() as int) =~= sub);
        assert(contains_seq(r, sub));
    } else {
        let i = choose|i: int|
            0 <= i <= s.len() - pat.len() && #[trigger] s.subrange(i, i + pat.len() as int) == pat;
        if i == 0 {
            assert(s.subrange(0, m) =~= s.take(m));
            assert(false);
        }
        assert(s.skip(1).subrange(i - 1, i - 1 + m) =~= s.subrange(i, i + m));
        assert(contains_seq(s.skip(1), pat));
        lemma_replace_inserts(s.skip(1), pat, sub);
        let inner = spec_replace(s.skip(1), pat, sub);
        let j = choose|j: int|
            0 <= j <= inner.len() - sub.len() && #[trigger] inner.subrange(j, j + sub.len() as int)
                == sub;
        assert(r == seq![s[0]] + inner);
        let k: int = j + 1;
        assert(r.subrange(k, k + sub.len() as int) =~= inner.subrange(j, j + sub.len() as int));
        assert(contains_seq(r, sub));
    }
}

/// The fragment source of a solid-color material contains the base
/// color assignment, and, when the layout carries a "normal" pair, the
/// Lambertian modulation right after it, provided the code marker
/// stands in the text the final substitution pass sees.
pub proof fn lemma_fragment_source_contains(
    m: SolidColorMaterial,
    sh: SimpleVertexShader,
    template: Seq<char>,
)
    requires
        contains_seq(
            spec_replace(
                spec_replace(template, marker_text("INPUTS"@), fragment_inputs_text(sh)),
                marker_text("OUTPUTS"@),
                vertex_out_text(m.color_out.cpp_type@, m.color_out.name@),
            ),
            marker_text("FRAGMENT_CODE"@),
        ),
    ensures
        contains_seq(spec_gen_solid_color(m, sh, template), base_color_assignment(m)),
        has_normal_pair(sh) ==> contains_seq(
            spec_gen_solid_color(m, sh, template),
            lambert_modulation(m, normal_pair(sh).name@),
        ),
{
    let t2 = spec_replace(
        spec_replace(template, marker_text("INPUTS"@), fragment_inputs_text(sh)),
        marker_text("OUTPUTS"@),
        vertex_out_text(m.color_out.cpp_type@, m.color_out.name@),
    );
    let code = fragment_code_text(m, sh);
    let src = spec_gen_solid_color(m, sh, template);
    assert(marker_text("FRAGMENT_CODE"@).len() > 0) by {
        reveal_strlit("/* ");
    }
    lemma_replace_inserts(t2, marker_text("FRAGMENT_CODE"@), code);
    let i = choose|i: int|
        0 <= i <= src.len() - code.len() && #[trigger] src.subrange(i, i + code.len() as int)
            == code;
    let base = base_color_assignment(m);
    assert(src.subrange(i, i + base.len() as int) =~= code.subrange(0, base.len() as int));
    assert(code.subrange(0, base.len() as int) =~= base);
    assert(src.subrange(i, i + base.len() as int) == base);
    assert(contains_seq(src, base));
    if has_normal_pair(sh) {
        let lambert = lambert_modulation(m, normal_pair(sh).name@);
        let at = i + base.len();
        assert(src.subrange(at, at + lambert.len() as int) =~= code.subrange(
            base.len() as int,
            base.len() + lambert.len() as int,
        ));
        assert(code.subrange(base.len() as int, base.len() + lambert.len() as int) =~= lambert);
        assert(src.subrange(at, at + lambert.len() as int) == lambert);
        assert(contains_seq(src, lambert));
    }
}

} // verus!
