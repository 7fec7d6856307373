use rusty_fractal::container::Container;
use rusty_fractal::error::ErrorKind;
use rusty_fractal::object::Object;
use rusty_fractal::shader_attribute::u32_to_string;
use rusty_fractal::texture::Texture;
use rusty_fractal::material::{ColorRgb, Material};
use rusty_fractal::mesh::{Mesh, VertexShader};
use rusty_fractal::parser::parse_mesh;
use rusty_fractal::shader_gen::{gen_material_shader, gen_vertex_shader, replace_comment, replace_comments};
use rusty_fractal::error::Error;
use rusty_fractal::ref_dict::RefDict;
use rusty_fractal::shader_attribute::ShaderAttribute;

fn solid_material(name: &str) -> Material {
    Material::create_solid_color(
        ColorRgb::new(String::from("0.5"), String::from("0.5"), String::from("1")),
        name,
    )
}

fn flat_mesh(name: &str) -> Mesh {
    Mesh::create_with_shader(vec![0u32; 12], VertexShader::default_simple(), name)
}

fn normal_mesh(name: &str) -> Mesh {
    Mesh::create_with_shader(vec![0u32; 12], VertexShader::default_simple_with_normal(), name)
}

const VERTEX_TEMPLATE: &str =
    "#version 330 core\n/* INPUTS */\n/* OUTPUTS */\nvoid main() {\n/* VERTEX_CODE */\n}\n";
const FRAGMENT_TEMPLATE: &str =
    "#version 330 core\n/* INPUTS */\n/* OUTPUTS */\nvoid main() {\n/* FRAGMENT_CODE */\n}\n";

#[test]
fn registry_unique_names() {
    let mut container = Container::new();
    assert!(container.add_material(solid_material("foo")).is_ok());
    let second = container.add_material(solid_material("foo"));
    assert_eq!(second.unwrap_err().kind, ErrorKind::MaterialAlreadyExists);
    assert!(container.add_mesh(flat_mesh("foo")).is_ok());
    assert!(container.add_mesh(flat_mesh("foo")).is_err());
}

#[test]
fn registry_resolution() {
    let mut container = Container::new();
    assert!(container.add_material(solid_material("paint")).is_ok());
    assert!(container.add_mesh(flat_mesh("quad")).is_ok());

    let missing_material = container.create_object("thing", "nope", "quad");
    assert_eq!(missing_material.unwrap_err().kind, ErrorKind::MaterialDoesNotExist);
    let missing_mesh = container.create_object("thing", "paint", "nope");
    assert_eq!(missing_mesh.unwrap_err().kind, ErrorKind::MeshDoesNotExist);
    assert!(container.get_object("thing").is_none());

    assert!(container.create_object("thing", "paint", "quad").is_ok());
    let duplicate = container.create_object("thing", "paint", "quad");
    assert_eq!(duplicate.unwrap_err().kind, ErrorKind::ObjectAlreadyExists);

    let object = container.get_object("thing").unwrap();
    assert_eq!(object.get_material_name(), "paint");
    assert_eq!(object.get_mesh_name(), "quad");
    assert!(object.get_program().is_none());
    assert_eq!(container.get_object_names(), vec![String::from("thing")]);
}

#[test]
fn texture_registry() {
    let mut container = Container::new();
    assert!(container.add_texture_handle("left.png", Texture::new("left.png")).is_ok());
    let duplicate = container.add_texture_handle("left.png", Texture::new("left.png"));
    assert_eq!(duplicate.unwrap_err().kind, ErrorKind::TextureAlreadyExists);
    assert_eq!(container.get_texture("left.png").unwrap().get_name(), "left.png");
    assert!(container.get_texture("right.png").is_none());
}

#[test]
fn error_families() {
    assert!(Error::mesh_does_not_exist().is_resource_error());
    assert!(!Error::mesh_does_not_exist().is_ref_dict_error());
    assert!(Error::value_already_exists().is_ref_dict_error());
    assert!(!Error::parser_end_of_file().is_resource_error());
}

#[test]
fn ref_dict_lifecycle() {
    let mut dict: RefDict<u32> = RefDict::new();
    assert!(dict.add_value("a", 10).is_ok());
    let second = dict.add_value("a", 11);
    assert_eq!(second.unwrap_err().kind, ErrorKind::ValueAlreadyExists);
    assert_eq!(dict.add_reference("missing").unwrap_err().kind, ErrorKind::ValueDoesNotExist);

    let id = dict.add_reference("a").unwrap();
    assert_eq!(*dict.get_value(id), 10);
    assert_eq!(dict.get_value_id("a"), Some(id));
    assert!(dict.contains("a"));
    assert_eq!(dict.get_keys(), vec![String::from("a")]);

    assert!(dict.remove_reference("a").is_ok());
    assert!(!dict.contains("a"));
    assert!(dict.remove_reference("a").is_err());
}

#[test]
fn comment_replacement() {
    let source = String::from("before /* MARK */ after /* MARK */");
    let replaced = replace_comment(&source, String::from("MARK"), String::from("x"));
    assert_eq!(replaced, "before x after x");

    let untouched = replace_comment(&source, String::from("OTHER"), String::from("x"));
    assert_eq!(untouched, source);

    let both = replace_comments(
        String::from("/* A */-/* B */"),
        vec![
            (String::from("A"), String::from("1")),
            (String::from("B"), String::from("2")),
        ],
    );
    assert_eq!(both, "1-2");
}

#[test]
fn attribute_declarations() {
    let attr = ShaderAttribute::float3(7, String::from("pos"));
    assert_eq!(attr.as_vertex_shader_in(), "layout(location = 7) in vec3 pos;\n");
    let wide = ShaderAttribute::float4(12, String::from("color"));
    assert_eq!(wide.as_vertex_shader_in(), "layout(location = 12) in vec4 color;\n");
    let out = ShaderAttribute::output_float4(String::from("color"));
    assert_eq!(out.as_vertex_shader_out(), "out vec4 color;\n");
    assert_eq!(out.as_fragment_shader_in(), "in vec4 color;\n");
    let uni = ShaderAttribute::uniform_mat4(String::from("camera_matrix"));
    assert_eq!(uni.as_uniform(), "uniform mat4 camera_matrix;\n");
    assert_eq!(uni.get_stride(), 64);
}

#[test]
fn attribute_bindings() {
    let shader = VertexShader::default_simple_with_normal();
    let bindings = shader.get_attribute_bindings();
    assert_eq!(bindings.len(), 2);
    assert_eq!(bindings[0].index, 0);
    assert_eq!(bindings[0].size, 3);
    assert_eq!(bindings[0].stride, 24);
    assert_eq!(bindings[0].offset, 0);
    assert_eq!(bindings[1].index, 1);
    assert_eq!(bindings[1].size, 3);
    assert_eq!(bindings[1].stride, 24);
    assert_eq!(bindings[1].offset, 12);
}

#[test]
fn vertex_generation() {
    let mesh = normal_mesh("m");
    let source = gen_vertex_shader(&mesh, VERTEX_TEMPLATE);
    assert!(source.contains("layout(location = 0) in vec3 position;\n"));
    assert!(source.contains("layout(location = 1) in vec3 normal_in;\n"));
    assert!(source.contains("out vec3 normal;\n"));
    assert!(source.contains("vec4 _transformed_position = camera_matrix * vec4(position, 1.0);\n"));
    assert!(source.contains("normal = normal_in;\n"));
    assert!(source.contains("gl_Position = _transformed_position;\n"));
    assert!(!source.contains("/* INPUTS */"));
    assert!(!source.contains("/* VERTEX_CODE */"));
}

#[test]
fn generation_is_deterministic() {
    let material = solid_material("paint");
    let mesh = normal_mesh("m");
    let first = gen_material_shader(&material, &mesh, FRAGMENT_TEMPLATE);
    let second = gen_material_shader(&material, &mesh, FRAGMENT_TEMPLATE);
    assert_eq!(first, second);
    let v1 = gen_vertex_shader(&mesh, VERTEX_TEMPLATE);
    let v2 = gen_vertex_shader(&mesh, VERTEX_TEMPLATE);
    assert_eq!(v1, v2);
}

#[test]
fn lambert_follows_normal_pair() {
    let material = solid_material("paint");

    let with_normal = gen_material_shader(&material, &normal_mesh("m"), FRAGMENT_TEMPLATE);
    assert!(with_normal.contains("color_out = vec4(0.5, 0.5, 1, 1);\n"));
    assert!(with_normal.contains("float _diffuse = dot(_light_dir, normal) * 0.4 + 0.5;\n"));
    assert!(with_normal.contains("in vec3 normal;\n"));

    let without_normal = gen_material_shader(&material, &flat_mesh("m"), FRAGMENT_TEMPLATE);
    assert!(without_normal.contains("color_out = vec4(0.5, 0.5, 1, 1);\n"));
    assert!(!without_normal.contains("_diffuse"));
    assert!(!without_normal.contains("in vec3 normal;\n"));
}

fn synthetic_ply(vertices: &[[f32; 6]], faces: &[[u32; 3]]) -> Vec<u8> {
    let mut data = Vec::new();
    data.extend_from_slice(b"ply\n");
    data.extend_from_slice(b"format binary_little_endian 1.0\n");
    data.extend_from_slice(b"comment made by hand\n");
    data.extend_from_slice(format!("element vertex {}\n", vertices.len()).as_bytes());
    data.extend_from_slice(b"property float x\n");
    data.extend_from_slice(b"property float y\n");
    data.extend_from_slice(b"property float z\n");
    data.extend_from_slice(b"property float nx\n");
    data.extend_from_slice(b"property float ny\n");
    data.extend_from_slice(b"property float nz\n");
    data.extend_from_slice(format!("element face {}\n", faces.len()).as_bytes());
    data.extend_from_slice(b"property list uchar uint vertex_indices\n");
    data.extend_from_slice(b"end_header\n");
    for vertex in vertices {
        for component in vertex {
            data.extend_from_slice(&component.to_le_bytes());
        }
    }
    for face in faces {
        data.push(3u8);
        for index in face {
            data.extend_from_slice(&index.to_le_bytes());
        }
    }
    data
}

#[test]
fn ply_round_trip() {
    let vertices = [
        [0.0f32, 0.0, 0.0, 0.0, 0.0, 1.0],
        [1.0, 0.0, 0.0, 0.0, 0.0, 1.0],
        [0.0, 1.0, 0.0, 0.0, 0.0, 1.0],
    ];
    let faces = [[0u32, 1, 2]];
    let data = synthetic_ply(&vertices, &faces);

    let mesh = parse_mesh(data, "triangle").unwrap();
    assert_eq!(mesh.get_name(), "triangle");
    assert_eq!(mesh.vertexes.len(), 18);
    let expected: Vec<u32> = vertices.iter().flatten().map(|f| f.to_bits()).collect();
    assert_eq!(mesh.vertexes, expected);
    assert_eq!(mesh.vertex_indexes, Some(vec![0, 1, 2]));
}

#[test]
fn ply_rejects_bad_header() {
    let vertices = [[0.0f32, 0.0, 0.0, 0.0, 0.0, 1.0]];
    let faces = [[0u32, 0, 0]];
    let mut data = synthetic_ply(&vertices, &faces);
    data[0] = b'q';
    assert!(parse_mesh(data, "broken").is_err());

    let truncated = synthetic_ply(&vertices, &faces)[..40].to_vec();
    assert!(parse_mesh(truncated, "short").is_err());
}

#[test]
fn ply_rejects_wide_faces() {
    let vertices = [
        [0.0f32, 0.0, 0.0, 0.0, 0.0, 1.0],
        [1.0, 0.0, 0.0, 0.0, 0.0, 1.0],
        [0.0, 1.0, 0.0, 0.0, 0.0, 1.0],
        [1.0, 1.0, 0.0, 0.0, 0.0, 1.0],
    ];
    let faces = [[0u32, 1, 2]];
    let mut data = synthetic_ply(&vertices, &faces);
    let arity_at = data.len() - 13;
    data[arity_at] = 4;
    let err = parse_mesh(data, "quad").unwrap_err();
    match err.kind {
        ErrorKind::PlyParser(message) => {
            assert_eq!(message, "Vertex count 4 for face is not implimented");
        }
        other => panic!("unexpected error kind: {:?}", other),
    }
}

#[test]
fn mesh_views() {
    let mesh = Mesh::create_with_shader(
        vec![0x04030201u32, 0x08070605, 0, 0],
        VertexShader::default_simple(),
        "bytes",
    );
    assert_eq!(
        mesh.get_raw(),
        vec![1, 2, 3, 4, 5, 6, 7, 8, 0, 0, 0, 0, 0, 0, 0, 0]
    );

    let counted = flat_mesh("counted");
    assert_eq!(counted.get_vertex_count(), 4);
}

#[test]
fn error_messages() {
    assert_eq!(Error::mesh_does_not_exist().message(), "Mesh does not exist");
    assert_eq!(
        Error::parser_unknown_word(String::from("ply"), String::from("plx"), 3, 14).message(),
        "Parser error: Unknown word (Expected ply but received plx at (3,14))"
    );
    assert_eq!(
        Error::parser_unknown_line(String::from("end_header"), String::from("end"), 12).message(),
        "Parser error: Unknown line (Expected end_header but received end at 12)"
    );
    assert_eq!(
        Error::parser_invalid_ascii_int(String::from("word"), 0, 9).message(),
        "Parser error: Cannot parse int from word at (0,9) is not an int"
    );
    assert_eq!(Error::parser_end_of_file().message(), "Parser error: Reached end of line.");
    assert_eq!(
        Error::loading_file(String::from("gone"), String::from("mesh.ply")).message(),
        "Could not find file mesh.ply (gone)"
    );
}

#[test]
fn decimal_formatting() {
    assert_eq!(u32_to_string(0), "0");
    assert_eq!(u32_to_string(10), "10");
    assert_eq!(u32_to_string(4294967295), "4294967295");
}

#[test]
fn object_program_attachment() {
    let mut object = Object::create("paint", "quad", "thing");
    assert!(object.get_program().is_none());
    object.attach_program(7);
    assert_eq!(object.get_program(), Some(7));

    let mut container = Container::new();
    container.add_material(solid_material("paint")).unwrap();
    container.add_mesh(flat_mesh("quad")).unwrap();
    container.create_object("thing", "paint", "quad").unwrap();
    assert!(container.get_object_mut("missing").is_none());
    container.get_object_mut("thing").unwrap().attach_program(9);
    assert_eq!(container.get_object("thing").unwrap().get_program(), Some(9));
}
