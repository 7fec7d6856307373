use rusty_fractal::vec4::{Int4, Vec4};
use rusty_fractal::vec2::Vec2;
use rusty_fractal::vec3::Vec3;

type Float4 = Vec4<f32>;

#[test]
fn create_float4() {
    let vector = Float4::new(4.2, 0.2, 3.9, -4.0);
    assert_eq!(vector.get_x(), 4.2);
    assert_eq!(vector.get_y(), 0.2);
    assert_eq!(vector.get_z(), 3.9);
    assert_eq!(vector.get_w(), -4.0);

    assert_eq!(vector[0], 4.2);
    assert_eq!(vector[1], 0.2);
    assert_eq!(vector[2], 3.9);
    assert_eq!(vector[3], -4.0);
}

#[test]
fn create_int4() {
    let vector = Vec4::new(10, -11, 12, 13);
    assert_eq!(vector.get_x(), 10);
    assert_eq!(vector.get_y(), -11);
    assert_eq!(vector.get_z(), 12);
    assert_eq!(vector.get_w(), 13);

    assert_eq!(vector[0], 10);
    assert_eq!(vector[1], -11);
    assert_eq!(vector[2], 12);
    assert_eq!(vector[3], 13);
}

#[test]
fn equals() {
    let vector1 = Vec4::new(10.2, 3.2, -1.0, 2.3);
    let vector2 = Vec4::new(10.2, 3.2, -1.0, 2.3);
    let vector3 = Vec4::new(10.2, 3.2, -1.01, 2.3);
    assert_eq!(vector1, vector2);
    assert_ne!(vector1, vector3);
}

#[test]
fn editing() {
    let mut vector = Float4::new(1.0, 2.0, 3.0, 4.0);
    vector[0] = 12.0;
    vector[1] += 5.0;
    vector.set_w(10.1);

    assert_eq!(vector[0], 12.0);
    assert_eq!(vector[1], 7.0);
    assert_eq!(vector[2], 3.0);
    assert_eq!(vector[3], 10.1);
}

#[test]
fn add() {
    let vec1 = Float4::new(4.0, -2.0, -2.2, 1.01);
    let vec2 = Float4::new(-2.0, 10.0, 12.4, 3.2);
    let result = vec1 + vec2;
    assert_eq!(result, Float4::new(2.0, 8.0, 10.2, 4.21));
}

#[test]
fn add_assign() {
    let mut vector = Float4::new(10.0, 12.4, -2.3, -2.4);
    vector += Float4::new(1.01, -2.4, 5.0, -2.6);
    let result = Float4::new(11.01, 10.0, 2.7, -5.0);
    assert_eq!(vector, result);
}

#[test]
fn sub() {
    let vec1 = Int4::new(2, 5, -2, -3);
    let vec2 = Int4::new(5, -2, 4, -5);
    assert_eq!(Int4::new(-3, 7, -6, 2), vec1 - vec2);
}

#[test]
fn sub_assign() {
    let mut vec1 = Int4::new(4, 2, -5, -5);
    vec1 -= Int4::new(4, -10, 2, -3);
    assert_eq!(Int4::new(0, 12, -7, -2), vec1);
}

#[test]
fn multiply() {
    let vec1 = Int4::new(3, 5, 2, 4);
    let result = vec1 * -2;
    assert_eq!(result, Int4::new(-6, -10, -4, -8));
}

#[test]
fn mut_assign() {
    let mut vec1 = Float4::new(2.0, 5.0, 8.0, -1.0);
    vec1 *= 1.1;
    assert_eq!(vec1, Float4::new(2.2, 5.5, 8.8, -1.1));
}

#[test]
fn divide() {
    let vec1 = Float4::new(2.0, -4.0, -2.2, -3.5);
    let result = vec1 / 0.5;
    assert_eq!(result, Float4::new(4.0, -8.0, -4.4, -7.0));
}

#[test]
fn div_assign4() {
    let mut vec1 = Int4::new(8, 4, 2, -10);
    vec1 /= 2;
    assert_eq!(vec1, Int4::new(4, 2, 1, -5));
}

#[test]
fn dot() {
    let vec1 = Int4::new(4, 2, 10, -2);
    let vec2 = Int4::new(8, -2, 0, 1);
    let result = Int4::dot(vec1, vec2);
    assert_eq!(result, 26);
}

#[test]
fn smaller_vectors() {
    let v2 = Vec2::new(1, 2);
    let v3 = v2.get_vec3(3);
    assert_eq!(v3, Vec3::new(1, 2, 3));
    let v4 = v3.get_vec4(4);
    assert_eq!(v4, Vec4::new(1, 2, 3, 4));
    assert_eq!(v4.get_vec2(), v2);
    assert_eq!((Vec3::new(1, 2, 3) + Vec3::new(10, 20, 30)) * 2, Vec3::new(22, 44, 66));
    let mut v = Vec2::new(9, 6);
    v /= 3;
    assert_eq!(v, Vec2::new(3, 2));
}
