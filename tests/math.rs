use voxel_world::{Matrix4, Vector2, Vector3, Vector4};

#[test]
fn vector_constructors() {
    let v = Vector2::new(1, -2);
    assert_eq!((v.x, v.y), (1, -2));
    let w = Vector3::new(4, 5, 6);
    assert_eq!((w.x, w.y, w.z), (4, 5, 6));
    assert_eq!(Vector3::up(), Vector3::new(0, 1, 0));
}

#[test]
fn cross_and_dot() {
    let x = Vector3::new(1, 0, 0);
    let y = Vector3::new(0, 1, 0);
    assert_eq!(Vector3::cross(x, y), Vector3::new(0, 0, 1));
    assert_eq!(Vector3::cross(Vector3::new(2, 3, 4), Vector3::new(5, 6, 7)), Vector3::new(-3, 6, -3));
    assert_eq!(Vector3::new(2, 3, 4).dot(Vector3::new(5, 6, 7)), 56);
    assert_eq!(x.dot(y), 0);
}

#[test]
fn homogeneous_points_and_directions() {
    assert_eq!(Vector4::position(1, 2, 3), Vector4 { x: 1, y: 2, z: 3, w: 1 });
    assert_eq!(Vector4::direction(1, 2, 3), Vector4 { x: 1, y: 2, z: 3, w: 0 });
}

#[test]
fn translation_moves_points_not_directions() {
    let t = Matrix4::translate(10, -20, 30);
    assert_eq!(t.mul_vec(Vector4::position(1, 2, 3)), Vector4::position(11, -18, 33));
    assert_eq!(t.mul_vec(Vector4::direction(1, 2, 3)), Vector4::direction(1, 2, 3));
}

#[test]
fn matrix_times_vector() {
    let m = Matrix4 { data: [[1, 2, 3, 4], [5, 6, 7, 8], [9, 10, 11, 12], [13, 14, 15, 16]] };
    let r = m.mul_vec(Vector4 { x: 1, y: 0, z: -1, w: 2 });
    assert_eq!(r, Vector4 { x: 6, y: 14, z: 22, w: 30 });
}

#[test]
fn matrix_product() {
    let a = Matrix4 { data: [[1, 2, 0, 0], [0, 1, 0, 0], [0, 0, 1, 0], [0, 0, 0, 1]] };
    let b = Matrix4::translate(3, 4, 5);
    let p = a.mul(b);
    assert_eq!(p.data, [[1, 2, 0, 11], [0, 1, 0, 4], [0, 0, 1, 5], [0, 0, 0, 1]]);
    let i = Matrix4::translate(0, 0, 0);
    assert_eq!(b.mul(i), b);
}

#[test]
fn translations_compose() {
    let t = Matrix4::translate(1, 2, 3).mul(Matrix4::translate(-4, 5, 0));
    assert_eq!(t, Matrix4::translate(-3, 7, 3));
}
