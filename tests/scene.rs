use forget_me_not::camera::{pack_camera_buffer, CameraUniform, ViewUniform};
use forget_me_not::scene::{
    Aabb, GeometryType, Material, MaterialType, Objects, ObjectsUniform, Plane, Sphere, MAX_OBJECTS,
};
use forget_me_not::std140::AsStd140Bytes;
use forget_me_not::vector::{Mat4, Vec3, Vec4};

fn word(b: &[u8], off: usize) -> u32 {
    u32::from_le_bytes([b[off], b[off + 1], b[off + 2], b[off + 3]])
}

fn v3(x: f32, y: f32, z: f32) -> Vec3 {
    Vec3 { x: x.to_bits(), y: y.to_bits(), z: z.to_bits() }
}

fn material(k: f32) -> Material {
    Material {
        ty: MaterialType::Metal,
        albedo: v3(k, k + 0.5, k + 0.25),
        emission: v3(2.0, 3.0, 4.0),
        roughness: 0.75f32.to_bits(),
        ior: 1.5f32.to_bits(),
    }
}

#[test]
fn material_layout_offsets() {
    let b = material(0.1).as_std140();
    let b = b.as_slice();
    assert_eq!(b.len(), 64);
    assert_eq!(word(b, 0), 1);
    assert_eq!(f32::from_bits(word(b, 16)), 0.1);
    assert_eq!(f32::from_bits(word(b, 32)), 2.0);
    assert_eq!(f32::from_bits(word(b, 44)), 0.75);
    assert_eq!(f32::from_bits(word(b, 48)), 1.5);
}

#[test]
fn sphere_plane_box_sizes() {
    let s = Sphere::new(v3(1.0, 2.0, 3.0), 0.5f32.to_bits(), material(0.2));
    let b = s.as_std140();
    assert_eq!(b.as_slice().len(), 80);
    assert_eq!(f32::from_bits(word(b.as_slice(), 12)), 0.5);
    assert_eq!(word(b.as_slice(), 16), 1);
    let p = Plane::new(v3(0.0, 1.0, 0.0), v3(0.0, 0.0, 0.0), material(0.3));
    assert_eq!(p.as_std140().as_slice().len(), 96);
    let a = Aabb::new(v3(-1.0, 0.0, -1.0), v3(1.0, 2.0, 1.0), material(0.4));
    let ab = a.as_std140();
    assert_eq!(ab.as_slice().len(), 96);
    assert_eq!(f32::from_bits(word(ab.as_slice(), 20)), 2.0);
}

#[test]
fn pushing_beyond_capacity_evicts_oldest() {
    let mut objects = Objects::new();
    for i in 0..(MAX_OBJECTS as u32 + 1) {
        objects.push_sphere(Sphere::new(v3(i as f32, 0.0, 0.0), 1.0f32.to_bits(), material(0.0)));
    }
    assert_eq!(objects.spheres().len(), MAX_OBJECTS);
    assert_eq!(objects.spheres()[0].center().x, (MAX_OBJECTS as f32).to_bits());
    assert_eq!(objects.spheres()[MAX_OBJECTS - 1].center().x, 1.0f32.to_bits());
    assert!(objects.spheres().iter().all(|s| s.center().x != 0.0f32.to_bits()));
}

#[test]
fn newest_object_takes_index_zero() {
    let mut objects = Objects::new();
    objects.push_plane(Plane::new(v3(0.0, 1.0, 0.0), v3(0.0, 0.0, 0.0), material(0.0)));
    objects.push_plane(Plane::new(v3(1.0, 0.0, 0.0), v3(0.0, 0.0, 0.0), material(0.0)));
    assert_eq!(objects.planes().len(), 2);
    assert_eq!(objects.planes()[0].normal().x, 1.0f32.to_bits());
    objects.clear();
    assert!(objects.planes().is_empty());
}

#[test]
fn objects_uniform_round_trip() {
    let mut objects = Objects::new();
    objects.push_sphere(Sphere::new(v3(1.0, 2.0, 3.0), 0.5f32.to_bits(), material(0.1)));
    objects.push_sphere(Sphere::new(v3(4.0, 5.0, 6.0), 0.25f32.to_bits(), material(0.2)));
    objects.push_plane(Plane::new(v3(0.0, 1.0, 0.0), v3(0.0, -1.0, 0.0), material(0.3)));
    objects.push_aabb(Aabb::new(v3(-1.0, 0.0, -1.0), v3(1.0, 2.0, 1.0), material(0.4)));
    let u = ObjectsUniform::from_objects(&objects);
    let bytes = u.as_std140();
    let b = bytes.as_slice();
    assert_eq!(b.len(), 8720);
    assert_eq!(word(b, 0), 2);
    assert_eq!(word(b, 4), 1);
    assert_eq!(word(b, 8), 1);
    assert_eq!(f32::from_bits(word(b, 16)), 4.0);
    assert_eq!(f32::from_bits(word(b, 16 + 12)), 0.25);
    assert_eq!(f32::from_bits(word(b, 16 + 80)), 1.0);
    assert_eq!(f32::from_bits(word(b, 16 + 80 + 16 + 16)), 0.1);
    assert_eq!(f32::from_bits(word(b, 2576 + 20)), -1.0);
    assert_eq!(f32::from_bits(word(b, 5648 + 16 + 4)), 2.0);
    assert_eq!(word(b, 16 + 80 * 2), 0);
}

#[test]
fn empty_uniform_is_all_zero() {
    let u = ObjectsUniform::new();
    let b = u.as_std140();
    assert_eq!(b.as_slice().len(), 8720);
    assert!(b.as_slice().iter().all(|&x| x == 0));
}

fn mat(k: f32) -> Mat4 {
    let c = |j: f32| Vec4 {
        x: (k + j).to_bits(),
        y: (k + j + 0.1).to_bits(),
        z: (k + j + 0.2).to_bits(),
        w: (k + j + 0.3).to_bits(),
    };
    Mat4 { x_axis: c(0.0), y_axis: c(1.0), z_axis: c(2.0), w_axis: c(3.0) }
}

#[test]
fn camera_buffer_round_trip() {
    let camera = CameraUniform {
        view_projection_matrix: mat(10.0),
        view_matrix: mat(20.0),
        projection_matrix: mat(30.0),
        inverse_view_projection_matrix: mat(40.0),
        inverse_view_matrix: mat(50.0),
        inverse_projection_matrix: mat(60.0),
        previous_view_projection_matrix: mat(70.0),
        previous_view_matrix: mat(80.0),
        previous_projection_matrix: mat(90.0),
        position: v3(1.0, 2.0, 3.0),
        previous_position: v3(4.0, 5.0, 6.0),
        view: v3(0.0, 0.0, -1.0),
        previous_view: v3(0.0, 1.0, 0.0),
    };
    let view = ViewUniform::new(800, 600, 42);
    let buf = pack_camera_buffer(&camera, &view);
    let b = buf.as_slice();
    assert_eq!(b.len(), 656);
    assert_eq!(&b[652..656], &[0u8; 4]);
    assert_eq!(f32::from_bits(word(b, 0)), 10.0);
    assert_eq!(f32::from_bits(word(b, 64 + 16)), 21.0);
    assert_eq!(f32::from_bits(word(b, 512 + 48 + 12)), 90.0f32 + 3.0 + 0.3);
    assert_eq!(f32::from_bits(word(b, 576)), 1.0);
    assert_eq!(f32::from_bits(word(b, 592 + 8)), 6.0);
    assert_eq!(f32::from_bits(word(b, 608 + 8)), -1.0);
    assert_eq!(f32::from_bits(word(b, 624 + 4)), 1.0);
    assert_eq!(word(b, 640), 800);
    assert_eq!(word(b, 644), 600);
    assert_eq!(word(b, 648), 42);
}

#[test]
fn camera_update_shifts_previous_values() {
    let mut camera = CameraUniform::default();
    let mut fresh = CameraUniform::default();
    fresh.view_matrix = mat(1.0);
    fresh.position = v3(1.0, 1.0, 1.0);
    camera.update(&fresh);
    assert_eq!(camera.view_matrix, mat(1.0));
    assert_eq!(camera.previous_view_matrix, Mat4::default());
    let mut next = CameraUniform::default();
    next.position = v3(2.0, 2.0, 2.0);
    camera.update(&next);
    assert_eq!(camera.previous_view_matrix, mat(1.0));
    assert_eq!(camera.previous_position, v3(1.0, 1.0, 1.0));
    assert_eq!(camera.position, v3(2.0, 2.0, 2.0));
}

#[test]
fn view_frame_counter_wraps() {
    let mut view = ViewUniform::new(1, 1, u32::MAX);
    view.update(640, 480);
    assert_eq!(view, ViewUniform::new(640, 480, 0));
    view.update(640, 480);
    assert_eq!(view.frame_count, 1);
}

#[test]
fn delete_last_removes_newest_only() {
    let mut objects = Objects::new();
    objects.push_sphere(Sphere::new(v3(1.0, 0.0, 0.0), 1.0f32.to_bits(), material(0.0)));
    objects.push_sphere(Sphere::new(v3(2.0, 0.0, 0.0), 1.0f32.to_bits(), material(0.0)));
    objects.push_aabb(Aabb::new(v3(0.0, 0.0, 0.0), v3(1.0, 1.0, 1.0), material(0.0)));
    objects.delete_last(GeometryType::Sphere);
    assert_eq!(objects.spheres().len(), 1);
    assert_eq!(objects.spheres()[0].center().x, 1.0f32.to_bits());
    assert_eq!(objects.aabbs().len(), 1);
    objects.delete_last(GeometryType::Plane);
    assert!(objects.planes().is_empty());
}
