use forget_me_not::std140::Std140Bytes;
use forget_me_not::vector::{IVec2, Mat3, Mat4, UVec2, UVec3, Vec3, Vec4};

fn word(b: &[u8], off: usize) -> u32 {
    u32::from_le_bytes([b[off], b[off + 1], b[off + 2], b[off + 3]])
}

#[test]
fn scalar_then_vec3_is_padded_to_sixteen() {
    let mut buf = Std140Bytes::new();
    buf.write_u32(7).write_vec3(Vec3 { x: 1, y: 2, z: 3 });
    let b = buf.as_slice();
    assert_eq!(b.len(), 28);
    assert_eq!(word(b, 0), 7);
    assert_eq!(&b[4..16], &[0u8; 12]);
    assert_eq!(word(b, 16), 1);
    assert_eq!(word(b, 20), 2);
    assert_eq!(word(b, 24), 3);
}

#[test]
fn align_pads_to_largest_alignment() {
    let mut buf = Std140Bytes::new();
    buf.write_u32(1).write_vec3(Vec3 { x: 1, y: 2, z: 3 }).align();
    assert_eq!(buf.as_slice().len(), 32);
    let mut small = Std140Bytes::new();
    small.write_u32(1).write_u32(2).write_u32(3).align();
    assert_eq!(small.as_slice().len(), 12);
}

#[test]
fn vec2_aligns_to_eight() {
    let mut buf = Std140Bytes::new();
    buf.write_u32(5).write_uvec2(UVec2 { x: 9, y: 10 }).align();
    let b = buf.as_slice();
    assert_eq!(b.len(), 16);
    assert_eq!(word(b, 8), 9);
    assert_eq!(word(b, 12), 10);
}

#[test]
fn every_write_lands_on_its_alignment() {
    let mut buf = Std140Bytes::new();
    buf.write_f32(1.5f32.to_bits());
    buf.write_uvec2(UVec2 { x: 1, y: 2 });
    buf.write_u32(3);
    buf.write_uvec3(UVec3 { x: 4, y: 5, z: 6 });
    buf.write_i32(-1);
    buf.write_vec4(Vec4 { x: 7, y: 8, z: 9, w: 10 });
    buf.align();
    let b = buf.as_slice();
    assert_eq!(f32::from_bits(word(b, 0)), 1.5);
    assert_eq!(word(b, 8), 1);
    assert_eq!(word(b, 16), 3);
    assert_eq!(word(b, 32), 4);
    assert_eq!(word(b, 44), u32::MAX);
    assert_eq!(word(b, 48), 7);
    assert_eq!(b.len(), 64);
    assert_eq!(b.len() % 16, 0);
}

#[test]
fn negative_ints_are_twos_complement() {
    let mut buf = Std140Bytes::new();
    buf.write_i32(-2).write_ivec2(IVec2 { x: i32::MIN, y: 3 });
    let b = buf.as_slice();
    assert_eq!(&b[0..4], &(-2i32).to_le_bytes());
    assert_eq!(&b[8..12], &i32::MIN.to_le_bytes());
    assert_eq!(word(b, 12), 3);
}

#[test]
fn matrices_write_sixteen_byte_columns() {
    let c = |k: u32| Vec3 { x: k, y: k + 1, z: k + 2 };
    let mut buf = Std140Bytes::new();
    buf.write_mat3(Mat3 { x_axis: c(1), y_axis: c(4), z_axis: c(7) }).align();
    let b = buf.as_slice();
    assert_eq!(b.len(), 48);
    assert_eq!(word(b, 16), 4);
    assert_eq!(word(b, 32), 7);
    let v = |k: u32| Vec4 { x: k, y: 0, z: 0, w: k };
    let mut m = Std140Bytes::new();
    m.write_mat4(Mat4 { x_axis: v(1), y_axis: v(2), z_axis: v(3), w_axis: v(4) });
    let b = m.as_slice();
    assert_eq!(b.len(), 64);
    assert_eq!(word(b, 48), 4);
    assert_eq!(word(b, 60), 4);
}

#[test]
fn empty_buffer_aligns_to_nothing() {
    let mut buf = Std140Bytes::new();
    buf.align();
    assert!(buf.as_slice().is_empty());
}
