use vstd::prelude::*;
use crate::camera::{
    camera_buffer_layout, camera_layout, camera_matrices_layout, view_layout, CameraUniform,
    ViewUniform,
};
use crate::scene::{
    aabb_layout, material_layout, objects_layout, plane_layout, sphere_layout, Aabb, Material,
    MaterialType, ObjectsUniformView, Plane, Sphere, MAX_OBJECTS,
};
use crate::std140::{
    le_bytes, lemma_put_structs_step, padding, put_structs, words_bytes, zeros, AsStd140Bytes,
    mat4_put, Std140View,
};
use crate::vector::{Mat4, Vec3, Vec4};

verus! {

/// The 32-bit word stored little-endian at `off`.
#[verifier::opaque]
pub open spec fn read_u32(b: Seq<u8>, off: int) -> u32 {
    (b[off] as int + 256 * (b[off + 1] as int) + 65536 * (b[off + 2] as int) + 16777216 * (
    b[off + 3] as int)) as u32
}

/// The `n` 32-bit words stored little-endian from `off` on.
pub open spec fn read_words(b: Seq<u8>, off: int, n: nat) -> Seq<u32> {
    Seq::new(n, |i: int| read_u32(b, off + 4 * i))
}

/// `b` holds `d` starting at `off`.
#[verifier::opaque]
pub open spec fn holds_at(b: Seq<u8>, off: int, d: Seq<u8>) -> bool {
    &&& 0 <= off
    &&& off + d.len() <= b.len()
    &&& b.subrange(off, off + d.len()) == d
}

pub proof fn lemma_read_le_bytes(w: u32)
    ensures
        read_u32(le_bytes(w), 0) == w,
{
    reveal(read_u32);
    let b0 = w % 256;
    let q0 = w / 256;
    let b1 = q0 % 256;
    let q1 = q0 / 256;
    let b2 = q1 % 256;
    let b3 = q1 / 256;
    assert(w == b0 + 256 * q0);
    assert(q0 == b1 + 256 * q1);
    assert(q1 == b2 + 256 * b3);
    assert(w / 65536 == q1) by {
        vstd::arithmetic::div_mod::lemma_div_denominator(w as int, 256, 256);
    }
    assert(w / 16777216 == b3) by {
        vstd::arithmetic::div_mod::lemma_div_denominator(q0 as int, 256, 256);
        vstd::arithmetic::div_mod::lemma_div_denominator(w as int, 256, 65536);
    }
    assert((w / 65536) % 256 == b2);
    assert(b0 + 256 * b1 + 65536 * b2 + 16777216 * b3 == w) by (nonlinear_arith)
        requires
            w == b0 + 256 * q0,
            q0 == b1 + 256 * q1,
            q1 == b2 + 256 * b3,
    ;
}

pub proof fn lemma_words_bytes_len(ws: Seq<u32>)
    ensures
        words_bytes(ws).len() == 4 * ws.len(),
    decreases ws.len(),
{
    if ws.len() > 0 {
        lemma_words_bytes_len(ws.drop_last());
    }
}

pub proof fn lemma_words_bytes(ws: Seq<u32>)
    ensures
        words_bytes(ws).len() == 4 * ws.len(),
        forall|i: int|
            0 <= i < ws.len() ==> #[trigger] holds_at(words_bytes(ws), 4 * i, le_bytes(ws[i])),
    decreases ws.len(),
{
    reveal(holds_at);
    if ws.len() > 0 {
        let init = ws.drop_last();
        lemma_words_bytes(init);
        let b = words_bytes(ws);
        assert(b == words_bytes(init) + le_bytes(ws.last()));
        assert forall|i: int| 0 <= i < ws.len() implies #[trigger] holds_at(
            words_bytes(ws),
            4 * i,
            le_bytes(ws[i]),
        ) by {
            if i < init.len() {
                assert(holds_at(words_bytes(init), 4 * i, le_bytes(init[i])));
                assert(b.subrange(4 * i, 4 * i + 4) =~= words_bytes(init).subrange(4 * i, 4 * i + 4));
            } else {
                assert(b.subrange(4 * i, 4 * i + 4) =~= le_bytes(ws.last()));
            }
        }
    }
}

/// Bytes that hold the words of `ws` read back as `ws`.
pub proof fn lemma_read_words(b: Seq<u8>, off: int, ws: Seq<u32>)
    requires
        holds_at(b, off, words_bytes(ws)),
    ensures
        read_words(b, off, ws.len()) == ws,
{
    reveal(read_u32);
    reveal(holds_at);
    lemma_words_bytes(ws);
    assert forall|i: int| 0 <= i < ws.len() implies read_u32(b, off + 4 * i) == ws[i] by {
        assert(holds_at(words_bytes(ws), 4 * i, le_bytes(ws[i])));
        lemma_holds_at_nested(b, off, words_bytes(ws), 4 * i, le_bytes(ws[i]));
        lemma_read_le_bytes(ws[i]);
        let s = b.subrange(off + 4 * i, off + 4 * i + 4);
        assert(s == le_bytes(ws[i]));
        assert(b[off + 4 * i] == s[0]);
        assert(b[off + 4 * i + 1] == s[1]);
        assert(b[off + 4 * i + 2] == s[2]);
        assert(b[off + 4 * i + 3] == s[3]);
    }
    assert(read_words(b, off, ws.len()) =~= ws);
}

/// What lies inside held bytes is held by the outer bytes too.
pub proof fn lemma_holds_at_nested(b: Seq<u8>, off: int, d: Seq<u8>, off2: int, e: Seq<u8>)
    requires
        holds_at(b, off, d),
        holds_at(d, off2, e),
    ensures
        holds_at(b, off + off2, e),
{
    reveal(holds_at);
    assert(b.subrange(off + off2, off + off2 + e.len()) =~= d.subrange(off2, off2 + e.len()));
}

/// Appending keeps what was held.
pub proof fn lemma_holds_at_extend(b: Seq<u8>, c: Seq<u8>, off: int, d: Seq<u8>)
    requires
        holds_at(b, off, d),
    ensures
        holds_at(b + c, off, d),
{
    reveal(holds_at);
    assert((b + c).subrange(off, off + d.len()) =~= b.subrange(off, off + d.len()));
}

/// Padding `v` to `a` and appending `data` puts `data` at `v.next_offset(a)`.
pub proof fn lemma_with_bytes(v: Std140View, data: Seq<u8>, a: nat)
    ensures
        v.put(data, a).bytes == v.with_bytes(data, a).bytes,
        v.put(data, a).alignment == v.with_bytes(data, a).alignment,
        v.put_struct(Std140View { bytes: data, alignment: a, writes: Seq::empty() }).bytes
            == v.with_bytes(data, a).bytes,
        v.with_bytes(data, a).bytes.len() == v.next_offset(a) + data.len(),
        v.with_bytes(data, a).alignment == if a > v.alignment {
            a
        } else {
            v.alignment
        },
        holds_at(v.with_bytes(data, a).bytes, v.next_offset(a) as int, data),
{
    reveal(Std140View::put);
    reveal(Std140View::put_struct);
    reveal(Std140View::with_bytes);
    reveal(Std140View::aligned);
    reveal(holds_at);
    let b = v.with_bytes(data, a).bytes;
    assert(b.subrange(v.next_offset(a) as int, v.next_offset(a) + data.len() as int) =~= data);
}

/// A nested structure's bytes are placed as its alignment asks.
pub proof fn lemma_put_struct(v: Std140View, inner: Std140View)
    ensures
        v.put_struct(inner).bytes == v.with_bytes(inner.bytes, inner.alignment).bytes,
        v.put_struct(inner).alignment == v.with_bytes(inner.bytes, inner.alignment).alignment,
{
    reveal(Std140View::put_struct);
}

/// Padding and appending keeps what `v` held.
pub proof fn lemma_with_bytes_keeps(v: Std140View, data: Seq<u8>, a: nat, off: int, d: Seq<u8>)
    requires
        holds_at(v.bytes, off, d),
    ensures
        holds_at(v.with_bytes(data, a).bytes, off, d),
{
    reveal(Std140View::with_bytes);
    reveal(Std140View::aligned);
    let p = zeros(padding(v.bytes.len(), a));
    lemma_holds_at_extend(v.bytes, p + data, off, d);
    assert(v.bytes + (p + data) =~= v.with_bytes(data, a).bytes);
}

/// Padding `v` to its own alignment keeps what it held.
pub proof fn lemma_aligned_keeps(v: Std140View, off: int, d: Seq<u8>)
    requires
        holds_at(v.bytes, off, d),
    ensures
        holds_at(v.aligned().bytes, off, d),
{
    reveal(Std140View::with_bytes);
    reveal(Std140View::aligned);
    lemma_holds_at_extend(v.bytes, zeros(padding(v.bytes.len(), v.alignment)), off, d);
}

/// A run of structures that all take `size` bytes on a 16-byte alignment
/// lies back to back from the first multiple of 16.
pub proof fn lemma_put_structs_uniform<T: AsStd140Bytes>(v: Std140View, s: Seq<T>, size: nat)
    requires
        size % 16 == 0,
        v.alignment <= 16,
        forall|i: int|
            0 <= i < s.len() ==> (#[trigger] s[i].std140()).alignment == 16
                && s[i].std140().bytes.len() == size,
    ensures
        s.len() > 0 ==> put_structs(v, s).bytes.len() == v.next_offset(16) + size * s.len(),
        s.len() > 0 ==> put_structs(v, s).alignment == 16,
        forall|i: int|
            0 <= i < s.len() ==> #[trigger] holds_at(
                put_structs(v, s).bytes,
                v.next_offset(16) + size * i,
                s[i].std140().bytes,
            ),
        forall|off: int, d: Seq<u8>|
            holds_at(v.bytes, off, d) ==> #[trigger] holds_at(put_structs(v, s).bytes, off, d),
    decreases s.len(),
{
    if s.len() > 0 {
        let n = (s.len() - 1) as int;
        let init = s.drop_last();
        lemma_put_structs_uniform(v, init, size);
        let w = put_structs(v, init);
        let inner = s[n].std140();
        assert(put_structs(v, s) == w.put_struct(inner));
        lemma_put_struct(w, inner);
        lemma_with_bytes(w, inner.bytes, 16);
        let start = v.next_offset(16);
        if n > 0 {
            assert(start % 16 == 0) by {
                lemma_padding_aligns16(v.bytes.len());
            }
            assert((start + size * n) % 16 == 0) by (nonlinear_arith)
                requires
                    start % 16 == 0,
                    size % 16 == 0,
                    n >= 0,
            {
                assert(size == 16 * (size / 16));
                assert(start == 16 * (start / 16));
                assert(start + size * n == 16 * (start / 16 + (size / 16) * n));
            }
            assert(w.bytes.len() == start + size * n);
            assert(padding(w.bytes.len(), 16) == 0);
        } else {
            assert(init.len() == 0);
            assert(w == v);
            assert(size * n == 0) by (nonlinear_arith)
                requires
                    n == 0,
            ;
        }
        assert(w.next_offset(16) == start + size * n);
        assert(size * s.len() == size * n + size) by (nonlinear_arith)
            requires
                s.len() == n + 1,
        ;
        assert forall|i: int| 0 <= i < s.len() implies #[trigger] holds_at(
            put_structs(v, s).bytes,
            start + size * i,
            s[i].std140().bytes,
        ) by {
            if i < n {
                assert(init[i] == s[i]);
                assert(holds_at(w.bytes, start + size * i, init[i].std140().bytes));
                lemma_with_bytes_keeps(w, inner.bytes, 16, start + size * i, s[i].std140().bytes);
            }
        }
        assert forall|off: int, d: Seq<u8>| holds_at(v.bytes, off, d) implies #[trigger] holds_at(
            put_structs(v, s).bytes,
            off,
            d,
        ) by {
            assert(holds_at(w.bytes, off, d));
            lemma_with_bytes_keeps(w, inner.bytes, 16, off, d);
        }
    }
}

proof fn lemma_padding_aligns16(len: nat)
    ensures
        (len + padding(len, 16)) % 16 == 0,
{
}

/// The three-component vector stored at `off`.
pub open spec fn read_vec3(b: Seq<u8>, off: int) -> Vec3 {
    Vec3 { x: read_u32(b, off), y: read_u32(b, off + 4), z: read_u32(b, off + 8) }
}

/// The four-component vector stored at `off`.
pub open spec fn read_vec4(b: Seq<u8>, off: int) -> Vec4 {
    Vec4 {
        x: read_u32(b, off),
        y: read_u32(b, off + 4),
        z: read_u32(b, off + 8),
        w: read_u32(b, off + 12),
    }
}

/// The 4x4 matrix stored column by column at `off`, one column per 16 bytes.
pub open spec fn read_mat4(b: Seq<u8>, off: int) -> Mat4 {
    Mat4 {
        x_axis: read_vec4(b, off),
        y_axis: read_vec4(b, off + 16),
        z_axis: read_vec4(b, off + 32),
        w_axis: read_vec4(b, off + 48),
    }
}

/// The material kind a stored code stands for.
pub open spec fn material_type_of(code: u32) -> MaterialType {
    if code == 0 {
        MaterialType::Lambertian
    } else if code == 1 {
        MaterialType::Metal
    } else {
        MaterialType::Dielectric
    }
}

/// The material stored at `off`: kind at 0, albedo at 16, emission at 32,
/// roughness at 44, index of refraction at 48.
pub open spec fn read_material(b: Seq<u8>, off: int) -> Material {
    Material {
        ty: material_type_of(read_u32(b, off)),
        albedo: read_vec3(b, off + 16),
        emission: read_vec3(b, off + 32),
        roughness: read_u32(b, off + 44),
        ior: read_u32(b, off + 48),
    }
}

/// The sphere stored at `off`: center at 0, radius at 12, material at 16.
pub open spec fn read_sphere(b: Seq<u8>, off: int) -> Sphere {
    Sphere {
        center: read_vec3(b, off),
        radius: read_u32(b, off + 12),
        material: read_material(b, off + 16),
    }
}

/// The plane stored at `off`: normal at 0, point at 16, material at 32.
pub open spec fn read_plane(b: Seq<u8>, off: int) -> Plane {
    Plane {
        normal: read_vec3(b, off),
        point: read_vec3(b, off + 16),
        material: read_material(b, off + 32),
    }
}

/// The box stored at `off`: min corner at 0, max corner at 16, material at 32.
pub open spec fn read_aabb(b: Seq<u8>, off: int) -> Aabb {
    Aabb {
        min: read_vec3(b, off),
        max: read_vec3(b, off + 16),
        material: read_material(b, off + 32),
    }
}

proof fn lemma_read_u32_at(b: Seq<u8>, off: int, w: u32)
    requires
        holds_at(b, off, le_bytes(w)),
    ensures
        read_u32(b, off) == w,
{
    reveal(read_u32);
    reveal(holds_at);
    lemma_read_le_bytes(w);
    let s = b.subrange(off, off + 4);
    assert(b[off] == s[0]);
    assert(b[off + 1] == s[1]);
    assert(b[off + 2] == s[2]);
    assert(b[off + 3] == s[3]);
}

proof fn lemma_read_vec3_at(b: Seq<u8>, off: int, v: Vec3)
    requires
        holds_at(b, off, words_bytes(v.words())),
    ensures
        read_vec3(b, off) == v,
{
    lemma_read_words(b, off, v.words());
    assert(read_words(b, off, 3)[1] == v.words()[1]);
    assert(read_words(b, off, 3)[2] == v.words()[2]);
}

proof fn lemma_read_vec4_at(b: Seq<u8>, off: int, v: Vec4)
    requires
        holds_at(b, off, words_bytes(v.words())),
    ensures
        read_vec4(b, off) == v,
{
    lemma_read_words(b, off, v.words());
    assert(read_words(b, off, 4)[1] == v.words()[1]);
    assert(read_words(b, off, 4)[2] == v.words()[2]);
    assert(read_words(b, off, 4)[3] == v.words()[3]);
}

proof fn lemma_material_type_round_trip(t: MaterialType)
    ensures
        material_type_of(t.code()) == t,
{
}

pub proof fn lemma_material_size(m: Material)
    ensures
        material_layout(m).alignment == 16,
        material_layout(m).bytes.len() == 64,
{
    lemma_words_bytes_len(m.albedo.words());
    lemma_words_bytes_len(m.emission.words());
    let v0 = Std140View::empty();
    let v1 = v0.put(le_bytes(m.ty.code()), 4);
    let v2 = v1.put(words_bytes(m.albedo.words()), 16);
    let v3 = v2.put(words_bytes(m.emission.words()), 16);
    let v4 = v3.put(le_bytes(m.roughness), 4);
    let v5 = v4.put(le_bytes(m.ior), 4);
    lemma_with_bytes(v0, le_bytes(m.ty.code()), 4);
    lemma_with_bytes(v1, words_bytes(m.albedo.words()), 16);
    lemma_with_bytes(v2, words_bytes(m.emission.words()), 16);
    lemma_with_bytes(v3, le_bytes(m.roughness), 4);
    lemma_with_bytes(v4, le_bytes(m.ior), 4);
    assert(v5.bytes.len() == 52);
    lemma_prefix_aligned(v5);
}

/// Reading a material back from where its serialized bytes lie gives it.
pub proof fn lemma_material_read(m: Material, b: Seq<u8>, off: int)
    requires
        holds_at(b, off, material_layout(m).bytes),
    ensures
        read_material(b, off) == m,
{
    lemma_words_bytes_len(m.albedo.words());
    lemma_words_bytes_len(m.emission.words());
    let t = le_bytes(m.ty.code());
    let al = words_bytes(m.albedo.words());
    let em = words_bytes(m.emission.words());
    let ro = le_bytes(m.roughness);
    let io = le_bytes(m.ior);
    let v0 = Std140View::empty();
    let v1 = v0.put(t, 4);
    let v2 = v1.put(al, 16);
    let v3 = v2.put(em, 16);
    let v4 = v3.put(ro, 4);
    let v5 = v4.put(io, 4);
    lemma_with_bytes(v0, t, 4);
    lemma_with_bytes(v1, al, 16);
    lemma_with_bytes(v2, em, 16);
    lemma_with_bytes(v3, ro, 4);
    lemma_with_bytes(v4, io, 4);
    assert(holds_at(v1.bytes, 0, t));
    lemma_with_bytes_keeps(v1, al, 16, 0, t);
    lemma_with_bytes_keeps(v2, em, 16, 0, t);
    lemma_with_bytes_keeps(v3, ro, 4, 0, t);
    lemma_with_bytes_keeps(v4, io, 4, 0, t);
    lemma_aligned_keeps(v5, 0, t);
    assert(holds_at(v2.bytes, 16, al));
    lemma_with_bytes_keeps(v2, em, 16, 16, al);
    lemma_with_bytes_keeps(v3, ro, 4, 16, al);
    lemma_with_bytes_keeps(v4, io, 4, 16, al);
    lemma_aligned_keeps(v5, 16, al);
    assert(holds_at(v3.bytes, 32, em));
    lemma_with_bytes_keeps(v3, ro, 4, 32, em);
    lemma_with_bytes_keeps(v4, io, 4, 32, em);
    lemma_aligned_keeps(v5, 32, em);
    assert(holds_at(v4.bytes, 44, ro));
    lemma_with_bytes_keeps(v4, io, 4, 44, ro);
    lemma_aligned_keeps(v5, 44, ro);
    assert(holds_at(v5.bytes, 48, io));
    lemma_aligned_keeps(v5, 48, io);
    let mb = material_layout(m).bytes;
    lemma_holds_at_nested(b, off, mb, 0, t);
    lemma_holds_at_nested(b, off, mb, 16, al);
    lemma_holds_at_nested(b, off, mb, 32, em);
    lemma_holds_at_nested(b, off, mb, 44, ro);
    lemma_holds_at_nested(b, off, mb, 48, io);
    lemma_read_u32_at(b, off, m.ty.code());
    lemma_material_type_round_trip(m.ty);
    lemma_read_vec3_at(b, off + 16, m.albedo);
    lemma_read_vec3_at(b, off + 32, m.emission);
    lemma_read_u32_at(b, off + 44, m.roughness);
    lemma_read_u32_at(b, off + 48, m.ior);
}

pub proof fn lemma_sphere_size(s: Sphere)
    ensures
        sphere_layout(s).alignment == 16,
        sphere_layout(s).bytes.len() == 80,
{
    lemma_words_bytes_len(s.center.words());
    lemma_material_size(s.material);
    let ml = material_layout(s.material);
    let v0 = Std140View::empty();
    let v1 = v0.put(words_bytes(s.center.words()), 16);
    let v2 = v1.put(le_bytes(s.radius), 4);
    lemma_with_bytes(v0, words_bytes(s.center.words()), 16);
    lemma_with_bytes(v1, le_bytes(s.radius), 4);
    lemma_with_bytes(v2, ml.bytes, 16);
    lemma_put_struct(v2, ml);
    assert(v2.put_struct(ml).bytes.len() == 80);
    lemma_prefix_aligned(v2.put_struct(ml));
}

/// Reading a sphere back from where its serialized bytes lie gives it.
pub proof fn lemma_sphere_read(s: Sphere, b: Seq<u8>, off: int)
    requires
        holds_at(b, off, sphere_layout(s).bytes),
    ensures
        read_sphere(b, off) == s,
{
    lemma_words_bytes_len(s.center.words());
    lemma_material_size(s.material);
    let c = words_bytes(s.center.words());
    let r = le_bytes(s.radius);
    let ml = material_layout(s.material);
    let v0 = Std140View::empty();
    let v1 = v0.put(c, 16);
    let v2 = v1.put(r, 4);
    let v3 = v2.put_struct(ml);
    lemma_with_bytes(v0, c, 16);
    lemma_with_bytes(v1, r, 4);
    lemma_with_bytes(v2, ml.bytes, 16);
    lemma_put_struct(v2, ml);
    assert(holds_at(v1.bytes, 0, c));
    lemma_with_bytes_keeps(v1, r, 4, 0, c);
    lemma_with_bytes_keeps(v2, ml.bytes, 16, 0, c);
    lemma_aligned_keeps(v3, 0, c);
    assert(holds_at(v2.bytes, 12, r));
    lemma_with_bytes_keeps(v2, ml.bytes, 16, 12, r);
    lemma_aligned_keeps(v3, 12, r);
    assert(holds_at(v3.bytes, 16, ml.bytes));
    lemma_aligned_keeps(v3, 16, ml.bytes);
    let sb = sphere_layout(s).bytes;
    lemma_holds_at_nested(b, off, sb, 0, c);
    lemma_holds_at_nested(b, off, sb, 12, r);
    lemma_holds_at_nested(b, off, sb, 16, ml.bytes);
    lemma_read_vec3_at(b, off, s.center);
    lemma_read_u32_at(b, off + 12, s.radius);
    lemma_material_read(s.material, b, off + 16);
}

/// The serialized form of a record made of two vectors and a material, as
/// planes and boxes are.
spec fn two_vec_layout(u: Vec3, w: Vec3, m: Material) -> Std140View {
    Std140View::empty().put(words_bytes(u.words()), 16).put(words_bytes(w.words()), 16).put_struct(
        material_layout(m),
    ).aligned()
}

proof fn lemma_two_vec_size(u: Vec3, w: Vec3, m: Material)
    ensures
        two_vec_layout(u, w, m).alignment == 16,
        two_vec_layout(u, w, m).bytes.len() == 96,
{
    lemma_words_bytes_len(u.words());
    lemma_words_bytes_len(w.words());
    lemma_material_size(m);
    let ml = material_layout(m);
    let v0 = Std140View::empty();
    let v1 = v0.put(words_bytes(u.words()), 16);
    let v2 = v1.put(words_bytes(w.words()), 16);
    lemma_with_bytes(v0, words_bytes(u.words()), 16);
    lemma_with_bytes(v1, words_bytes(w.words()), 16);
    lemma_with_bytes(v2, ml.bytes, 16);
    lemma_put_struct(v2, ml);
    assert(v2.put_struct(ml).bytes.len() == 96);
    lemma_prefix_aligned(v2.put_struct(ml));
}

proof fn lemma_two_vec_read(u: Vec3, w: Vec3, m: Material, b: Seq<u8>, off: int)
    requires
        holds_at(b, off, two_vec_layout(u, w, m).bytes),
    ensures
        read_vec3(b, off) == u,
        read_vec3(b, off + 16) == w,
        read_material(b, off + 32) == m,
{
    lemma_words_bytes_len(u.words());
    lemma_words_bytes_len(w.words());
    lemma_material_size(m);
    let x = words_bytes(u.words());
    let y = words_bytes(w.words());
    let ml = material_layout(m);
    let v0 = Std140View::empty();
    let v1 = v0.put(x, 16);
    let v2 = v1.put(y, 16);
    let v3 = v2.put_struct(ml);
    lemma_with_bytes(v0, x, 16);
    lemma_with_bytes(v1, y, 16);
    lemma_with_bytes(v2, ml.bytes, 16);
    lemma_put_struct(v2, ml);
    assert(holds_at(v1.bytes, 0, x));
    lemma_with_bytes_keeps(v1, y, 16, 0, x);
    lemma_with_bytes_keeps(v2, ml.bytes, 16, 0, x);
    lemma_aligned_keeps(v3, 0, x);
    assert(holds_at(v2.bytes, 16, y));
    lemma_with_bytes_keeps(v2, ml.bytes, 16, 16, y);
    lemma_aligned_keeps(v3, 16, y);
    assert(holds_at(v3.bytes, 32, ml.bytes));
    lemma_aligned_keeps(v3, 32, ml.bytes);
    let l = two_vec_layout(u, w, m).bytes;
    lemma_holds_at_nested(b, off, l, 0, x);
    lemma_holds_at_nested(b, off, l, 16, y);
    lemma_holds_at_nested(b, off, l, 32, ml.bytes);
    lemma_read_vec3_at(b, off, u);
    lemma_read_vec3_at(b, off + 16, w);
    lemma_material_read(m, b, off + 32);
}

pub proof fn lemma_plane_size(p: Plane)
    ensures
        plane_layout(p).alignment == 16,
        plane_layout(p).bytes.len() == 96,
{
    lemma_two_vec_size(p.normal, p.point, p.material);
}

/// Reading a plane back from where its serialized bytes lie gives it.
pub proof fn lemma_plane_read(p: Plane, b: Seq<u8>, off: int)
    requires
        holds_at(b, off, plane_layout(p).bytes),
    ensures
        read_plane(b, off) == p,
{
    lemma_two_vec_read(p.normal, p.point, p.material, b, off);
}

pub proof fn lemma_aabb_size(a: Aabb)
    ensures
        aabb_layout(a).alignment == 16,
        aabb_layout(a).bytes.len() == 96,
{
    lemma_two_vec_size(a.min, a.max, a.material);
}

/// Reading a box back from where its serialized bytes lie gives it.
pub proof fn lemma_aabb_read(a: Aabb, b: Seq<u8>, off: int)
    requires
        holds_at(b, off, aabb_layout(a).bytes),
    ensures
        read_aabb(b, off) == a,
{
    lemma_two_vec_read(a.min, a.max, a.material, b, off);
}

/// `a` is the start of `b`.
#[verifier::opaque]
pub open spec fn is_prefix(a: Seq<u8>, b: Seq<u8>) -> bool {
    a.len() <= b.len() && b.subrange(0, a.len() as int) == a
}

proof fn lemma_prefix_with_bytes(v: Std140View, data: Seq<u8>, a: nat)
    ensures
        is_prefix(v.bytes, v.with_bytes(data, a).bytes),
{
    reveal(Std140View::with_bytes);
    reveal(Std140View::aligned);
    reveal(is_prefix);
    assert(v.with_bytes(data, a).bytes.subrange(0, v.bytes.len() as int) =~= v.bytes);
}

proof fn lemma_prefix_aligned(v: Std140View)
    ensures
        is_prefix(v.bytes, v.aligned().bytes),
        v.aligned().bytes.len() == v.next_offset(v.alignment),
        v.aligned().alignment == v.alignment,
{
    reveal(Std140View::with_bytes);
    reveal(Std140View::aligned);
    reveal(is_prefix);
    assert(v.aligned().bytes.subrange(0, v.bytes.len() as int) =~= v.bytes);
}

proof fn lemma_prefix_trans(a: Seq<u8>, b: Seq<u8>, c: Seq<u8>)
    requires
        is_prefix(a, b),
        is_prefix(b, c),
    ensures
        is_prefix(a, c),
{
    reveal(is_prefix);
    assert(c.subrange(0, a.len() as int) =~= b.subrange(0, a.len() as int));
}

proof fn lemma_prefix_holds(a: Seq<u8>, b: Seq<u8>, off: int, d: Seq<u8>)
    requires
        holds_at(a, off, d),
        is_prefix(a, b),
    ensures
        holds_at(b, off, d),
{
    reveal(is_prefix);
    reveal(holds_at);
    assert(b.subrange(off, off + d.len()) =~= a.subrange(off, off + d.len()));
}

proof fn lemma_held_at_start(a: Seq<u8>, b: Seq<u8>)
    requires
        holds_at(b, 0, a),
    ensures
        is_prefix(a, b),
{
    reveal(is_prefix);
    reveal(holds_at);
}

#[verifier::rlimit(50)]
proof fn lemma_mat4_size(v: Std140View, m: Mat4)
    requires
        v.bytes.len() % 16 == 0,
        v.alignment <= 16,
    ensures
        mat4_put(v, m).bytes.len() == v.bytes.len() + 64,
        mat4_put(v, m).alignment == 16,
        is_prefix(v.bytes, mat4_put(v, m).bytes),
{
    reveal(mat4_put);
    let c0 = words_bytes(m.x_axis.words());
    let c1 = words_bytes(m.y_axis.words());
    let c2 = words_bytes(m.z_axis.words());
    let c3 = words_bytes(m.w_axis.words());
    lemma_words_bytes_len(m.x_axis.words());
    lemma_words_bytes_len(m.y_axis.words());
    lemma_words_bytes_len(m.z_axis.words());
    lemma_words_bytes_len(m.w_axis.words());
    let v1 = v.put(c0, 16);
    let v2 = v1.put(c1, 16);
    let v3 = v2.put(c2, 16);
    lemma_with_bytes(v, c0, 16);
    lemma_with_bytes(v1, c1, 16);
    lemma_with_bytes(v2, c2, 16);
    lemma_with_bytes(v3, c3, 16);
    lemma_prefix_with_bytes(v, c0, 16);
    lemma_prefix_with_bytes(v1, c1, 16);
    lemma_prefix_with_bytes(v2, c2, 16);
    lemma_prefix_with_bytes(v3, c3, 16);
    lemma_prefix_trans(v.bytes, v1.bytes, v2.bytes);
    lemma_prefix_trans(v.bytes, v2.bytes, v3.bytes);
    lemma_prefix_trans(v.bytes, v3.bytes, v3.put(c3, 16).bytes);
}

proof fn lemma_mat4_read(v: Std140View, m: Mat4, b: Seq<u8>)
    requires
        v.bytes.len() % 16 == 0,
        is_prefix(mat4_put(v, m).bytes, b),
    ensures
        read_mat4(b, v.bytes.len() as int) == m,
{
    reveal(mat4_put);
    let o = v.bytes.len() as int;
    let c0 = words_bytes(m.x_axis.words());
    let c1 = words_bytes(m.y_axis.words());
    let c2 = words_bytes(m.z_axis.words());
    let c3 = words_bytes(m.w_axis.words());
    lemma_words_bytes_len(m.x_axis.words());
    lemma_words_bytes_len(m.y_axis.words());
    lemma_words_bytes_len(m.z_axis.words());
    lemma_words_bytes_len(m.w_axis.words());
    let v1 = v.put(c0, 16);
    let v2 = v1.put(c1, 16);
    let v3 = v2.put(c2, 16);
    let v4 = v3.put(c3, 16);
    lemma_with_bytes(v, c0, 16);
    lemma_with_bytes(v1, c1, 16);
    lemma_with_bytes(v2, c2, 16);
    lemma_with_bytes(v3, c3, 16);
    lemma_prefix_with_bytes(v1, c1, 16);
    lemma_prefix_with_bytes(v2, c2, 16);
    lemma_prefix_with_bytes(v3, c3, 16);
    lemma_prefix_trans(v3.bytes, v4.bytes, b);
    lemma_prefix_trans(v2.bytes, v3.bytes, b);
    lemma_prefix_trans(v1.bytes, v2.bytes, b);
    lemma_prefix_holds(v1.bytes, b, o, c0);
    lemma_prefix_holds(v2.bytes, b, o + 16, c1);
    lemma_prefix_holds(v3.bytes, b, o + 32, c2);
    lemma_prefix_holds(v4.bytes, b, o + 48, c3);
    lemma_read_vec4_at(b, o, m.x_axis);
    lemma_read_vec4_at(b, o + 16, m.y_axis);
    lemma_read_vec4_at(b, o + 32, m.z_axis);
    lemma_read_vec4_at(b, o + 48, m.w_axis);
}

/// Three matrices written one after another from a 16-byte boundary.
proof fn lemma_three_mat4(v: Std140View, a: Mat4, m: Mat4, c: Mat4, b: Seq<u8>)
    requires
        v.bytes.len() % 16 == 0,
        v.alignment <= 16,
        is_prefix(mat4_put(mat4_put(mat4_put(v, a), m), c).bytes, b),
    ensures
        mat4_put(mat4_put(mat4_put(v, a), m), c).bytes.len() == v.bytes.len() + 192,
        mat4_put(mat4_put(mat4_put(v, a), m), c).alignment == 16,
        is_prefix(v.bytes, mat4_put(mat4_put(mat4_put(v, a), m), c).bytes),
        read_mat4(b, v.bytes.len() as int) == a,
        read_mat4(b, v.bytes.len() as int + 64) == m,
        read_mat4(b, v.bytes.len() as int + 128) == c,
{
    let v1 = mat4_put(v, a);
    let v2 = mat4_put(v1, m);
    let v3 = mat4_put(v2, c);
    lemma_mat4_size(v, a);
    lemma_mat4_size(v1, m);
    lemma_mat4_size(v2, c);
    lemma_prefix_trans(v2.bytes, v3.bytes, b);
    lemma_prefix_trans(v1.bytes, v2.bytes, b);
    lemma_mat4_read(v, a, b);
    lemma_mat4_read(v1, m, b);
    lemma_mat4_read(v2, c, b);
    lemma_prefix_trans(v.bytes, v1.bytes, v2.bytes);
    lemma_prefix_trans(v.bytes, v2.bytes, v3.bytes);
}

/// Where the camera uniform's matrices lie: matrix `k` at `64 * k`.
proof fn lemma_camera_matrices_read(c: CameraUniform, b: Seq<u8>)
    requires
        is_prefix(camera_matrices_layout(c).bytes, b),
    ensures
        camera_matrices_layout(c).bytes.len() == 576,
        camera_matrices_layout(c).alignment == 16,
        read_mat4(b, 0) == c.view_projection_matrix,
        read_mat4(b, 64) == c.view_matrix,
        read_mat4(b, 128) == c.projection_matrix,
        read_mat4(b, 192) == c.inverse_view_projection_matrix,
        read_mat4(b, 256) == c.inverse_view_matrix,
        read_mat4(b, 320) == c.inverse_projection_matrix,
        read_mat4(b, 384) == c.previous_view_projection_matrix,
        read_mat4(b, 448) == c.previous_view_matrix,
        read_mat4(b, 512) == c.previous_projection_matrix,
{
    let w0 = Std140View::empty();
    let w3 = mat4_put(
        mat4_put(mat4_put(w0, c.view_projection_matrix), c.view_matrix),
        c.projection_matrix,
    );
    let w6 = mat4_put(
        mat4_put(mat4_put(w3, c.inverse_view_projection_matrix), c.inverse_view_matrix),
        c.inverse_projection_matrix,
    );
    let w9 = camera_matrices_layout(c);
    lemma_three_mat4_size(w0, c.view_projection_matrix, c.view_matrix, c.projection_matrix);
    lemma_three_mat4_size(
        w3,
        c.inverse_view_projection_matrix,
        c.inverse_view_matrix,
        c.inverse_projection_matrix,
    );
    lemma_three_mat4(
        w6,
        c.previous_view_projection_matrix,
        c.previous_view_matrix,
        c.previous_projection_matrix,
        b,
    );
    lemma_prefix_trans(w6.bytes, w9.bytes, b);
    lemma_three_mat4(
        w3,
        c.inverse_view_projection_matrix,
        c.inverse_view_matrix,
        c.inverse_projection_matrix,
        b,
    );
    lemma_prefix_trans(w3.bytes, w6.bytes, b);
    lemma_three_mat4(w0, c.view_projection_matrix, c.view_matrix, c.projection_matrix, b);
}

proof fn lemma_three_mat4_size(v: Std140View, a: Mat4, m: Mat4, c: Mat4)
    requires
        v.bytes.len() % 16 == 0,
        v.alignment <= 16,
    ensures
        mat4_put(mat4_put(mat4_put(v, a), m), c).bytes.len() == v.bytes.len() + 192,
        mat4_put(mat4_put(mat4_put(v, a), m), c).alignment == 16,
        is_prefix(v.bytes, mat4_put(mat4_put(mat4_put(v, a), m), c).bytes),
{
    let v1 = mat4_put(v, a);
    let v2 = mat4_put(v1, m);
    let v3 = mat4_put(v2, c);
    lemma_mat4_size(v, a);
    lemma_mat4_size(v1, m);
    lemma_mat4_size(v2, c);
    lemma_prefix_trans(v.bytes, v1.bytes, v2.bytes);
    lemma_prefix_trans(v.bytes, v2.bytes, v3.bytes);
}

/// Where the camera uniform's fields lie: matrix `k` at `64 * k`, then the
/// position, previous position, view direction and previous view
/// direction at 576, 592, 608 and 624; 640 bytes in all.
pub proof fn lemma_camera_read(c: CameraUniform, b: Seq<u8>)
    requires
        is_prefix(camera_layout(c).bytes, b),
    ensures
        camera_layout(c).bytes.len() == 640,
        camera_layout(c).alignment == 16,
        read_mat4(b, 0) == c.view_projection_matrix,
        read_mat4(b, 64) == c.view_matrix,
        read_mat4(b, 128) == c.projection_matrix,
        read_mat4(b, 192) == c.inverse_view_projection_matrix,
        read_mat4(b, 256) == c.inverse_view_matrix,
        read_mat4(b, 320) == c.inverse_projection_matrix,
        read_mat4(b, 384) == c.previous_view_projection_matrix,
        read_mat4(b, 448) == c.previous_view_matrix,
        read_mat4(b, 512) == c.previous_projection_matrix,
        read_vec3(b, 576) == c.position,
        read_vec3(b, 592) == c.previous_position,
        read_vec3(b, 608) == c.view,
        read_vec3(b, 624) == c.previous_view,
{
    let w9 = camera_matrices_layout(c);
    let d1 = words_bytes(c.position.words());
    let d2 = words_bytes(c.previous_position.words());
    let d3 = words_bytes(c.view.words());
    let d4 = words_bytes(c.previous_view.words());
    lemma_words_bytes_len(c.position.words());
    lemma_words_bytes_len(c.previous_position.words());
    lemma_words_bytes_len(c.view.words());
    lemma_words_bytes_len(c.previous_view.words());
    let p1 = w9.put(d1, 16);
    let p2 = p1.put(d2, 16);
    let p3 = p2.put(d3, 16);
    let p4 = p3.put(d4, 16);
    let fin = p4.aligned();
    assert(fin == camera_layout(c));
    assert(w9.bytes.len() == 576 && w9.alignment == 16) by {
        let w0 = Std140View::empty();
        let w3 = mat4_put(
            mat4_put(mat4_put(w0, c.view_projection_matrix), c.view_matrix),
            c.projection_matrix,
        );
        let w6 = mat4_put(
            mat4_put(mat4_put(w3, c.inverse_view_projection_matrix), c.inverse_view_matrix),
            c.inverse_projection_matrix,
        );
        lemma_three_mat4_size(w0, c.view_projection_matrix, c.view_matrix, c.projection_matrix);
        lemma_three_mat4_size(
            w3,
            c.inverse_view_projection_matrix,
            c.inverse_view_matrix,
            c.inverse_projection_matrix,
        );
        lemma_three_mat4_size(
            w6,
            c.previous_view_projection_matrix,
            c.previous_view_matrix,
            c.previous_projection_matrix,
        );
    }
    lemma_with_bytes(w9, d1, 16);
    lemma_with_bytes(p1, d2, 16);
    lemma_with_bytes(p2, d3, 16);
    lemma_with_bytes(p3, d4, 16);
    assert(p4.bytes.len() == 636);
    lemma_prefix_aligned(p4);
    lemma_prefix_with_bytes(p3, d4, 16);
    lemma_prefix_with_bytes(p2, d3, 16);
    lemma_prefix_with_bytes(p1, d2, 16);
    lemma_prefix_with_bytes(w9, d1, 16);
    lemma_prefix_trans(p4.bytes, fin.bytes, b);
    lemma_prefix_trans(p3.bytes, p4.bytes, b);
    lemma_prefix_trans(p2.bytes, p3.bytes, b);
    lemma_prefix_trans(p1.bytes, p2.bytes, b);
    lemma_prefix_trans(w9.bytes, p1.bytes, b);
    lemma_prefix_holds(p1.bytes, b, 576, d1);
    lemma_prefix_holds(p2.bytes, b, 592, d2);
    lemma_prefix_holds(p3.bytes, b, 608, d3);
    lemma_prefix_holds(p4.bytes, b, 624, d4);
    lemma_read_vec3_at(b, 576, c.position);
    lemma_read_vec3_at(b, 592, c.previous_position);
    lemma_read_vec3_at(b, 608, c.view);
    lemma_read_vec3_at(b, 624, c.previous_view);
    lemma_camera_matrices_read(c, b);
}

/// Where the view uniform's fields lie: width, height and frame count at
/// 0, 4 and 8; 12 bytes on a 4-byte alignment.
pub proof fn lemma_view_read(v: ViewUniform, b: Seq<u8>, off: int)
    requires
        holds_at(b, off, view_layout(v).bytes),
    ensures
        view_layout(v).alignment == 4,
        view_layout(v).bytes.len() == 12,
        read_u32(b, off) == v.width,
        read_u32(b, off + 4) == v.height,
        read_u32(b, off + 8) == v.frame_count,
{
    let d0 = le_bytes(v.width);
    let d1 = le_bytes(v.height);
    let d2 = le_bytes(v.frame_count);
    let v0 = Std140View::empty();
    let v1 = v0.put(d0, 4);
    let v2 = v1.put(d1, 4);
    let v3 = v2.put(d2, 4);
    lemma_with_bytes(v0, d0, 4);
    lemma_with_bytes(v1, d1, 4);
    lemma_with_bytes(v2, d2, 4);
    lemma_prefix_aligned(v3);
    assert(holds_at(v1.bytes, 0, d0));
    lemma_with_bytes_keeps(v1, d1, 4, 0, d0);
    lemma_with_bytes_keeps(v2, d2, 4, 0, d0);
    lemma_aligned_keeps(v3, 0, d0);
    assert(holds_at(v2.bytes, 4, d1));
    lemma_with_bytes_keeps(v2, d2, 4, 4, d1);
    lemma_aligned_keeps(v3, 4, d1);
    assert(holds_at(v3.bytes, 8, d2));
    lemma_aligned_keeps(v3, 8, d2);
    let l = view_layout(v).bytes;
    lemma_holds_at_nested(b, off, l, 0, d0);
    lemma_holds_at_nested(b, off, l, 4, d1);
    lemma_holds_at_nested(b, off, l, 8, d2);
    lemma_read_u32_at(b, off, v.width);
    lemma_read_u32_at(b, off + 4, v.height);
    lemma_read_u32_at(b, off + 8, v.frame_count);
}

/// Reading the packed camera buffer back by its layout gives every field of
/// the camera uniform (from offset 0) and of the view uniform (from 640).
pub proof fn lemma_camera_buffer_round_trip(c: CameraUniform, v: ViewUniform)
    ensures
        ({
            let b = camera_buffer_layout(c, v).bytes;
            &&& b.len() == 656
            &&& read_mat4(b, 0) == c.view_projection_matrix
            &&& read_mat4(b, 64) == c.view_matrix
            &&& read_mat4(b, 128) == c.projection_matrix
            &&& read_mat4(b, 192) == c.inverse_view_projection_matrix
            &&& read_mat4(b, 256) == c.inverse_view_matrix
            &&& read_mat4(b, 320) == c.inverse_projection_matrix
            &&& read_mat4(b, 384) == c.previous_view_projection_matrix
            &&& read_mat4(b, 448) == c.previous_view_matrix
            &&& read_mat4(b, 512) == c.previous_projection_matrix
            &&& read_vec3(b, 576) == c.position
            &&& read_vec3(b, 592) == c.previous_position
            &&& read_vec3(b, 608) == c.view
            &&& read_vec3(b, 624) == c.previous_view
            &&& read_u32(b, 640) == v.width
            &&& read_u32(b, 644) == v.height
            &&& read_u32(b, 648) == v.frame_count
            &&& b.subrange(652, 656) == zeros(4)
        }),
{
    let cl = camera_layout(c);
    let vl = view_layout(v);
    let x0 = Std140View::empty();
    let x1 = x0.put_struct(cl);
    let x2 = x1.put_struct(vl);
    let x3 = x2.aligned();
    let b = x3.bytes;
    assert(b == camera_buffer_layout(c, v).bytes);
    assert(is_prefix(cl.bytes, cl.bytes)) by {
        reveal(is_prefix);
        assert(cl.bytes.subrange(0, cl.bytes.len() as int) =~= cl.bytes);
    }
    lemma_camera_read(c, cl.bytes);
    assert(holds_at(vl.bytes, 0, vl.bytes)) by {
        reveal(holds_at);
        assert(vl.bytes.subrange(0, vl.bytes.len() as int) =~= vl.bytes);
    }
    lemma_view_read(v, vl.bytes, 0);
    lemma_put_struct(x0, cl);
    lemma_with_bytes(x0, cl.bytes, 16);
    lemma_held_at_start(cl.bytes, x1.bytes);
    lemma_put_struct(x1, vl);
    lemma_with_bytes(x1, vl.bytes, 4);
    lemma_prefix_with_bytes(x1, vl.bytes, 4);
    assert(x1.bytes.len() == 640);
    assert(x2.bytes.len() == 652);
    assert(x2.alignment == 16);
    lemma_prefix_aligned(x2);
    assert(b.len() == 656);
    lemma_prefix_trans(x1.bytes, x2.bytes, b);
    lemma_prefix_trans(cl.bytes, x1.bytes, b);
    lemma_camera_read(c, b);
    assert(holds_at(x2.bytes, 640, vl.bytes));
    lemma_prefix_holds(x2.bytes, b, 640, vl.bytes);
    lemma_view_read(v, b, 640);
    assert(b.subrange(652, 656) =~= zeros(4)) by {
        reveal(Std140View::aligned);
        assert(b == x2.bytes + zeros(4));
    }
}

/// Reading the packed objects uniform back by its layout gives the three
/// counts (at 0, 4, 8) and every slot: sphere `i` at `16 + 80 * i`, plane
/// `i` at `2576 + 96 * i`, box `i` at `5648 + 96 * i`.
#[verifier::rlimit(100)]
pub proof fn lemma_objects_round_trip(u: ObjectsUniformView)
    requires
        u.wf(),
    ensures
        ({
            let b = objects_layout(u).bytes;
            &&& b.len() == 8720
            &&& read_u32(b, 0) == u.num_spheres
            &&& read_u32(b, 4) == u.num_planes
            &&& read_u32(b, 8) == u.num_aabbs
            &&& forall|i: int|
                0 <= i < MAX_OBJECTS ==> #[trigger] read_sphere(b, 16 + 80 * i) == u.spheres[i]
            &&& forall|i: int|
                0 <= i < MAX_OBJECTS ==> #[trigger] read_plane(b, 2576 + 96 * i) == u.planes[i]
            &&& forall|i: int|
                0 <= i < MAX_OBJECTS ==> #[trigger] read_aabb(b, 5648 + 96 * i) == u.aabbs[i]
        }),
{
    let d0 = le_bytes(u.num_spheres);
    let d1 = le_bytes(u.num_planes);
    let d2 = le_bytes(u.num_aabbs);
    let v0 = Std140View::empty();
    let v1 = v0.put(d0, 4);
    let v2 = v1.put(d1, 4);
    let h = v2.put(d2, 4);
    lemma_with_bytes(v0, d0, 4);
    lemma_with_bytes(v1, d1, 4);
    lemma_with_bytes(v2, d2, 4);
    assert(holds_at(v1.bytes, 0, d0));
    lemma_with_bytes_keeps(v1, d1, 4, 0, d0);
    lemma_with_bytes_keeps(v2, d2, 4, 0, d0);
    assert(holds_at(v2.bytes, 4, d1));
    lemma_with_bytes_keeps(v2, d2, 4, 4, d1);
    assert(holds_at(h.bytes, 8, d2));
    assert(h.bytes.len() == 12);
    assert forall|i: int| 0 <= i < u.spheres.len() implies (#[trigger] u.spheres[i].std140()).alignment
        == 16 && u.spheres[i].std140().bytes.len() == 80 by {
        lemma_sphere_size(u.spheres[i]);
    }
    assert forall|i: int| 0 <= i < u.planes.len() implies (#[trigger] u.planes[i].std140()).alignment
        == 16 && u.planes[i].std140().bytes.len() == 96 by {
        lemma_plane_size(u.planes[i]);
    }
    assert forall|i: int| 0 <= i < u.aabbs.len() implies (#[trigger] u.aabbs[i].std140()).alignment
        == 16 && u.aabbs[i].std140().bytes.len() == 96 by {
        lemma_aabb_size(u.aabbs[i]);
    }
    let s1 = put_structs(h, u.spheres);
    let s2 = put_structs(s1, u.planes);
    let s3 = put_structs(s2, u.aabbs);
    lemma_put_structs_uniform(h, u.spheres, 80);
    assert(h.next_offset(16) == 16);
    assert(s1.bytes.len() == 2576);
    lemma_put_structs_uniform(s1, u.planes, 96);
    assert(s1.next_offset(16) == 2576);
    assert(s2.bytes.len() == 5648);
    lemma_put_structs_uniform(s2, u.aabbs, 96);
    assert(s2.next_offset(16) == 5648);
    assert(s3.bytes.len() == 8720);
    let fin = s3.aligned();
    assert(fin == objects_layout(u));
    lemma_prefix_aligned(s3);
    let b = fin.bytes;
    assert(holds_at(s3.bytes, 0, d0));
    assert(holds_at(s3.bytes, 4, d1));
    assert(holds_at(s3.bytes, 8, d2));
    lemma_prefix_holds(s3.bytes, b, 0, d0);
    lemma_prefix_holds(s3.bytes, b, 4, d1);
    lemma_prefix_holds(s3.bytes, b, 8, d2);
    lemma_read_u32_at(b, 0, u.num_spheres);
    lemma_read_u32_at(b, 4, u.num_planes);
    lemma_read_u32_at(b, 8, u.num_aabbs);
    assert(s3.alignment == 16);
    assert(b.len() == 8720);
    assert forall|i: int| 0 <= i < MAX_OBJECTS implies #[trigger] read_sphere(b, 16 + 80 * i)
        == u.spheres[i] by {
        let d = u.spheres[i].std140().bytes;
        assert(holds_at(s1.bytes, 16 + 80 * i, d));
        assert(holds_at(s2.bytes, 16 + 80 * i, d));
        assert(holds_at(s3.bytes, 16 + 80 * i, d));
        lemma_prefix_holds(s3.bytes, b, 16 + 80 * i, d);
        lemma_sphere_read(u.spheres[i], b, 16 + 80 * i);
    }
    assert forall|i: int| 0 <= i < MAX_OBJECTS implies #[trigger] read_plane(b, 2576 + 96 * i)
        == u.planes[i] by {
        let d = u.planes[i].std140().bytes;
        assert(holds_at(s2.bytes, 2576 + 96 * i, d));
        assert(holds_at(s3.bytes, 2576 + 96 * i, d));
        lemma_prefix_holds(s3.bytes, b, 2576 + 96 * i, d);
        lemma_plane_read(u.planes[i], b, 2576 + 96 * i);
    }
    assert forall|i: int| 0 <= i < MAX_OBJECTS implies #[trigger] read_aabb(b, 5648 + 96 * i)
        == u.aabbs[i] by {
        let d = u.aabbs[i].std140().bytes;
        assert(holds_at(s3.bytes, 5648 + 96 * i, d));
        lemma_prefix_holds(s3.bytes, b, 5648 + 96 * i, d);
        lemma_aabb_read(u.aabbs[i], b, 5648 + 96 * i);
    }
}

/// Round trip of a camera and scene snapshot: packing the camera buffer and
/// the objects uniform, then reading the bytes back at the documented
/// offsets, gives back every value that was packed.
pub proof fn lemma_snapshot_round_trip(c: CameraUniform, v: ViewUniform, u: ObjectsUniformView)
    requires
        u.wf(),
    ensures
        ({
            let b = camera_buffer_layout(c, v).bytes;
            &&& read_mat4(b, 0) == c.view_projection_matrix
            &&& read_mat4(b, 64) == c.view_matrix
            &&& read_mat4(b, 128) == c.projection_matrix
            &&& read_mat4(b, 192) == c.inverse_view_projection_matrix
            &&& read_mat4(b, 256) == c.inverse_view_matrix
            &&& read_mat4(b, 320) == c.inverse_projection_matrix
            &&& read_mat4(b, 384) == c.previous_view_projection_matrix
            &&& read_mat4(b, 448) == c.previous_view_matrix
            &&& read_mat4(b, 512) == c.previous_projection_matrix
            &&& read_vec3(b, 576) == c.position
            &&& read_vec3(b, 592) == c.previous_position
            &&& read_vec3(b, 608) == c.view
            &&& read_vec3(b, 624) == c.previous_view
            &&& read_u32(b, 640) == v.width
            &&& read_u32(b, 644) == v.height
            &&& read_u32(b, 648) == v.frame_count
            &&& b.len() == 656
            &&& b.subrange(652, 656) == zeros(4)
        }),
        ({
            let b = objects_layout(u).bytes;
            &&& read_u32(b, 0) == u.num_spheres
            &&& read_u32(b, 4) == u.num_planes
            &&& read_u32(b, 8) == u.num_aabbs
            &&& forall|i: int|
                0 <= i < MAX_OBJECTS ==> #[trigger] read_sphere(b, 16 + 80 * i) == u.spheres[i]
            &&& forall|i: int|
                0 <= i < MAX_OBJECTS ==> #[trigger] read_plane(b, 2576 + 96 * i) == u.planes[i]
            &&& forall|i: int|
                0 <= i < MAX_OBJECTS ==> #[trigger] read_aabb(b, 5648 + 96 * i) == u.aabbs[i]
        }),
{
    lemma_camera_buffer_round_trip(c, v);
    lemma_objects_round_trip(u);
}

} // verus!
