use vstd::prelude::*;
use crate::std140::{
    le_bytes, lemma_put_structs_step, put_structs, words_bytes, AsStd140Bytes, Std140Bytes,
    Std140View,
};
use crate::vector::Vec3;

verus! {

/// How a surface scatters light.
#[derive(Clone, Copy, Debug, PartialEq, Eq, Structural)]
pub enum MaterialType {
    Lambertian,
    Metal,
    Dielectric,
}

impl MaterialType {
    /// The code the shaders know this kind by.
    pub open spec fn code(self) -> u32 {
        match self {
            MaterialType::Lambertian => 0,
            MaterialType::Metal => 1,
            MaterialType::Dielectric => 2,
        }
    }

    /// Returns `code`.
    pub fn as_u32(&self) -> (r: u32)
        ensures
            r == self.code(),
    {
        match self {
            MaterialType::Lambertian => 0,
            MaterialType::Metal => 1,
            MaterialType::Dielectric => 2,
        }
    }
}

/// The zero vector.
pub open spec fn zero3() -> Vec3 {
    Vec3 { x: 0, y: 0, z: 0 }
}

/// Surface properties of a scene object. Float fields hold IEEE-754 bit
/// patterns.
#[derive(Clone, Copy, Debug, PartialEq, Eq, Structural)]
pub struct Material {
    pub ty: MaterialType,
    pub albedo: Vec3,
    pub emission: Vec3,
    pub roughness: u32,
    pub ior: u32,
}

impl Material {
    /// A Lambertian material with every other field zero.
    pub open spec fn zero() -> Material {
        Material {
            ty: MaterialType::Lambertian,
            albedo: zero3(),
            emission: zero3(),
            roughness: 0,
            ior: 0,
        }
    }
}

impl Default for Material {
    fn default() -> (r: Material)
        ensures
            r == Material::zero(),
    {
        Material {
            ty: MaterialType::Lambertian,
            albedo: Vec3 { x: 0, y: 0, z: 0 },
            emission: Vec3 { x: 0, y: 0, z: 0 },
            roughness: 0,
            ior: 0,
        }
    }
}

/// The serialized form of a material: kind, albedo, emission, roughness,
/// index of refraction, padded to 16 bytes.
pub open spec fn material_layout(m: Material) -> Std140View {
    Std140View::empty().put(le_bytes(m.ty.code()), 4).put(words_bytes(m.albedo.words()), 16).put(
        words_bytes(m.emission.words()),
        16,
    ).put(le_bytes(m.roughness), 4).put(le_bytes(m.ior), 4).aligned()
}

impl AsStd140Bytes for Material {
    open spec fn std140(&self) -> Std140View {
        material_layout(*self)
    }

    fn as_std140(&self) -> (r: Std140Bytes) {
        let mut buf = Std140Bytes::new();
        buf.write_u32(self.ty.as_u32()).write_vec3(self.albedo).write_vec3(self.emission).write_f32(
            self.roughness,
        ).write_f32(self.ior).align();
        buf
    }
}

/// The largest number of objects of one kind that the scene holds and the
/// GPU buffer has room for.
pub const MAX_OBJECTS: usize = 32;

/// A sphere. Float fields hold IEEE-754 bit patterns.
#[derive(Clone, Copy, Debug, PartialEq, Eq, Structural)]
pub struct Sphere {
    pub center: Vec3,
    pub radius: u32,
    pub material: Material,
}

impl Sphere {
    pub fn new(center: Vec3, radius: u32, material: Material) -> (r: Self)
        ensures
            r.center == center,
            r.radius == radius,
            r.material == material,
    {
        Sphere { center, radius, material }
    }

    pub fn center(&self) -> (r: Vec3)
        ensures
            r == self.center,
    {
        self.center
    }

    pub fn radius(&self) -> (r: u32)
        ensures
            r == self.radius,
    {
        self.radius
    }

    pub fn material(&self) -> (r: Material)
        ensures
            r == self.material,
    {
        self.material
    }

    /// The sphere with every field zero.
    pub open spec fn zero() -> Sphere {
        Sphere { center: zero3(), radius: 0, material: Material::zero() }
    }
}

impl Default for Sphere {
    fn default() -> (r: Sphere)
        ensures
            r == Sphere::zero(),
    {
        Sphere { center: Vec3 { x: 0, y: 0, z: 0 }, radius: 0, material: Material::default() }
    }
}

/// The serialized form of a sphere: center, radius, material.
pub open spec fn sphere_layout(s: Sphere) -> Std140View {
    Std140View::empty().put(words_bytes(s.center.words()), 16).put(le_bytes(s.radius), 4).put_struct(
        material_layout(s.material),
    ).aligned()
}

impl AsStd140Bytes for Sphere {
    open spec fn std140(&self) -> Std140View {
        sphere_layout(*self)
    }

    fn as_std140(&self) -> (r: Std140Bytes) {
        let mut buf = Std140Bytes::new();
        buf.write_vec3(self.center).write_f32(self.radius).write_struct(&self.material).align();
        buf
    }
}

/// An infinite plane through `point` with normal `normal`.
#[derive(Clone, Copy, Debug, PartialEq, Eq, Structural)]
pub struct Plane {
    pub normal: Vec3,
    pub point: Vec3,
    pub material: Material,
}

impl Plane {
    pub fn new(normal: Vec3, point: Vec3, material: Material) -> (r: Self)
        ensures
            r.normal == normal,
            r.point == point,
            r.material == material,
    {
        Plane { normal, point, material }
    }

    pub fn normal(&self) -> (r: Vec3)
        ensures
            r == self.normal,
    {
        self.normal
    }

    pub fn point(&self) -> (r: Vec3)
        ensures
            r == self.point,
    {
        self.point
    }

    pub fn material(&self) -> (r: Material)
        ensures
            r == self.material,
    {
        self.material
    }

    /// The plane with every field zero.
    pub open spec fn zero() -> Plane {
        Plane { normal: zero3(), point: zero3(), material: Material::zero() }
    }
}

impl Default for Plane {
    fn default() -> (r: Plane)
        ensures
            r == Plane::zero(),
    {
        Plane {
            normal: Vec3 { x: 0, y: 0, z: 0 },
            point: Vec3 { x: 0, y: 0, z: 0 },
            material: Material::default(),
        }
    }
}

/// The serialized form of a plane: normal, point, material.
pub open spec fn plane_layout(p: Plane) -> Std140View {
    Std140View::empty().put(words_bytes(p.normal.words()), 16).put(
        words_bytes(p.point.words()),
        16,
    ).put_struct(material_layout(p.material)).aligned()
}

impl AsStd140Bytes for Plane {
    open spec fn std140(&self) -> Std140View {
        plane_layout(*self)
    }

    fn as_std140(&self) -> (r: Std140Bytes) {
        let mut buf = Std140Bytes::new();
        buf.write_vec3(self.normal).write_vec3(self.point).write_struct(&self.material).align();
        buf
    }
}

/// An axis-aligned box between the corners `min` and `max`.
#[derive(Clone, Copy, Debug, PartialEq, Eq, Structural)]
pub struct Aabb {
    pub min: Vec3,
    pub max: Vec3,
    pub material: Material,
}

impl Aabb {
    pub fn new(min: Vec3, max: Vec3, material: Material) -> (r: Self)
        ensures
            r.min == min,
            r.max == max,
            r.material == material,
    {
        Aabb { min, max, material }
    }

    pub fn min(&self) -> (r: Vec3)
        ensures
            r == self.min,
    {
        self.min
    }

    pub fn max(&self) -> (r: Vec3)
        ensures
            r == self.max,
    {
        self.max
    }

    pub fn material(&self) -> (r: Material)
        ensures
            r == self.material,
    {
        self.material
    }

    /// The box with every field zero.
    pub open spec fn zero() -> Aabb {
        Aabb { min: zero3(), max: zero3(), material: Material::zero() }
    }
}

impl Default for Aabb {
    fn default() -> (r: Aabb)
        ensures
            r == Aabb::zero(),
    {
        Aabb {
            min: Vec3 { x: 0, y: 0, z: 0 },
            max: Vec3 { x: 0, y: 0, z: 0 },
            material: Material::default(),
        }
    }
}

/// The serialized form of a box: min corner, max corner, material.
pub open spec fn aabb_layout(b: Aabb) -> Std140View {
    Std140View::empty().put(words_bytes(b.min.words()), 16).put(words_bytes(b.max.words()), 16).put_struct(
        material_layout(b.material),
    ).aligned()
}

impl AsStd140Bytes for Aabb {
    open spec fn std140(&self) -> Std140View {
        aabb_layout(*self)
    }

    fn as_std140(&self) -> (r: Std140Bytes) {
        let mut buf = Std140Bytes::new();
        buf.write_vec3(self.min).write_vec3(self.max).write_struct(&self.material).align();
        buf
    }
}

/// `s` after `x` is pushed onto its front; when `s` is already full its
/// oldest (last) entry is dropped to make room.
pub open spec fn push_front_bounded<T>(s: Seq<T>, x: T) -> Seq<T> {
    if s.len() < MAX_OBJECTS {
        seq![x] + s
    } else {
        seq![x] + s.drop_last()
    }
}

fn push_front_evicting<T>(v: &mut Vec<T>, x: T)
    requires
        old(v)@.len() <= MAX_OBJECTS,
    ensures
        final(v)@ == push_front_bounded(old(v)@, x),
        final(v)@.len() <= MAX_OBJECTS,
{
    if v.len() >= MAX_OBJECTS {
        v.pop();
    }
    v.insert(0, x);
    assert(final(v)@ =~= push_front_bounded(old(v)@, x));
}

/// `s` without its newest (first) entry; unchanged when empty.
pub open spec fn drop_newest<T>(s: Seq<T>) -> Seq<T> {
    if s.len() == 0 {
        s
    } else {
        s.drop_first()
    }
}

fn remove_newest<T>(v: &mut Vec<T>)
    ensures
        final(v)@ == drop_newest(old(v)@),
{
    if v.len() > 0 {
        v.remove(0);
        assert(final(v)@ =~= old(v)@.drop_first());
    }
}

/// The kinds of scene object.
#[derive(Clone, Copy, Debug, PartialEq, Eq, Structural)]
pub enum GeometryType {
    Sphere,
    Plane,
    Aabb,
}

/// The scene's objects, newest first, at most `MAX_OBJECTS` of each kind.
pub struct Objects {
    spheres: Vec<Sphere>,
    planes: Vec<Plane>,
    aabbs: Vec<Aabb>,
}

/// The contents of an `Objects`.
pub struct ObjectsView {
    pub spheres: Seq<Sphere>,
    pub planes: Seq<Plane>,
    pub aabbs: Seq<Aabb>,
}

impl ObjectsView {
    pub open spec fn wf(self) -> bool {
        &&& self.spheres.len() <= MAX_OBJECTS
        &&& self.planes.len() <= MAX_OBJECTS
        &&& self.aabbs.len() <= MAX_OBJECTS
    }
}

impl View for Objects {
    type V = ObjectsView;

    closed spec fn view(&self) -> ObjectsView {
        ObjectsView { spheres: self.spheres@, planes: self.planes@, aabbs: self.aabbs@ }
    }
}

impl Objects {
    /// An empty scene.
    pub fn new() -> (r: Self)
        ensures
            r@.spheres == Seq::<Sphere>::empty(),
            r@.planes == Seq::<Plane>::empty(),
            r@.aabbs == Seq::<Aabb>::empty(),
            r@.wf(),
    {
        Objects { spheres: Vec::new(), planes: Vec::new(), aabbs: Vec::new() }
    }

    /// Adds a sphere at index 0; when `MAX_OBJECTS` spheres are already
    /// there, the oldest one is evicted.
    pub fn push_sphere(&mut self, sphere: Sphere)
        requires
            old(self)@.wf(),
        ensures
            final(self)@.spheres == push_front_bounded(old(self)@.spheres, sphere),
            final(self)@.planes == old(self)@.planes,
            final(self)@.aabbs == old(self)@.aabbs,
            final(self)@.wf(),
    {
        push_front_evicting(&mut self.spheres, sphere);
    }

    /// Adds a plane at index 0, evicting the oldest when full.
    pub fn push_plane(&mut self, plane: Plane)
        requires
            old(self)@.wf(),
        ensures
            final(self)@.planes == push_front_bounded(old(self)@.planes, plane),
            final(self)@.spheres == old(self)@.spheres,
            final(self)@.aabbs == old(self)@.aabbs,
            final(self)@.wf(),
    {
        push_front_evicting(&mut self.planes, plane);
    }

    /// Adds a box at index 0, evicting the oldest when full.
    pub fn push_aabb(&mut self, aabb: Aabb)
        requires
            old(self)@.wf(),
        ensures
            final(self)@.aabbs == push_front_bounded(old(self)@.aabbs, aabb),
            final(self)@.spheres == old(self)@.spheres,
            final(self)@.planes == old(self)@.planes,
            final(self)@.wf(),
    {
        push_front_evicting(&mut self.aabbs, aabb);
    }

    /// Removes the newest object of kind `ty`, if there is one.
    pub fn delete_last(&mut self, ty: GeometryType)
        requires
            old(self)@.wf(),
        ensures
            final(self)@.spheres == if ty == GeometryType::Sphere {
                drop_newest(old(self)@.spheres)
            } else {
                old(self)@.spheres
            },
            final(self)@.planes == if ty == GeometryType::Plane {
                drop_newest(old(self)@.planes)
            } else {
                old(self)@.planes
            },
            final(self)@.aabbs == if ty == GeometryType::Aabb {
                drop_newest(old(self)@.aabbs)
            } else {
                old(self)@.aabbs
            },
            final(self)@.wf(),
    {
        match ty {
            GeometryType::Sphere => remove_newest(&mut self.spheres),
            GeometryType::Plane => remove_newest(&mut self.planes),
            GeometryType::Aabb => remove_newest(&mut self.aabbs),
        }
    }

    /// Removes every object.
    pub fn clear(&mut self)
        ensures
            final(self)@.spheres == Seq::<Sphere>::empty(),
            final(self)@.planes == Seq::<Plane>::empty(),
            final(self)@.aabbs == Seq::<Aabb>::empty(),
            final(self)@.wf(),
    {
        self.spheres.clear();
        self.planes.clear();
        self.aabbs.clear();
    }

    pub fn spheres(&self) -> (r: &[Sphere])
        ensures
            r@ == self@.spheres,
    {
        self.spheres.as_slice()
    }

    pub fn planes(&self) -> (r: &[Plane])
        ensures
            r@ == self@.planes,
    {
        self.planes.as_slice()
    }

    pub fn aabbs(&self) -> (r: &[Aabb])
        ensures
            r@ == self@.aabbs,
    {
        self.aabbs.as_slice()
    }
}

/// `s` followed by copies of `fill` up to `MAX_OBJECTS` entries.
pub open spec fn fill_slots<T>(s: Seq<T>, fill: T) -> Seq<T> {
    s + Seq::new((MAX_OBJECTS - s.len()) as nat, |i: int| fill)
}

/// The per-frame GPU copy of the scene: the count of each kind, then a
/// fixed `MAX_OBJECTS` slots per kind, unused slots zero.
pub struct ObjectsUniform {
    num_spheres: u32,
    num_planes: u32,
    num_aabbs: u32,
    spheres: Vec<Sphere>,
    planes: Vec<Plane>,
    aabbs: Vec<Aabb>,
}

/// The contents of an `ObjectsUniform`.
pub struct ObjectsUniformView {
    pub num_spheres: u32,
    pub num_planes: u32,
    pub num_aabbs: u32,
    pub spheres: Seq<Sphere>,
    pub planes: Seq<Plane>,
    pub aabbs: Seq<Aabb>,
}

impl ObjectsUniformView {
    pub open spec fn wf(self) -> bool {
        &&& self.spheres.len() == MAX_OBJECTS
        &&& self.planes.len() == MAX_OBJECTS
        &&& self.aabbs.len() == MAX_OBJECTS
    }
}

impl View for ObjectsUniform {
    type V = ObjectsUniformView;

    closed spec fn view(&self) -> ObjectsUniformView {
        ObjectsUniformView {
            num_spheres: self.num_spheres,
            num_planes: self.num_planes,
            num_aabbs: self.num_aabbs,
            spheres: self.spheres@,
            planes: self.planes@,
            aabbs: self.aabbs@,
        }
    }
}

/// The uniform that holds exactly the objects of `o`.
pub open spec fn uniform_of(o: ObjectsView) -> ObjectsUniformView {
    ObjectsUniformView {
        num_spheres: o.spheres.len() as u32,
        num_planes: o.planes.len() as u32,
        num_aabbs: o.aabbs.len() as u32,
        spheres: fill_slots(o.spheres, Sphere::zero()),
        planes: fill_slots(o.planes, Plane::zero()),
        aabbs: fill_slots(o.aabbs, Aabb::zero()),
    }
}

/// The serialized form of the objects uniform: three counts, then every
/// sphere slot, every plane slot and every box slot, padded to 16 bytes.
pub open spec fn objects_layout(u: ObjectsUniformView) -> Std140View {
    let head = Std140View::empty().put(le_bytes(u.num_spheres), 4).put(le_bytes(u.num_planes), 4).put(
        le_bytes(u.num_aabbs),
        4,
    );
    put_structs(put_structs(put_structs(head, u.spheres), u.planes), u.aabbs).aligned()
}

fn copy_into_slots<T: Copy + Default>(src: &[T], fill: Ghost<T>) -> (r: Vec<T>)
    requires
        src@.len() <= MAX_OBJECTS,
        forall|d: T| call_ensures(T::default, (), d) ==> d == fill@,
    ensures
        r@ == fill_slots(src@, fill@),
{
    let mut out: Vec<T> = Vec::new();
    let mut i: usize = 0;
    while i < MAX_OBJECTS
        invariant
            i <= MAX_OBJECTS,
            src@.len() <= MAX_OBJECTS,
            forall|d: T| call_ensures(T::default, (), d) ==> d == fill@,
            out@.len() == i,
            forall|j: int| 0 <= j < i ==> #[trigger] out@[j] == fill_slots(src@, fill@)[j],
        decreases MAX_OBJECTS - i,
    {
        if i < src.len() {
            out.push(src[i]);
        } else {
            out.push(T::default());
        }
        i = i + 1;
    }
    assert(out@ =~= fill_slots(src@, fill@));
    out
}

impl ObjectsUniform {
    /// An empty scene's uniform.
    pub fn new() -> (r: Self)
        ensures
            r@ == uniform_of(ObjectsView {
                spheres: Seq::empty(),
                planes: Seq::empty(),
                aabbs: Seq::empty(),
            }),
            r@.wf(),
    {
        let objects = Objects::new();
        Self::from_objects(&objects)
    }

    /// The uniform for the current objects, each copied as given.
    pub fn from_objects(objects: &Objects) -> (r: Self)
        requires
            objects@.wf(),
        ensures
            r@ == uniform_of(objects@),
            r@.wf(),
    {
        let spheres = copy_into_slots(objects.spheres(), Ghost(Sphere::zero()));
        let planes = copy_into_slots(objects.planes(), Ghost(Plane::zero()));
        let aabbs = copy_into_slots(objects.aabbs(), Ghost(Aabb::zero()));
        ObjectsUniform {
            num_spheres: objects.spheres.len() as u32,
            num_planes: objects.planes.len() as u32,
            num_aabbs: objects.aabbs.len() as u32,
            spheres,
            planes,
            aabbs,
        }
    }

    /// Replaces the uniform's contents with the current objects.
    pub fn update(&mut self, objects: &Objects)
        requires
            objects@.wf(),
        ensures
            final(self)@ == uniform_of(objects@),
            final(self)@.wf(),
    {
        *self = Self::from_objects(objects);
    }
}

impl AsStd140Bytes for ObjectsUniform {
    open spec fn std140(&self) -> Std140View {
        objects_layout(self@)
    }

    fn as_std140(&self) -> (r: Std140Bytes) {
        let mut buf = Std140Bytes::new();
        buf.write_u32(self.num_spheres).write_u32(self.num_planes).write_u32(self.num_aabbs);
        let ghost head = buf@;
        let mut i: usize = 0;
        while i < self.spheres.len()
            invariant
                i <= self.spheres@.len(),
                buf@ == put_structs(head, self.spheres@.subrange(0, i as int)),
                buf@.wf(),
            decreases self.spheres@.len() - i,
        {
            buf.write_struct(&self.spheres[i]);
            proof {
                lemma_put_structs_step(head, self.spheres@, i as int);
            }
            i = i + 1;
        }
        assert(self.spheres@.subrange(0, self.spheres@.len() as int) =~= self.spheres@);
        let ghost after_spheres = buf@;
        let mut i: usize = 0;
        while i < self.planes.len()
            invariant
                i <= self.planes@.len(),
                buf@ == put_structs(after_spheres, self.planes@.subrange(0, i as int)),
                buf@.wf(),
            decreases self.planes@.len() - i,
        {
            buf.write_struct(&self.planes[i]);
            proof {
                lemma_put_structs_step(after_spheres, self.planes@, i as int);
            }
            i = i + 1;
        }
        assert(self.planes@.subrange(0, self.planes@.len() as int) =~= self.planes@);
        let ghost after_planes = buf@;
        let mut i: usize = 0;
        while i < self.aabbs.len()
            invariant
                i <= self.aabbs@.len(),
                buf@ == put_structs(after_planes, self.aabbs@.subrange(0, i as int)),
                buf@.wf(),
            decreases self.aabbs@.len() - i,
        {
            buf.write_struct(&self.aabbs[i]);
            proof {
                lemma_put_structs_step(after_planes, self.aabbs@, i as int);
            }
            i = i + 1;
        }
        assert(self.aabbs@.subrange(0, self.aabbs@.len() as int) =~= self.aabbs@);
        buf.align();
        buf
    }
}

} // verus!
