use vstd::prelude::*;
use crate::std140::{le_bytes, mat4_put, words_bytes, AsStd140Bytes, Std140Bytes, Std140View};
use crate::vector::{Mat4, Vec3};

verus! {

/// The camera data the shaders read each frame, including the previous
/// frame's copies for temporal effects. Float fields hold IEEE-754 bit
/// patterns; the matrices are computed by the caller.
#[derive(Clone, Copy, Debug, PartialEq, Eq, Structural, Default)]
pub struct CameraUniform {
    pub view_projection_matrix: Mat4,
    pub view_matrix: Mat4,
    pub projection_matrix: Mat4,
    pub inverse_view_projection_matrix: Mat4,
    pub inverse_view_matrix: Mat4,
    pub inverse_projection_matrix: Mat4,
    pub previous_view_projection_matrix: Mat4,
    pub previous_view_matrix: Mat4,
    pub previous_projection_matrix: Mat4,
    pub position: Vec3,
    pub previous_position: Vec3,
    pub view: Vec3,
    pub previous_view: Vec3,
}

/// `current` with its previous-frame fields taken from what `last` held as
/// current.
pub open spec fn advanced(last: CameraUniform, current: CameraUniform) -> CameraUniform {
    CameraUniform {
        previous_view_projection_matrix: last.view_projection_matrix,
        previous_view_matrix: last.view_matrix,
        previous_projection_matrix: last.projection_matrix,
        previous_position: last.position,
        previous_view: last.view,
        ..current
    }
}

impl CameraUniform {
    /// Moves to the next frame: the fresh values of `current` become this
    /// frame's, and this uniform's current values become the previous ones.
    pub fn update(&mut self, current: &CameraUniform)
        ensures
            *final(self) == advanced(*old(self), *current),
    {
        let last = *self;
        *self = CameraUniform {
            previous_view_projection_matrix: last.view_projection_matrix,
            previous_view_matrix: last.view_matrix,
            previous_projection_matrix: last.projection_matrix,
            previous_position: last.position,
            previous_view: last.view,
            ..*current
        };
    }
}

/// The camera uniform's nine matrices written in field order.
pub open spec fn camera_matrices_layout(c: CameraUniform) -> Std140View {
    let m3 = mat4_put(
        mat4_put(mat4_put(Std140View::empty(), c.view_projection_matrix), c.view_matrix),
        c.projection_matrix,
    );
    let m6 = mat4_put(
        mat4_put(mat4_put(m3, c.inverse_view_projection_matrix), c.inverse_view_matrix),
        c.inverse_projection_matrix,
    );
    mat4_put(
        mat4_put(mat4_put(m6, c.previous_view_projection_matrix), c.previous_view_matrix),
        c.previous_projection_matrix,
    )
}

/// The serialized form of the camera uniform: the nine matrices in field
/// order, then the four vectors, padded to 16 bytes.
pub open spec fn camera_layout(c: CameraUniform) -> Std140View {
    camera_matrices_layout(c).put(words_bytes(c.position.words()), 16).put(
        words_bytes(c.previous_position.words()),
        16,
    ).put(words_bytes(c.view.words()), 16).put(words_bytes(c.previous_view.words()), 16).aligned()
}

impl AsStd140Bytes for CameraUniform {
    open spec fn std140(&self) -> Std140View {
        camera_layout(*self)
    }

    fn as_std140(&self) -> (r: Std140Bytes) {
        let mut buf = Std140Bytes::new();
        buf.write_mat4(self.view_projection_matrix).write_mat4(self.view_matrix).write_mat4(
            self.projection_matrix,
        ).write_mat4(self.inverse_view_projection_matrix).write_mat4(
            self.inverse_view_matrix,
        ).write_mat4(self.inverse_projection_matrix).write_mat4(
            self.previous_view_projection_matrix,
        ).write_mat4(self.previous_view_matrix).write_mat4(self.previous_projection_matrix);
        buf.write_vec3(self.position).write_vec3(self.previous_position).write_vec3(
            self.view,
        ).write_vec3(self.previous_view).align();
        buf
    }
}

/// The output size and a running frame counter.
#[derive(Clone, Copy, Debug, PartialEq, Eq, Structural, Default)]
pub struct ViewUniform {
    pub width: u32,
    pub height: u32,
    pub frame_count: u32,
}

impl ViewUniform {
    pub fn new(width: u32, height: u32, frame_count: u32) -> (r: Self)
        ensures
            r == (ViewUniform { width, height, frame_count }),
    {
        ViewUniform { width, height, frame_count }
    }

    /// Moves to the next frame at the given output size; the counter wraps.
    pub fn update(&mut self, width: u32, height: u32)
        ensures
            final(self).width == width,
            final(self).height == height,
            final(self).frame_count == (if old(self).frame_count == u32::MAX {
                0
            } else {
                (old(self).frame_count + 1) as u32
            }),
    {
        let frame_count = self.frame_count.wrapping_add(1);
        *self = ViewUniform::new(width, height, frame_count);
    }
}

/// The serialized form of the view uniform: width, height, frame count.
pub open spec fn view_layout(v: ViewUniform) -> Std140View {
    Std140View::empty().put(le_bytes(v.width), 4).put(le_bytes(v.height), 4).put(
        le_bytes(v.frame_count),
        4,
    ).aligned()
}

impl AsStd140Bytes for ViewUniform {
    open spec fn std140(&self) -> Std140View {
        view_layout(*self)
    }

    fn as_std140(&self) -> (r: Std140Bytes) {
        let mut buf = Std140Bytes::new();
        buf.write_u32(self.width).write_u32(self.height).write_u32(self.frame_count).align();
        buf
    }
}

/// The contents of the camera buffer: the camera uniform followed by the
/// view uniform, padded to the buffer's alignment.
pub open spec fn camera_buffer_layout(c: CameraUniform, v: ViewUniform) -> Std140View {
    Std140View::empty().put_struct(camera_layout(c)).put_struct(view_layout(v)).aligned()
}

/// Packs the camera buffer's contents for upload.
pub fn pack_camera_buffer(camera: &CameraUniform, view: &ViewUniform) -> (r: Std140Bytes)
    ensures
        r@ == camera_buffer_layout(*camera, *view),
        r@.wf(),
{
    let mut buf = Std140Bytes::new();
    buf.write_struct(camera).write_struct(view).align();
    buf
}

} // verus!
