//! What the GPU is told of a task: its eight-number record and the texture
//! coordinates of its output.

use vstd::prelude::*;
use crate::scalar::Scalar;
use crate::task::{
    BlurTask, PictureTask, RenderTask, RenderTaskData, RenderTaskKind, RenderTaskLocation,
};
use crate::types::{DevicePoint, GpuCacheHandle, UvRectKind};
use crate::units::DeviceIntPoint;

verus! {

/// Texture coordinates of a task's output as the GPU value cache stores them.
#[derive(Clone, Copy, Debug)]
pub struct ImageSource {
    pub p0: DevicePoint,
    pub p1: DevicePoint,
    pub texture_layer: Scalar,
    pub user_data: [Scalar; 3],
    pub uv_rect_kind: UvRectKind,
}

/// The three operation-specific numbers of a record: pixel scale and content
/// origin for a picture, the pixel scale alone for a clip mask and for a clip
/// region, the deviation for a blur, `0, 1, 0` for a glyph, zeros for the
/// rest.
pub open spec fn kind_numbers(kind: RenderTaskKind) -> Seq<Scalar> {
    let zero = Scalar::spec_from_int(0);
    match kind {
        RenderTaskKind::Picture(task) => seq![
            task.device_pixel_scale.0,
            Scalar::spec_from_int(task.content_origin.x as int),
            Scalar::spec_from_int(task.content_origin.y as int),
        ],
        RenderTaskKind::CacheMask(task) => seq![task.device_pixel_scale.0, zero, zero],
        RenderTaskKind::ClipRegion(task) => seq![task.device_pixel_scale.0, zero, zero],
        RenderTaskKind::VerticalBlur(task) => seq![task.blur_std_deviation, zero, zero],
        RenderTaskKind::HorizontalBlur(task) => seq![task.blur_std_deviation, zero, zero],
        RenderTaskKind::Glyph(_) => seq![zero, Scalar::spec_from_int(1), zero],
        _ => seq![zero, zero, zero],
    }
}

impl RenderTask {
    /// The origin that the record reports: the resolved origin, but zero for
    /// a fixed location, whose content is already placed in output space.
    pub open spec fn reported_origin(self) -> DeviceIntPoint {
        if self.location is Fixed {
            DeviceIntPoint { x: 0, y: 0 }
        } else {
            self.spec_target_rect().0.origin
        }
    }

    /// The record of the task: reported origin, resolved size, target index,
    /// then the three operation-specific numbers.
    pub open spec fn spec_task_data(self) -> Seq<Scalar> {
        let (rect, index) = self.spec_target_rect();
        let origin = self.reported_origin();
        seq![
            Scalar::spec_from_int(origin.x as int),
            Scalar::spec_from_int(origin.y as int),
            Scalar::spec_from_int(rect.size.width as int),
            Scalar::spec_from_int(rect.size.height as int),
            Scalar::spec_from_int(index.0 as int),
        ] + kind_numbers(self.kind)
    }

    /// Packs the task into the record that the GPU reads.
    pub fn write_task_data(&self) -> (record: RenderTaskData)
        ensures
            record.data@ == self.spec_task_data(),
            self.kind matches RenderTaskKind::Picture(task) ==> record.data@ == seq![
                Scalar::spec_from_int(self.reported_origin().x as int),
                Scalar::spec_from_int(self.reported_origin().y as int),
                Scalar::spec_from_int(self.spec_target_rect().0.size.width as int),
                Scalar::spec_from_int(self.spec_target_rect().0.size.height as int),
                Scalar::spec_from_int(self.spec_target_rect().1.0 as int),
                task.device_pixel_scale.0,
                Scalar::spec_from_int(task.content_origin.x as int),
                Scalar::spec_from_int(task.content_origin.y as int),
            ],
    {
        let zero = Scalar::zero();
        let data: [Scalar; 3] = match self.kind {
            RenderTaskKind::Picture(ref task) => [
                task.device_pixel_scale.0,
                Scalar::from_int(task.content_origin.x),
                Scalar::from_int(task.content_origin.y),
            ],
            RenderTaskKind::CacheMask(ref task) => [task.device_pixel_scale.0, zero, zero],
            RenderTaskKind::ClipRegion(ref task) => [task.device_pixel_scale.0, zero, zero],
            RenderTaskKind::VerticalBlur(ref task) => [task.blur_std_deviation, zero, zero],
            RenderTaskKind::HorizontalBlur(ref task) => [task.blur_std_deviation, zero, zero],
            RenderTaskKind::Glyph(_) => [zero, Scalar::from_int(1), zero],
            RenderTaskKind::Scaling(..) => [zero, zero, zero],
            RenderTaskKind::Border(..) => [zero, zero, zero],
            RenderTaskKind::LineDecoration(..) => [zero, zero, zero],
            RenderTaskKind::Blit(..) => [zero, zero, zero],
        };
        assert(data@ =~= kind_numbers(self.kind));

        let (mut target_rect, target_index) = self.get_target_rect();
        // Content of a fixed-location task is already placed in output space.
        if let RenderTaskLocation::Fixed(_) = self.location {
            target_rect.origin = DeviceIntPoint::origin();
        }
        let record = RenderTaskData {
            data: [
                Scalar::from_int(target_rect.origin.x),
                Scalar::from_int(target_rect.origin.y),
                Scalar::from_int(target_rect.size.width),
                Scalar::from_int(target_rect.size.height),
                Scalar::from_usize(target_index.0),
                data[0],
                data[1],
                data[2],
            ],
        };
        assert(record.data@ =~= self.spec_task_data());
        record
    }

    /// The texture coordinates of the task's output: its resolved rectangle
    /// by two corners, its target index as the layer, no user data.
    pub open spec fn spec_image_source(self) -> ImageSource {
        let (rect, index) = self.spec_target_rect();
        ImageSource {
            p0: DevicePoint {
                x: Scalar::spec_from_int(rect.origin.x as int),
                y: Scalar::spec_from_int(rect.origin.y as int),
            },
            p1: DevicePoint {
                x: Scalar::spec_from_int(rect.origin.x + rect.size.width),
                y: Scalar::spec_from_int(rect.origin.y + rect.size.height),
            },
            texture_layer: Scalar::spec_from_int(index.0 as int),
            user_data: [Scalar::spec_from_int(0), Scalar::spec_from_int(0), Scalar::spec_from_int(0)],
            uv_rect_kind: self.spec_uv_rect_kind(),
        }
    }

    /// The task with `handle` in place of its handle to the GPU value cache.
    pub open spec fn with_uv_rect_handle(self, handle: GpuCacheHandle) -> RenderTask {
        RenderTask {
            kind: match self.kind {
                RenderTaskKind::Picture(info) => RenderTaskKind::Picture(
                    PictureTask { uv_rect_handle: handle, ..info },
                ),
                RenderTaskKind::VerticalBlur(info) => RenderTaskKind::VerticalBlur(
                    BlurTask { uv_rect_handle: handle, ..info },
                ),
                RenderTaskKind::HorizontalBlur(info) => RenderTaskKind::HorizontalBlur(
                    BlurTask { uv_rect_handle: handle, ..info },
                ),
                other => other,
            },
            ..self
        }
    }

    /// Offers the texture coordinates of a picture or blur task to the GPU
    /// value cache. `request` receives the task's handle and the coordinates,
    /// stores them where the handle is stale, and answers the handle to keep.
    /// Tasks of other kinds have no coordinates to offer and stay as they are.
    pub fn write_gpu_blocks<F>(&mut self, request: F) where
        F: FnOnce(GpuCacheHandle, ImageSource) -> GpuCacheHandle,

        requires
            old(self).has_uv_rect_handle() ==> request.requires(
                (old(self).spec_uv_rect_handle(), old(self).spec_image_source()),
            ),
        ensures
            !old(self).has_uv_rect_handle() ==> *final(self) == *old(self),
            old(self).has_uv_rect_handle() ==> {
                &&& request.ensures(
                    (old(self).spec_uv_rect_handle(), old(self).spec_image_source()),
                    final(self).spec_uv_rect_handle(),
                )
                &&& *final(self) == old(self).with_uv_rect_handle(
                    final(self).spec_uv_rect_handle(),
                )
            },
    {
        match self.kind {
            RenderTaskKind::Picture(info) => {
                let source = image_source(self, info.uv_rect_kind);
                let handle = request(info.uv_rect_handle, source);
                self.kind = RenderTaskKind::Picture(PictureTask { uv_rect_handle: handle, ..info });
            },
            RenderTaskKind::VerticalBlur(info) => {
                let source = image_source(self, info.uv_rect_kind);
                let handle = request(info.uv_rect_handle, source);
                self.kind = RenderTaskKind::VerticalBlur(
                    BlurTask { uv_rect_handle: handle, ..info },
                );
            },
            RenderTaskKind::HorizontalBlur(info) => {
                let source = image_source(self, info.uv_rect_kind);
                let handle = request(info.uv_rect_handle, source);
                self.kind = RenderTaskKind::HorizontalBlur(
                    BlurTask { uv_rect_handle: handle, ..info },
                );
            },
            _ => {},
        }
    }
}

/// Builds the texture coordinates of `task`'s output.
fn image_source(task: &RenderTask, uv_rect_kind: UvRectKind) -> (source: ImageSource)
    requires
        uv_rect_kind == task.spec_uv_rect_kind(),
    ensures
        source == task.spec_image_source(),
{
    let (rect, index) = task.get_target_rect();
    let zero = Scalar::zero();
    let x1: i128 = rect.origin.x as i128 + rect.size.width as i128;
    let y1: i128 = rect.origin.y as i128 + rect.size.height as i128;
    let source = ImageSource {
        p0: DevicePoint { x: Scalar::from_int(rect.origin.x), y: Scalar::from_int(rect.origin.y) },
        p1: DevicePoint { x: Scalar::new(x1, 1), y: Scalar::new(y1, 1) },
        texture_layer: Scalar::from_usize(index.0),
        user_data: [zero, zero, zero],
        uv_rect_kind,
    };
    assert(source.user_data@ =~= task.spec_image_source().user_data@);
    source
}

} // verus!
