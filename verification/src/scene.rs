//! A scene: image dimensions, sampling quality, camera and world.

use vstd::prelude::*;

verus! {

use crate::camera::Camera;
use crate::objects::Object;

/// Everything a render needs, immutable for its duration.
pub struct Scene {
    pub width: u32,
    pub height: u32,
    pub samples: u32,
    pub camera: Camera,
    pub world: Object,
}

impl Scene {
    /// Dimensions and sample count are positive and small enough that a
    /// pixel's accumulated color and the output buffer stay in range.
    pub open spec fn wf(self) -> bool {
        1 <= self.width <= 4096 && 1 <= self.height <= 4096 && 1 <= self.samples <= 4096
            && self.camera.wf() && self.world.wf()
    }

    /// The scene with the given parts.
    pub fn new(width: u32, height: u32, samples: u32, camera: Camera, world: Object) -> (s: Scene)
        requires
            1 <= width <= 4096,
            1 <= height <= 4096,
            1 <= samples <= 4096,
            camera.wf(),
            world.wf(),
        ensures
            s.width == width,
            s.height == height,
            s.samples == samples,
            s.camera == camera,
            s.world == world,
            s.wf(),
    {
        Scene { width, height, samples, camera, world }
    }
}

} // verus!
