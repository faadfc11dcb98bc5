//! The Glk session object, as far as the map extension uses it.
use vstd::prelude::*;

use crate::map::{initial_map_state, MapState};

verus! {

/// Optional Glk features that the display supports.
#[derive(Clone, Copy, Debug, PartialEq, Eq)]
pub struct GlkSupport {
    pub map: bool,
}

/// An image resource that the story can draw.
#[derive(Clone, Copy, Debug, PartialEq, Eq)]
pub struct ImageInfo {
    pub image: u32,
    pub width: u32,
    pub height: u32,
}

/// Whether `images` lists the image `image`.
pub open spec fn image_known(images: Seq<ImageInfo>, image: u32) -> bool {
    exists|i: int| 0 <= i < images.len() && (#[trigger] images[i]).image == image
}

/// A Glk session.
pub struct GlkApi {
    pub support: GlkSupport,
    pub map: MapState,
    pub images: Vec<ImageInfo>,
}

impl GlkApi {
    /// A session with the given features and image resources and no map.
    pub fn new(support: GlkSupport, images: Vec<ImageInfo>) -> (r: Self)
        ensures
            r.support == support,
            r.images@ == images@,
            r.map@ == initial_map_state(),
    {
        GlkApi { support, map: MapState::default(), images }
    }

    /// The first listed image resource with the number `image`.
    pub fn glk_image_get_info(&self, image: u32) -> (r: Option<ImageInfo>)
        ensures
            r is Some <==> image_known(self.images@, image),
            r matches Some(info) ==> exists|i: int|
                0 <= i < self.images@.len() && self.images@[i] == info && info.image == image
                    && forall|k: int| 0 <= k < i ==> (#[trigger] self.images@[k]).image != image,
    {
        let mut i: usize = 0;
        while i < self.images.len()
            invariant
                i <= self.images@.len(),
                forall|k: int| 0 <= k < i ==> (#[trigger] self.images@[k]).image != image,
            decreases self.images.len() - i,
        {
            if self.images[i].image == image {
                assert(self.images@[i as int] == self.images[i as int]);
                return Some(self.images[i]);
            }
            i = i + 1;
        }
        None
    }
}

} // verus!
