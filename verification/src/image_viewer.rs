//! The image viewer: which loaded photo it shows.
use vstd::prelude::*;

verus! {

/// A window showing one of the loaded photos.
pub struct ImageViewerApp {
    photo_idx: usize,
}

impl ImageViewerApp {
    /// A viewer of the photo at index `photo_idx` of the loaded photos.
    pub fn new(photo_idx: usize) -> (r: ImageViewerApp)
        ensures
            r.photo_index() == photo_idx,
    {
        ImageViewerApp { photo_idx }
    }

    /// The index of the shown photo.
    pub closed spec fn photo_index(&self) -> usize {
        self.photo_idx
    }

    /// The index of the shown photo.
    pub fn photo_idx(&self) -> (r: usize)
        ensures
            r == self.photo_index(),
    {
        self.photo_idx
    }
}

} // verus!
