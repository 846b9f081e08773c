//! The archive tool's choice of file: the list it can review, the file it shows,
//! and whether the list is spread over the preview.
use vstd::prelude::*;

use crate::foundation::FileId;
use crate::listing::{review_items_model, ReviewItem};

verus! {

/// The file being shown: its id, name and, for a downloaded photo, the identifier
/// it is loaded by.
pub type Loaded = (FileId, String, Option<String>);

/// What the archive tool is showing.
pub struct HexToolApp {
    /// The files it can review.
    pub review_files: Vec<ReviewItem>,
    /// The file shown, none before one is chosen.
    pub loaded: Option<Loaded>,
    /// Whether the list of files covers the preview.
    pub picker_open: bool,
    /// Whether the shown file still has to be loaded.
    pub load_pending: bool,
}

impl HexToolApp {
    /// The tool as it opens: nothing shown; the list is open from the start when
    /// there is nothing to choose, so that its "no files" notice shows.
    pub fn new(review_files: Vec<ReviewItem>) -> (r: HexToolApp)
        ensures
            review_items_model(r.review_files@) == review_items_model(review_files@),
            r.loaded is None,
            r.picker_open == (review_files@.len() == 0),
            !r.load_pending,
    {
        let picker_open = review_files.len() == 0;
        HexToolApp { review_files, loaded: None, picker_open, load_pending: false }
    }

    /// Replaces the list of files after the file system changed; what is shown
    /// stays.
    pub fn refresh_review_files(&mut self, review_files: Vec<ReviewItem>)
        ensures
            review_items_model(final(self).review_files@) == review_items_model(review_files@),
            final(self).loaded == old(self).loaded,
            final(self).picker_open == old(self).picker_open,
            final(self).load_pending == old(self).load_pending,
    {
        self.review_files = review_files;
    }

    /// Spreads the list over the preview, to choose another file.
    pub fn open_picker(&mut self)
        ensures
            final(self).picker_open,
            final(self).loaded == old(self).loaded,
            final(self).load_pending == old(self).load_pending,
            review_items_model(final(self).review_files@) == review_items_model(old(self).review_files@),
    {
        self.picker_open = true;
    }

    /// Chooses entry `i` of the list: it is shown (and loaded afresh) and the list
    /// closes.
    pub fn pick(&mut self, i: usize)
        requires
            i < old(self).review_files@.len(),
        ensures
            final(self).loaded matches Some((id, name, photo_id)) && id == old(self).review_files@[i as int].0
                && name@ == old(self).review_files@[i as int].1@ && match (photo_id, old(self).review_files@[i as int].3) {
                (Some(a), Some(b)) => a@ == b@,
                (None, None) => true,
                _ => false,
            },
            !final(self).picker_open,
            final(self).load_pending,
            review_items_model(final(self).review_files@) == review_items_model(old(self).review_files@),
    {
        let entry = &self.review_files[i];
        let photo_id = match &entry.3 {
            Some(p) => Some(p.clone()),
            None => None,
        };
        let loaded = (entry.0, entry.1.clone(), photo_id);
        self.loaded = Some(loaded);
        self.picker_open = false;
        self.load_pending = true;
    }
}

} // verus!
