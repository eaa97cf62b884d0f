//! Decoded thumbnails and the values that carry them between the workers
//! and the drawing loop.

use vstd::prelude::*;

verus! {

/// A decoded bitmap, scaled down for display. Nothing changes it once it is
/// produced; the cache hands out copies.
#[derive(Debug, PartialEq, Eq)]
pub struct Thumbnail {
    /// Width in pixels.
    pub width: u32,
    /// Height in pixels.
    pub height: u32,
    /// The number of bytes from the start of one row to the start of the next.
    pub rowstride: u32,
    /// Whether each pixel carries an alpha byte after red, green and blue.
    pub has_alpha: bool,
    /// Pixel data, row by row.
    pub pixels: Vec<u8>,
}

/// What a `Thumbnail` is, as a mathematical value.
pub ghost struct ThumbnailView {
    pub width: u32,
    pub height: u32,
    pub rowstride: u32,
    pub has_alpha: bool,
    pub pixels: Seq<u8>,
}

impl View for Thumbnail {
    type V = ThumbnailView;

    open spec fn view(&self) -> ThumbnailView {
        ThumbnailView {
            width: self.width,
            height: self.height,
            rowstride: self.rowstride,
            has_alpha: self.has_alpha,
            pixels: self.pixels@,
        }
    }
}

impl Clone for Thumbnail {
    fn clone(&self) -> (copy: Self)
        ensures
            copy@ == self@,
    {
        Thumbnail {
            width: self.width,
            height: self.height,
            rowstride: self.rowstride,
            has_alpha: self.has_alpha,
            pixels: self.pixels.clone(),
        }
    }
}

/// A decoded thumbnail on its way from a worker to the drawing loop,
/// with the path it was decoded from.
#[derive(Debug, PartialEq, Eq)]
pub struct PendingResult {
    pub thumbnail: Thumbnail,
    pub path: String,
}

/// What a `PendingResult` is, as a mathematical value.
pub ghost struct PendingView {
    pub thumbnail: ThumbnailView,
    pub path: Seq<char>,
}

impl View for PendingResult {
    type V = PendingView;

    open spec fn view(&self) -> PendingView {
        PendingView { thumbnail: self.thumbnail@, path: self.path@ }
    }
}

/// One cell of the grid: the picture, the file name to show as a tooltip,
/// and the path that a click on it sets as wallpaper.
#[derive(Debug, PartialEq, Eq)]
pub struct GridEntry {
    pub thumbnail: Thumbnail,
    pub tooltip: String,
    pub path: String,
}

/// What a `GridEntry` is, as a mathematical value.
pub ghost struct GridEntryView {
    pub thumbnail: ThumbnailView,
    pub tooltip: Seq<char>,
    pub path: Seq<char>,
}

impl View for GridEntry {
    type V = GridEntryView;

    open spec fn view(&self) -> GridEntryView {
        GridEntryView { thumbnail: self.thumbnail@, tooltip: self.tooltip@, path: self.path@ }
    }
}

} // verus!
