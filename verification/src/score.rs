//! What a score file says of a piece: its pages, measures, parts and bookmarks.

use vstd::prelude::*;

verus! {

/// A piece of music as its score file describes it.
#[derive(Clone, Debug, PartialEq, Eq)]
pub struct Piece {
    pub information: Information,
    pub pages: Pages,
    pub measures: Option<Measures>,
    pub parts: Option<Parts>,
    pub recordings: Option<Recordings>,
}

/// Who wrote and published a piece.
#[derive(Clone, Debug, PartialEq, Eq)]
pub struct Information {
    pub identifier: String,
    pub title: String,
    pub creator: Option<Vec<String>>,
    pub description: Option<String>,
    pub subject: Option<Vec<String>>,
    pub publisher: Option<String>,
    pub copyright: Option<String>,
}

/// The pages of a piece, in reading order.
#[derive(Clone, Debug, PartialEq, Eq)]
pub struct Pages {
    pub page: Vec<Page>,
}

/// One page of a piece.
#[derive(Clone, Copy, Debug, PartialEq, Eq, Structural)]
pub struct Page {
    pub number: usize,
    pub image: usize,
    pub pageturn: PageTurn,
    /// Where a half turn cuts the page, in millionths of its height.
    pub halfpage: Option<u32>,
}

/// How the reader gets from a page to the next.
#[derive(Clone, Copy, Debug, PartialEq, Eq, Structural)]
pub enum PageTurn {
    Whole,
    Half,
}

/// The measures of a piece.
#[derive(Clone, Debug, PartialEq, Eq)]
pub struct Measures {
    pub measure: Option<Vec<Measure>>,
}

/// Where a measure stands on its page image.
#[derive(Clone, Copy, Debug, PartialEq, Eq, Structural)]
pub struct Measure {
    pub number: usize,
    pub number_of_measures: usize,
    pub movement: usize,
    pub image: usize,
    pub x_left: usize,
    pub x_right: usize,
    pub y_top: usize,
    pub y_bottom: usize,
}

/// The parts of a piece, image by image.
#[derive(Clone, Debug, PartialEq, Eq)]
pub struct Parts {
    pub image: Vec<ImageInfo>,
}

/// The parts that one page image shows.
#[derive(Clone, Debug, PartialEq, Eq)]
pub struct ImageInfo {
    pub part: Option<Vec<Part>>,
}

/// The rectangle of a part on its page image.
#[derive(Clone, Copy, Debug, PartialEq, Eq, Structural)]
pub struct Part {
    pub x: usize,
    pub y: usize,
    pub width: usize,
    pub height: usize,
}

/// The recordings of a piece. A score file names none so far.
#[derive(Clone, Copy, Debug, PartialEq, Eq, Structural)]
pub struct Recordings {}

/// The bookmarks that a reader left in a piece.
#[derive(Clone, Debug, PartialEq, Eq)]
pub struct Bookmarks {
    pub bookmark: Option<Vec<Bookmark>>,
}

/// One bookmark.
#[derive(Clone, Debug, PartialEq, Eq)]
pub struct Bookmark {
    pub kind: String,
    pub pageimage: usize,
    pub location: BookmarkLocation,
    pub name: String,
}

/// Where on its page image a bookmark points.
#[derive(Clone, Copy, Debug, PartialEq, Eq, Structural)]
pub struct BookmarkLocation {
    pub x: usize,
    pub y: usize,
}

/// How a library entry stores its pages and annotations.
#[derive(Clone, Debug, PartialEq, Eq)]
pub struct Meta {
    pub format: PageFormat,
    pub annotations: AnnotationFormat,
}

/// How the pages of a library entry are stored.
#[derive(Clone, Debug, PartialEq, Eq)]
pub enum PageFormat {
    /// One image file per page, by path.
    Images { files: Vec<String> },
}

/// The annotation files of a library entry, each path with its format.
#[derive(Clone, Debug, PartialEq, Eq)]
pub struct Annotations {
    pub files: Vec<(String, AnnotationFormat)>,
}

/// How annotations are stored.
#[derive(Clone, Copy, Debug, PartialEq, Eq, Structural)]
pub enum AnnotationFormat {
    Image,
    Svg,
    Strokes,
}

} // verus!
