//! A loaded score file: the images of its pages, and what it says of the piece.

use vstd::prelude::*;
use crate::archive::Layer;
use crate::score::{Bookmarks, Piece};

verus! {

/// Why a part of a score file is not there.
#[derive(Clone, Debug, PartialEq, Eq)]
pub enum MRSError {
    /// The archive holds no such file.
    Missing,
    /// The archive could not be unpacked; with the reason.
    ZipErr(String),
    /// The image could not be decoded; with the reason.
    ImageErr(String),
    /// The xml could not be read; with the reason.
    XmlErr(String),
    /// The file could not be read; with the reason.
    IoErr(String),
}

impl Default for MRSError {
    fn default() -> (error: MRSError)
        ensures
            error == MRSError::Missing,
    {
        MRSError::Missing
    }
}

impl MRSError {
    /// What to tell the reader.
    pub fn message(&self) -> (text: String)
        ensures
            text@ == match self {
                MRSError::Missing => "image file not found in archive"@,
                MRSError::ZipErr(reason) => reason@,
                MRSError::ImageErr(reason) => reason@,
                MRSError::XmlErr(reason) => reason@,
                MRSError::IoErr(reason) => reason@,
            },
    {
        match self {
            MRSError::Missing => "image file not found in archive".to_owned(),
            MRSError::ZipErr(reason) => reason.clone(),
            MRSError::ImageErr(reason) => reason.clone(),
            MRSError::XmlErr(reason) => reason.clone(),
            MRSError::IoErr(reason) => reason.clone(),
        }
    }
}

/// Results in which a missing file is no failure.
pub trait MRSResultExt: Sized {
    type OkTy;

    /// The value, where there is one.
    spec fn present(&self) -> Option<Self::OkTy>;

    /// Whether something went wrong, other than the file not being there.
    spec fn failed(&self) -> bool;

    /// The value, or `None` where the file is missing. Not for a result
    /// that failed.
    fn unwrap_if_present(self) -> (found: Option<Self::OkTy>)
        requires
            !self.failed(),
        ensures
            found == self.present(),
    ;

    /// The value, or `None` where the file is missing. Not for a result
    /// that failed; `msg` says what was expected.
    fn expect_if_present(self, msg: &str) -> (found: Option<Self::OkTy>)
        requires
            !self.failed(),
        ensures
            found == self.present(),
    ;
}

impl<T> MRSResultExt for Result<T, MRSError> {
    type OkTy = T;

    open spec fn present(&self) -> Option<T> {
        match self {
            Ok(value) => Some(*value),
            Err(_) => None,
        }
    }

    open spec fn failed(&self) -> bool {
        self matches Err(error) && error != MRSError::Missing
    }

    fn unwrap_if_present(self) -> (found: Option<T>) {
        match self {
            Ok(value) => Some(value),
            Err(_) => None,
        }
    }

    fn expect_if_present(self, msg: &str) -> (found: Option<T>) {
        match self {
            Ok(value) => Some(value),
            Err(_) => None,
        }
    }
}

impl<'a, T> MRSResultExt for &'a Result<T, MRSError> {
    type OkTy = &'a T;

    open spec fn present(&self) -> Option<&'a T> {
        match self {
            Ok(value) => Some(value),
            Err(_) => None,
        }
    }

    open spec fn failed(&self) -> bool {
        *self matches Err(error) && error != MRSError::Missing
    }

    fn unwrap_if_present(self) -> (found: Option<&'a T>) {
        match self {
            Ok(value) => Some(value),
            Err(_) => None,
        }
    }

    fn expect_if_present(self, msg: &str) -> (found: Option<&'a T>) {
        match self {
            Ok(value) => Some(value),
            Err(_) => None,
        }
    }
}

/// How the pixels of a decoded image are laid out.
#[derive(Clone, Copy, Debug, PartialEq, Eq, Structural)]
pub enum PixelFormat {
    Luma8,
    LumaA8,
    Rgb8,
    Rgba8,
    Luma16,
    LumaA16,
    Rgb16,
    Rgba16,
    Rgb32F,
    Rgba32F,
    Other,
}

/// An image that was decoded: its size and its pixels.
#[derive(Clone, Debug, PartialEq, Eq)]
pub struct DecodedImage {
    pub format: PixelFormat,
    pub width: u32,
    pub height: u32,
    pub pixels: Vec<u8>,
}

/// An image of a page.
#[derive(Clone, Debug, PartialEq, Eq)]
pub enum PageImage {
    /// The bytes of a png file, as the archive holds them.
    Png(Vec<u8>),
    /// A decoded image.
    DynImg(DecodedImage),
}

impl PageImage {
    /// The bytes to show: the file as it is, or the pixels of a decoded
    /// image.
    pub fn bytes(&self) -> (data: &Vec<u8>)
        ensures
            data@ == match self {
                PageImage::Png(file) => file@,
                PageImage::DynImg(image) => image.pixels@,
            },
    {
        match self {
            PageImage::Png(file) => file,
            PageImage::DynImg(image) => &image.pixels,
        }
    }

    /// The kind of the image, without its bytes.
    pub fn describe(&self) -> (text: &'static str)
        ensures
            text@ == match self {
                PageImage::Png(_) => "Png(..)"@,
                PageImage::DynImg(image) => match image.format {
                    PixelFormat::Luma8 => "Luma8(..)"@,
                    PixelFormat::LumaA8 => "LumaA8(..)"@,
                    PixelFormat::Rgb8 => "Rgb8(..)"@,
                    PixelFormat::Rgba8 => "Rgba8(..)"@,
                    PixelFormat::Luma16 => "Luma16(..)"@,
                    PixelFormat::LumaA16 => "LumaA16(..)"@,
                    PixelFormat::Rgb16 => "Rgb16(..)"@,
                    PixelFormat::Rgba16 => "Rgba16(..)"@,
                    PixelFormat::Rgb32F => "Rgb32F(..)"@,
                    PixelFormat::Rgba32F => "Rgba32F(..)"@,
                    PixelFormat::Other => "DynamicImage"@,
                },
            },
    {
        match self {
            PageImage::Png(_) => "Png(..)",
            PageImage::DynImg(image) => match image.format {
                PixelFormat::Luma8 => "Luma8(..)",
                PixelFormat::LumaA8 => "LumaA8(..)",
                PixelFormat::Rgb8 => "Rgb8(..)",
                PixelFormat::Rgba8 => "Rgba8(..)",
                PixelFormat::Luma16 => "Luma16(..)",
                PixelFormat::LumaA16 => "LumaA16(..)",
                PixelFormat::Rgb16 => "Rgb16(..)",
                PixelFormat::Rgba16 => "Rgba16(..)",
                PixelFormat::Rgb32F => "Rgb32F(..)",
                PixelFormat::Rgba32F => "Rgba32F(..)",
                PixelFormat::Other => "DynamicImage",
            },
        }
    }
}

/// The images of one page. Each is there, or missing, or failed to load.
#[derive(Debug, PartialEq, Eq)]
pub struct PageImages {
    pub page: Result<PageImage, MRSError>,
    pub thumbnail: Result<PageImage, MRSError>,
    pub annotations_local: Result<PageImage, MRSError>,
    pub annotations_remote: Result<PageImage, MRSError>,
}

impl PageImages {
    /// A page of which every image is missing.
    pub open spec fn blank() -> PageImages {
        PageImages {
            page: Err(MRSError::Missing),
            thumbnail: Err(MRSError::Missing),
            annotations_local: Err(MRSError::Missing),
            annotations_remote: Err(MRSError::Missing),
        }
    }

    /// The page with one of its images replaced.
    pub open spec fn with(self, layer: Layer, image: Result<PageImage, MRSError>) -> PageImages {
        match layer {
            Layer::Page => PageImages { page: image, ..self },
            Layer::Thumbnail => PageImages { thumbnail: image, ..self },
            Layer::AnnotationsLocal => PageImages { annotations_local: image, ..self },
            Layer::AnnotationsRemote => PageImages { annotations_remote: image, ..self },
        }
    }

    /// A page of which every image is missing.
    pub fn new() -> (images: PageImages)
        ensures
            images == PageImages::blank(),
    {
        PageImages {
            page: Err(MRSError::Missing),
            thumbnail: Err(MRSError::Missing),
            annotations_local: Err(MRSError::Missing),
            annotations_remote: Err(MRSError::Missing),
        }
    }

    /// Replaces one of the images.
    pub fn set(&mut self, layer: Layer, image: Result<PageImage, MRSError>)
        ensures
            *final(self) == old(self).with(layer, image),
    {
        match layer {
            Layer::Page => {
                self.page = image;
            },
            Layer::Thumbnail => {
                self.thumbnail = image;
            },
            Layer::AnnotationsLocal => {
                self.annotations_local = image;
            },
            Layer::AnnotationsRemote => {
                self.annotations_remote = image;
            },
        }
    }
}

impl Default for PageImages {
    fn default() -> (images: PageImages)
        ensures
            images == PageImages::blank(),
    {
        PageImages::new()
    }
}

/// The pages after an image was placed on page `page`, counted from one:
/// blank pages are added until there is such a page, and where the layer is
/// known the image takes its place there.
pub open spec fn placed(
    pages: Seq<PageImages>,
    page: int,
    layer: Option<Layer>,
    image: Result<PageImage, MRSError>,
) -> Seq<PageImages> {
    let grown = if page > pages.len() {
        pages + Seq::new((page - pages.len()) as nat, |i: int| PageImages::blank())
    } else {
        pages
    };
    match layer {
        Some(layer) => grown.update(page - 1, grown[page - 1].with(layer, image)),
        None => grown,
    }
}

/// A loaded score file.
#[derive(Debug, PartialEq, Eq)]
pub struct MRSFile {
    /// Where the file was read from.
    pub path: String,
    /// The images of its pages; the first page comes first.
    pub pages: Vec<PageImages>,
    pub bookmarks: Result<Bookmarks, MRSError>,
    pub info: Result<Piece, MRSError>,
}

impl MRSFile {
    /// A score file of which nothing was found yet.
    pub fn empty(path: String) -> (file: MRSFile)
        ensures
            file.path == path,
            file.pages@.len() == 0,
            file.bookmarks == Err::<Bookmarks, MRSError>(MRSError::Missing),
            file.info == Err::<Piece, MRSError>(MRSError::Missing),
    {
        MRSFile {
            path,
            pages: Vec::new(),
            bookmarks: Err(MRSError::Missing),
            info: Err(MRSError::Missing),
        }
    }

    /// Places an image of page `page`, counted from one.
    pub fn place_image(
        &mut self,
        page: usize,
        layer: Option<Layer>,
        image: Result<PageImage, MRSError>,
    )
        requires
            page >= 1,
        ensures
            final(self).pages@ == placed(old(self).pages@, page as int, layer, image),
            final(self).pages@.len() == if page > old(self).pages@.len() {
                page as int
            } else {
                old(self).pages@.len() as int
            },
            final(self).path == old(self).path,
            final(self).bookmarks == old(self).bookmarks,
            final(self).info == old(self).info,
    {
        let ghost before = self.pages@;
        while self.pages.len() < page
            invariant
                before.len() <= self.pages@.len(),
                self.pages@.len() <= page || self.pages@.len() == before.len(),
                self.pages@ == before + Seq::new(
                    (self.pages@.len() - before.len()) as nat,
                    |i: int| PageImages::blank(),
                ),
                self.path == old(self).path,
                self.bookmarks == old(self).bookmarks,
                self.info == old(self).info,
            decreases page - self.pages.len(),
        {
            let ghost grown = self.pages@;
            self.pages.push(PageImages::new());
            proof {
                assert(self.pages@ =~= before + Seq::new(
                    (self.pages@.len() - before.len()) as nat,
                    |i: int| PageImages::blank(),
                ));
            }
        }
        proof {
            if page <= before.len() {
                assert(self.pages@ =~= before);
            }
        }
        match layer {
            Some(layer) => {
                self.set_layer(page - 1, layer, image);
            },
            None => {},
        }
    }

    /// Replaces one image of the page at `index`.
    fn set_layer(&mut self, index: usize, layer: Layer, image: Result<PageImage, MRSError>)
        requires
            index < old(self).pages@.len(),
        ensures
            final(self).pages@ == old(self).pages@.update(
                index as int,
                old(self).pages@[index as int].with(layer, image),
            ),
            final(self).path == old(self).path,
            final(self).bookmarks == old(self).bookmarks,
            final(self).info == old(self).info,
    {
        let images: &mut PageImages = &mut self.pages[index];
        images.set(layer, image);
        assert(self.pages@ =~= old(self).pages@.update(
            index as int,
            old(self).pages@[index as int].with(layer, image),
        ));
    }
}

} // verus!
