use see_augmented::archive::Layer;
use see_augmented::mrs::{
    DecodedImage, MRSError, MRSFile, MRSResultExt, PageImage, PageImages, PixelFormat,
};
use see_augmented::settings::{LogLevel, Settings};
use see_augmented::score::{
    AnnotationFormat, Annotations, Bookmark, BookmarkLocation, Bookmarks, ImageInfo, Information,
    Measure, Measures, Meta, Page, PageFormat, PageTurn, Pages, Part, Parts, Piece, Recordings,
};

fn png(bytes: &[u8]) -> Result<PageImage, MRSError> {
    Ok(PageImage::Png(bytes.to_vec()))
}

#[test]
fn missing_is_the_error_to_start_with() {
    assert_eq!(MRSError::default(), MRSError::Missing);
    let images = PageImages::new();
    assert_eq!(images.page, Err(MRSError::Missing));
    assert_eq!(images.thumbnail, Err(MRSError::Missing));
    assert_eq!(images.annotations_local, Err(MRSError::Missing));
    assert_eq!(images.annotations_remote, Err(MRSError::Missing));
    assert_eq!(PageImages::default(), PageImages::new());
}

#[test]
fn errors_have_messages() {
    assert_eq!(MRSError::Missing.message(), "image file not found in archive");
    assert_eq!(MRSError::ZipErr("bad archive".to_string()).message(), "bad archive");
    assert_eq!(MRSError::ImageErr("bad image".to_string()).message(), "bad image");
    assert_eq!(MRSError::XmlErr("bad xml".to_string()).message(), "bad xml");
    assert_eq!(MRSError::IoErr("bad disk".to_string()).message(), "bad disk");
}

#[test]
fn missing_is_no_failure() {
    let there: Result<u32, MRSError> = Ok(5);
    let missing: Result<u32, MRSError> = Err(MRSError::Missing);
    assert_eq!((&there).unwrap_if_present(), Some(&5));
    assert_eq!((&missing).unwrap_if_present(), None);
    assert_eq!((&there).expect_if_present("a number"), Some(&5));
    assert_eq!((&missing).expect_if_present("a number"), None);
    assert_eq!(there.unwrap_if_present(), Some(5));
    assert_eq!(missing.unwrap_if_present(), None);
    let there: Result<u32, MRSError> = Ok(6);
    let missing: Result<u32, MRSError> = Err(MRSError::Missing);
    assert_eq!(there.expect_if_present("a number"), Some(6));
    assert_eq!(missing.expect_if_present("a number"), None);
}

#[test]
fn images_are_described_without_their_bytes() {
    assert_eq!(PageImage::Png(vec![1, 2, 3]).describe(), "Png(..)");
    let formats = [
        (PixelFormat::Luma8, "Luma8(..)"),
        (PixelFormat::LumaA8, "LumaA8(..)"),
        (PixelFormat::Rgb8, "Rgb8(..)"),
        (PixelFormat::Rgba8, "Rgba8(..)"),
        (PixelFormat::Luma16, "Luma16(..)"),
        (PixelFormat::LumaA16, "LumaA16(..)"),
        (PixelFormat::Rgb16, "Rgb16(..)"),
        (PixelFormat::Rgba16, "Rgba16(..)"),
        (PixelFormat::Rgb32F, "Rgb32F(..)"),
        (PixelFormat::Rgba32F, "Rgba32F(..)"),
        (PixelFormat::Other, "DynamicImage"),
    ];
    for (format, text) in formats {
        let image = DecodedImage { format, width: 1, height: 1, pixels: vec![0] };
        assert_eq!(PageImage::DynImg(image).describe(), text);
    }
}

#[test]
fn one_layer_is_set_at_a_time() {
    let mut images = PageImages::new();
    images.set(Layer::Thumbnail, png(&[1]));
    assert_eq!(images.thumbnail, png(&[1]));
    assert_eq!(images.page, Err(MRSError::Missing));
    images.set(Layer::Page, png(&[2]));
    images.set(Layer::AnnotationsLocal, png(&[3]));
    images.set(Layer::AnnotationsRemote, Err(MRSError::IoErr("cut short".to_string())));
    assert_eq!(images.page, png(&[2]));
    assert_eq!(images.thumbnail, png(&[1]));
    assert_eq!(images.annotations_local, png(&[3]));
    assert_eq!(images.annotations_remote, Err(MRSError::IoErr("cut short".to_string())));
}

#[test]
fn placing_an_image_makes_room_for_its_page() {
    let mut file = MRSFile::empty("Menuet.mrs".to_string());
    assert_eq!(file.path, "Menuet.mrs");
    assert_eq!(file.pages.len(), 0);
    assert_eq!(file.bookmarks, Err(MRSError::Missing));
    assert_eq!(file.info, Err(MRSError::Missing));

    file.place_image(3, Some(Layer::Page), png(&[3]));
    assert_eq!(file.pages.len(), 3);
    assert_eq!(file.pages[0], PageImages::new());
    assert_eq!(file.pages[1], PageImages::new());
    assert_eq!(file.pages[2].page, png(&[3]));
    assert_eq!(file.pages[2].thumbnail, Err(MRSError::Missing));

    file.place_image(1, Some(Layer::Thumbnail), png(&[1]));
    assert_eq!(file.pages.len(), 3);
    assert_eq!(file.pages[0].thumbnail, png(&[1]));
    assert_eq!(file.pages[0].page, Err(MRSError::Missing));
    assert_eq!(file.pages[2].page, png(&[3]));

    file.place_image(3, Some(Layer::Page), png(&[33]));
    assert_eq!(file.pages[2].page, png(&[33]));
}

#[test]
fn image_of_an_unknown_layer_only_makes_room() {
    let mut file = MRSFile::empty(String::new());
    file.place_image(2, None, png(&[9]));
    assert_eq!(file.pages.len(), 2);
    assert_eq!(file.pages[0], PageImages::new());
    assert_eq!(file.pages[1], PageImages::new());
    file.place_image(1, None, png(&[9]));
    assert_eq!(file.pages.len(), 2);
}

#[test]
fn a_piece_is_plain_data() {
    let piece = Piece {
        information: Information {
            identifier: "MR76928326".to_string(),
            title: "English Suite I: Bourree I".to_string(),
            creator: Some(vec!["Bach, Johann Sebastian [composer]".to_string()]),
            description: None,
            subject: Some(vec!["a".to_string(), "b".to_string(), "c".to_string()]),
            publisher: None,
            copyright: None,
        },
        pages: Pages {
            page: vec![
                Page { number: 1, image: 1, pageturn: PageTurn::Whole, halfpage: None },
                Page { number: 2, image: 2, pageturn: PageTurn::Half, halfpage: Some(500_000) },
            ],
        },
        measures: Some(Measures {
            measure: Some(vec![Measure {
                number: 1,
                number_of_measures: 1,
                movement: 1,
                image: 1,
                x_left: 0,
                x_right: 10,
                y_top: 0,
                y_bottom: 10,
            }]),
        }),
        parts: Some(Parts {
            image: vec![ImageInfo { part: Some(vec![Part { x: 0, y: 0, width: 5, height: 5 }]) }],
        }),
        recordings: Some(Recordings {}),
    };
    assert_eq!(piece.information.identifier, "MR76928326");
    assert_eq!(piece.information.title, "English Suite I: Bourree I");
    assert_eq!(piece.information.creator, Some(vec!["Bach, Johann Sebastian [composer]".to_string()]));
    assert_eq!(piece.information.subject.as_ref().map(Vec::len), Some(3));
    assert_eq!(piece.pages.page.len(), 2);
    assert_eq!(piece.clone(), piece);

    let bookmarks = Bookmarks {
        bookmark: Some(vec![Bookmark {
            kind: "user".to_string(),
            pageimage: 1,
            location: BookmarkLocation { x: 3, y: 4 },
            name: "da capo".to_string(),
        }]),
    };
    assert_eq!(bookmarks.bookmark.as_ref().map(Vec::len), Some(1));

    let mut file = MRSFile::empty("Bourree_annotated.mrs".to_string());
    file.info = Ok(piece);
    file.bookmarks = Ok(bookmarks);
    assert!((&file.info).unwrap_if_present().is_some());
    assert!((&file.bookmarks).expect_if_present("bookmarks").is_some());

    let meta = Meta {
        format: PageFormat::Images { files: vec!["page-1.png".to_string()] },
        annotations: AnnotationFormat::Strokes,
    };
    assert_eq!(meta.annotations, AnnotationFormat::Strokes);
    let annotations = Annotations { files: vec![("page-1.svg".to_string(), AnnotationFormat::Svg)] };
    assert_eq!(annotations.files.len(), 1);
}

#[test]
fn page_image_gives_the_bytes_to_show() {
    assert_eq!(PageImage::Png(vec![1, 2, 3]).bytes(), &vec![1, 2, 3]);
    let image =
        DecodedImage { format: PixelFormat::Rgba8, width: 1, height: 2, pixels: vec![9; 8] };
    assert_eq!(PageImage::DynImg(image).bytes(), &vec![9; 8]);
}

#[test]
fn log_level_goes_round() {
    assert_eq!(Settings::default().log_level, LogLevel::Debug);
    assert_eq!(LogLevel::Warn.next(), LogLevel::Debug);
    assert_eq!(LogLevel::Debug.next(), LogLevel::Trace);
    assert_eq!(LogLevel::Trace.next(), LogLevel::Warn);
    assert_eq!(LogLevel::Off.next(), LogLevel::Warn);
    assert_eq!(LogLevel::Error.next(), LogLevel::Warn);
    assert_eq!(LogLevel::Info.next(), LogLevel::Warn);
}
