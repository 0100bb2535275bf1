use see_augmented::archive::{
    classify, classify_name, find_last, layer_named, parse_number, same_bytes, Entry, Layer,
};

fn entry(stem: &str, extension: &str) -> Entry {
    classify(Some(stem.as_bytes()), Some(extension.as_bytes()))
}

#[test]
fn page_images_are_told_by_their_names() {
    assert_eq!(entry("page-1", "png"), Entry::Image { layer: Some(Layer::Page), page: 1 });
    assert_eq!(entry("thumbnail-12", "png"), Entry::Image { layer: Some(Layer::Thumbnail), page: 12 });
    assert_eq!(
        entry("annotations-local-3", "png"),
        Entry::Image { layer: Some(Layer::AnnotationsLocal), page: 3 }
    );
    assert_eq!(
        entry("annotations-remote-40", "png"),
        Entry::Image { layer: Some(Layer::AnnotationsRemote), page: 40 }
    );
    assert_eq!(entry("page-0", "png"), Entry::Image { layer: Some(Layer::Page), page: 0 });
    assert_eq!(entry("page-+7", "png"), Entry::Image { layer: Some(Layer::Page), page: 7 });
    assert_eq!(entry("page-007", "png"), Entry::Image { layer: Some(Layer::Page), page: 7 });
}

#[test]
fn unknown_layers_still_have_a_page() {
    assert_eq!(entry("cover-2", "png"), Entry::Image { layer: None, page: 2 });
    assert_eq!(entry("-2", "png"), Entry::Image { layer: None, page: 2 });
    assert_eq!(entry("Page-2", "png"), Entry::Image { layer: None, page: 2 });
    assert_eq!(entry("annotations-2", "png"), Entry::Image { layer: None, page: 2 });
    // The stem is cut at its last dash only.
    assert_eq!(entry("page--1", "png"), Entry::Image { layer: None, page: 1 });
}

#[test]
fn images_without_a_page_number() {
    assert_eq!(entry("page", "png"), Entry::Unnumbered);
    assert_eq!(entry("", "png"), Entry::Unnumbered);
    assert_eq!(entry("page-", "png"), Entry::BadPageNumber);
    assert_eq!(entry("page-x", "png"), Entry::BadPageNumber);
    assert_eq!(entry("page-1x", "png"), Entry::BadPageNumber);
    assert_eq!(entry("page-1-", "png"), Entry::BadPageNumber);
    assert_eq!(entry("page-+", "png"), Entry::BadPageNumber);
    assert_eq!(entry("page- 1", "png"), Entry::BadPageNumber);
    assert_eq!(entry("annotations-local", "png"), Entry::BadPageNumber);
    assert_eq!(entry("page-99999999999999999999999999", "png"), Entry::BadPageNumber);
}

#[test]
fn xml_files_are_told_by_their_names() {
    assert_eq!(entry("info", "xml"), Entry::Info);
    assert_eq!(entry("bookmarks", "xml"), Entry::Bookmarks);
    assert_eq!(entry("Info", "xml"), Entry::OtherXml);
    assert_eq!(entry("info-1", "xml"), Entry::OtherXml);
    assert_eq!(entry("", "xml"), Entry::OtherXml);
}

#[test]
fn other_files() {
    assert_eq!(entry("page-1", "jpg"), Entry::OtherExtension);
    assert_eq!(entry("page-1", "PNG"), Entry::OtherExtension);
    assert_eq!(entry("info", ""), Entry::OtherExtension);
    assert_eq!(classify(Some("page-1".as_bytes()), None), Entry::NoExtension);
    assert_eq!(classify(None, Some("png".as_bytes())), Entry::NoStem);
    assert_eq!(classify(None, None), Entry::NoStem);
}

#[test]
fn names_are_split_into_stem_and_extension() {
    assert_eq!(classify_name("page-3.png"), Entry::Image { layer: Some(Layer::Page), page: 3 });
    assert_eq!(
        classify_name("thumbnail-10.png"),
        Entry::Image { layer: Some(Layer::Thumbnail), page: 10 }
    );
    assert_eq!(classify_name("info.xml"), Entry::Info);
    assert_eq!(classify_name("bookmarks.xml"), Entry::Bookmarks);
    assert_eq!(classify_name("notes.xml"), Entry::OtherXml);
    assert_eq!(classify_name("page.png"), Entry::Unnumbered);
    assert_eq!(classify_name("page-x.png"), Entry::BadPageNumber);
    assert_eq!(classify_name("page-1.gif"), Entry::OtherExtension);
    assert_eq!(classify_name("page-1"), Entry::NoExtension);
    assert_eq!(classify_name(".png"), Entry::NoExtension);
    assert_eq!(classify_name(""), Entry::NoStem);
    assert_eq!(classify_name(".."), Entry::NoStem);
    assert_eq!(classify_name("page-1.tar.png"), Entry::BadPageNumber);
}

#[test]
fn numbers_are_read_in_base_ten() {
    assert_eq!(parse_number(b"0"), Some(0));
    assert_eq!(parse_number(b"7"), Some(7));
    assert_eq!(parse_number(b"42"), Some(42));
    assert_eq!(parse_number(b"+42"), Some(42));
    assert_eq!(parse_number(b"0042"), Some(42));
    assert_eq!(parse_number(b""), None);
    assert_eq!(parse_number(b"+"), None);
    assert_eq!(parse_number(b"-1"), None);
    assert_eq!(parse_number(b"++1"), None);
    assert_eq!(parse_number(b"4 2"), None);
    assert_eq!(parse_number(b"42a"), None);
    assert_eq!(parse_number(b"/"), None);
    assert_eq!(parse_number(b":"), None);
}

#[test]
fn numbers_that_do_not_fit_are_none() {
    let largest = usize::MAX.to_string();
    assert_eq!(parse_number(largest.as_bytes()), Some(usize::MAX));
    let mut too_large = largest.clone();
    too_large.push('0');
    assert_eq!(parse_number(too_large.as_bytes()), None);
    let mut one_more: Vec<u8> = largest.into_bytes();
    let last = one_more.len() - 1;
    one_more[last] += 1;
    assert_eq!(parse_number(&one_more), None);
    for text in ["1", "12", "123", "18446744073709551615", "4294967295", "4294967296"] {
        assert_eq!(parse_number(text.as_bytes()), text.parse::<usize>().ok());
    }
}

#[test]
fn last_dash_is_found() {
    assert_eq!(find_last(b"annotations-local-3", b'-'), Some(17));
    assert_eq!(find_last(b"page-1", b'-'), Some(4));
    assert_eq!(find_last(b"-", b'-'), Some(0));
    assert_eq!(find_last(b"page", b'-'), None);
    assert_eq!(find_last(b"", b'-'), None);
    assert_eq!(find_last(b"a-b-", b'-'), Some(3));
}

#[test]
fn bytes_are_compared_one_by_one() {
    assert!(same_bytes(b"", b""));
    assert!(same_bytes(b"page", b"page"));
    assert!(!same_bytes(b"page", b"pages"));
    assert!(!same_bytes(b"page", b"pagf"));
    assert!(!same_bytes(b"qage", b"page"));
    assert_eq!(layer_named(b"page"), Some(Layer::Page));
    assert_eq!(layer_named(b"thumbnail"), Some(Layer::Thumbnail));
    assert_eq!(layer_named(b"annotations-local"), Some(Layer::AnnotationsLocal));
    assert_eq!(layer_named(b"annotations-remote"), Some(Layer::AnnotationsRemote));
    assert_eq!(layer_named(b"annotations"), None);
    assert_eq!(layer_named(b""), None);
}
