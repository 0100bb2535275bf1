//! What the entries of a score archive are, by their names.
//!
//! An archive holds the images of each page as `page-<n>.png`,
//! `thumbnail-<n>.png`, `annotations-local-<n>.png` and
//! `annotations-remote-<n>.png`, with pages counted from one, and beside
//! them `info.xml` and `bookmarks.xml`.

use vstd::prelude::*;
use vstd::string::StringSliceAdditionalSpecFns;

verus! {

/// Which of the images of a page an entry holds.
#[derive(Clone, Copy, Debug, PartialEq, Eq, Structural)]
pub enum Layer {
    Page,
    Thumbnail,
    AnnotationsLocal,
    AnnotationsRemote,
}

/// What an entry of the archive is.
#[derive(Clone, Copy, Debug, PartialEq, Eq, Structural)]
pub enum Entry {
    /// An image of the page with this number. The layer is `None` where the
    /// name before the number is none of the four that are known; room is
    /// made for the page all the same.
    Image { layer: Option<Layer>, page: usize },
    /// `info.xml`: the description of the piece.
    Info,
    /// `bookmarks.xml`: the reader's bookmarks.
    Bookmarks,
    /// An xml file of another name.
    OtherXml,
    /// An image whose name holds no `-`, and so no page number.
    Unnumbered,
    /// An image whose name ends in something that is no page number. A
    /// loader gives up on the archive when it meets one.
    BadPageNumber,
    /// A file that is neither an image nor xml.
    OtherExtension,
    /// A file without an extension.
    NoExtension,
    /// A name without a stem, as a directory has.
    NoStem,
}

/// Whether `i` is the place of the last `byte` in `s`.
pub open spec fn is_last_index_of(s: Seq<u8>, byte: u8, i: int) -> bool {
    &&& 0 <= i < s.len()
    &&& s[i] == byte
    &&& forall|j: int| i < j < s.len() ==> s[j] != byte
}

/// The place of the last `byte` in `s`, or -1 where there is none.
pub open spec fn last_index_of(s: Seq<u8>, byte: u8) -> int
    decreases s.len(),
{
    if s.len() == 0 {
        -1
    } else if s.last() == byte {
        s.len() - 1
    } else {
        last_index_of(s.drop_last(), byte)
    }
}

/// `last_index_of` is the place of the last `byte`, and -1 exactly where
/// `s` holds none.
pub proof fn lemma_last_index_of(s: Seq<u8>, byte: u8)
    ensures
        last_index_of(s, byte) == -1 ==> forall|j: int| 0 <= j < s.len() ==> s[j] != byte,
        last_index_of(s, byte) != -1 ==> is_last_index_of(s, byte, last_index_of(s, byte)),
    decreases s.len(),
{
    if s.len() == 0 {
    } else if s.last() == byte {
        assert(is_last_index_of(s, byte, s.len() - 1));
    } else {
        let shorter = s.drop_last();
        lemma_last_index_of(shorter, byte);
        let at = last_index_of(shorter, byte);
        if at == -1 {
            assert forall|j: int| 0 <= j < s.len() implies s[j] != byte by {
                if j < shorter.len() {
                    assert(shorter[j] == s[j]);
                }
            }
        } else {
            assert(shorter[at] == s[at]);
            assert forall|j: int| at < j < s.len() implies s[j] != byte by {
                if j < shorter.len() {
                    assert(shorter[j] == s[j]);
                }
            }
        }
    }
}

/// Whether `byte` is an ASCII digit.
pub open spec fn is_digit(byte: u8) -> bool {
    48 <= byte <= 57
}

/// The number that a run of digits writes in base ten.
pub open spec fn decimal_value(digits: Seq<u8>) -> nat
    decreases digits.len(),
{
    if digits.len() == 0 {
        0
    } else {
        (decimal_value(digits.drop_last()) * 10 + (digits.last() - 48)) as nat
    }
}

/// Whether every byte of `s` is an ASCII digit.
pub open spec fn all_digits(s: Seq<u8>) -> bool {
    forall|i: int| 0 <= i < s.len() ==> is_digit(#[trigger] s[i])
}

/// `text` without the `+` that may stand before a number.
pub open spec fn unsigned_part(text: Seq<u8>) -> Seq<u8> {
    if text.len() > 0 && text[0] == 43 {
        text.skip(1)
    } else {
        text
    }
}

/// The number that `text` writes: digits, with or without a `+` before
/// them. Nothing else is a number, nor is one that does not fit `usize`.
pub open spec fn number_of(text: Seq<u8>) -> Option<usize> {
    let digits = unsigned_part(text);
    if digits.len() > 0 && all_digits(digits) && decimal_value(digits) <= usize::MAX {
        Some(decimal_value(digits) as usize)
    } else {
        None
    }
}

/// The layer that a name before the page number stands for.
pub open spec fn layer_of(name: Seq<u8>) -> Option<Layer> {
    if name == "page".spec_bytes() {
        Some(Layer::Page)
    } else if name == "thumbnail".spec_bytes() {
        Some(Layer::Thumbnail)
    } else if name == "annotations-local".spec_bytes() {
        Some(Layer::AnnotationsLocal)
    } else if name == "annotations-remote".spec_bytes() {
        Some(Layer::AnnotationsRemote)
    } else {
        None
    }
}

/// What an image with this stem is: the stem is cut at its last `-`, the
/// part behind it is the page number and the part before it the layer.
pub open spec fn image_entry(stem: Seq<u8>) -> Entry {
    let dash = last_index_of(stem, 45);
    if dash == -1 {
        Entry::Unnumbered
    } else {
        match number_of(stem.skip(dash + 1)) {
            None => Entry::BadPageNumber,
            Some(page) => Entry::Image { layer: layer_of(stem.take(dash)), page },
        }
    }
}

/// What an xml file with this stem is.
pub open spec fn xml_entry(stem: Seq<u8>) -> Entry {
    if stem == "info".spec_bytes() {
        Entry::Info
    } else if stem == "bookmarks".spec_bytes() {
        Entry::Bookmarks
    } else {
        Entry::OtherXml
    }
}

/// What an entry is, by the stem and the extension of its name.
pub open spec fn entry_of(stem: Option<Seq<u8>>, extension: Option<Seq<u8>>) -> Entry {
    match stem {
        None => Entry::NoStem,
        Some(stem) => match extension {
            None => Entry::NoExtension,
            Some(extension) => if extension == "png".spec_bytes() {
                image_entry(stem)
            } else if extension == "xml".spec_bytes() {
                xml_entry(stem)
            } else {
                Entry::OtherExtension
            },
        },
    }
}

/// Whether two runs of bytes are the same.
pub fn same_bytes(a: &[u8], b: &[u8]) -> (same: bool)
    ensures
        same == (a@ == b@),
{
    if a.len() != b.len() {
        return false;
    }
    let mut i: usize = 0;
    while i < a.len()
        invariant
            i <= a.len(),
            a.len() == b.len(),
            forall|j: int| 0 <= j < i ==> a@[j] == b@[j],
        decreases a.len() - i,
    {
        if a[i] != b[i] {
            return false;
        }
        i = i + 1;
    }
    assert(a@ =~= b@);
    true
}

/// The place of the last `byte` in `s`, if there is one.
pub fn find_last(s: &[u8], byte: u8) -> (found: Option<usize>)
    ensures
        found is None <==> last_index_of(s@, byte) == -1,
        found matches Some(i) ==> i as int == last_index_of(s@, byte),
        found matches Some(i) ==> is_last_index_of(s@, byte, i as int),
{
    let mut i: usize = s.len();
    assert(s@.take(i as int) =~= s@);
    while i > 0
        invariant
            i <= s.len(),
            last_index_of(s@, byte) == last_index_of(s@.take(i as int), byte),
        decreases i,
    {
        i = i - 1;
        proof {
            assert(s@.take(i + 1).drop_last() =~= s@.take(i as int));
        }
        if s[i] == byte {
            proof {
                assert(s@.take(i + 1).last() == byte);
                lemma_last_index_of(s@, byte);
            }
            return Some(i);
        }
        assert(s@.take(i + 1).last() != byte);
    }
    assert(s@.take(0).len() == 0);
    None
}

proof fn lemma_decimal_value_grows(digits: Seq<u8>, n: int)
    requires
        0 <= n <= digits.len(),
        all_digits(digits),
    ensures
        decimal_value(digits.take(n)) <= decimal_value(digits),
    decreases digits.len() - n,
{
    if n < digits.len() {
        assert(digits.take(n + 1).drop_last() =~= digits.take(n));
        assert(digits.take(n + 1).last() == digits[n]);
        lemma_decimal_value_grows(digits, n + 1);
    } else {
        assert(digits.take(n) =~= digits);
    }
}

/// Reads a number in base ten, with or without a `+` before its digits.
pub fn parse_number(text: &[u8]) -> (number: Option<usize>)
    ensures
        number == number_of(text@),
{
    let first: usize = if text.len() > 0 && text[0] == 43 {
        1
    } else {
        0
    };
    let ghost digits = unsigned_part(text@);
    proof {
        assert(text@.skip(0) =~= text@);
        assert(digits == text@.skip(first as int));
    }
    if first == text.len() {
        return None;
    }
    let mut value: usize = 0;
    let mut i: usize = first;
    while i < text.len()
        invariant
            first <= i <= text.len(),
            digits == text@.skip(first as int),
            digits == unsigned_part(text@),
            all_digits(digits.take(i - first)),
            value == decimal_value(digits.take(i - first)),
        decreases text.len() - i,
    {
        let byte: u8 = text[i];
        assert(byte == digits[i - first]);
        if byte < 48 || byte > 57 {
            assert(!is_digit(digits[i - first]));
            return None;
        }
        proof {
            assert(digits.take(i - first + 1).drop_last() =~= digits.take(i - first));
            assert(digits.take(i - first + 1).last() == byte);
            assert forall|j: int| 0 <= j < i - first + 1 implies is_digit(
                #[trigger] digits.take(i - first + 1)[j],
            ) by {
                if j < i - first {
                    assert(digits.take(i - first)[j] == digits.take(i - first + 1)[j]);
                }
            }
        }
        let digit: usize = (byte - 48) as usize;
        let scaled: Option<usize> = value.checked_mul(10);
        let next: Option<usize> = match scaled {
            Some(scaled) => scaled.checked_add(digit),
            None => None,
        };
        match next {
            Some(next) => {
                value = next;
            },
            None => {
                proof {
                    // The digits read so far write a number that is too
                    // large already. Were the rest digits too, the whole
                    // would be larger still.
                    if all_digits(digits) {
                        lemma_decimal_value_grows(digits, i - first + 1);
                    }
                }
                return None;
            },
        }
        i = i + 1;
    }
    proof {
        assert(digits.take(i - first) =~= digits);
        assert(digits.len() > 0);
    }
    Some(value)
}

/// The layer that a name before the page number stands for.
pub fn layer_named(name: &[u8]) -> (layer: Option<Layer>)
    ensures
        layer == layer_of(name@),
{
    if same_bytes(name, "page".as_bytes()) {
        Some(Layer::Page)
    } else if same_bytes(name, "thumbnail".as_bytes()) {
        Some(Layer::Thumbnail)
    } else if same_bytes(name, "annotations-local".as_bytes()) {
        Some(Layer::AnnotationsLocal)
    } else if same_bytes(name, "annotations-remote".as_bytes()) {
        Some(Layer::AnnotationsRemote)
    } else {
        None
    }
}

/// What an entry is, by the stem and the extension of its name.
pub fn classify(stem: Option<&[u8]>, extension: Option<&[u8]>) -> (entry: Entry)
    ensures
        entry == entry_of(
            match stem {
                Some(s) => Some(s@),
                None => None,
            },
            match extension {
                Some(e) => Some(e@),
                None => None,
            },
        ),
{
    let stem: &[u8] = match stem {
        Some(stem) => stem,
        None => {
            return Entry::NoStem;
        },
    };
    let extension: &[u8] = match extension {
        Some(extension) => extension,
        None => {
            return Entry::NoExtension;
        },
    };
    if same_bytes(extension, "png".as_bytes()) {
        let found: Option<usize> = find_last(stem, 45);
        match found {
            None => Entry::Unnumbered,
            Some(dash) => {
                let length: usize = stem.len();
                let name: &[u8] = vstd::slice::slice_subrange(stem, 0, dash);
                let number: &[u8] = vstd::slice::slice_subrange(stem, dash + 1, length);
                assert(name@ =~= stem@.take(dash as int));
                assert(number@ =~= stem@.skip(dash + 1));
                match parse_number(number) {
                    None => Entry::BadPageNumber,
                    Some(page) => Entry::Image { layer: layer_named(name), page },
                }
            },
        }
    } else if same_bytes(extension, "xml".as_bytes()) {
        if same_bytes(stem, "info".as_bytes()) {
            Entry::Info
        } else if same_bytes(stem, "bookmarks".as_bytes()) {
            Entry::Bookmarks
        } else {
            Entry::OtherXml
        }
    } else {
        Entry::OtherExtension
    }
}

/// `std::path::Path::file_stem` of a name: the name of the file without
/// its extension, where the name has a file part. How a name splits into
/// directories differs from system to system, so nothing is claimed of it.
#[verifier::external_body]
fn name_stem(name: &str) -> (stem: Option<String>) {
    std::path::Path::new(name).file_stem().and_then(|stem| stem.to_str()).map(|stem| stem.to_owned())
}

/// `std::path::Path::extension` of a name: what follows the last dot of the
/// file part, where there is one. Nothing is claimed of it, as of the stem.
#[verifier::external_body]
fn name_extension(name: &str) -> (extension: Option<String>) {
    std::path::Path::new(name).extension().and_then(|ext| ext.to_str()).map(|ext| ext.to_owned())
}

/// What the archive entry of this name is. The name is split into stem and
/// extension as the system splits a path; what they stand for is told by
/// `classify`.
pub fn classify_name(name: &str) -> (entry: Entry)
    ensures
        exists|stem: Option<Seq<u8>>, extension: Option<Seq<u8>>|
            entry == #[trigger] entry_of(stem, extension),
{
    let stem: Option<String> = name_stem(name);
    let extension: Option<String> = name_extension(name);
    let stem_bytes: Option<&[u8]> = match &stem {
        Some(stem) => Some(stem.as_str().as_bytes()),
        None => None,
    };
    let extension_bytes: Option<&[u8]> = match &extension {
        Some(extension) => Some(extension.as_str().as_bytes()),
        None => None,
    };
    classify(stem_bytes, extension_bytes)
}

} // verus!
