use vstd::prelude::*;

use epub_builder::{EpubBuilder, ZipLibrary};

use crate::epub::{extension, extension_of, EpubMetadata};
use crate::text::string_of;

verus! {

#[verifier::external_type_specification]
#[verifier::external_body]
pub struct ExEpubError(epub_builder::Error);

/// Why a book could not be packaged.
#[derive(Debug)]
pub enum BookError {
    /// The book has no chapter.
    NoChapters,
    /// The packaging library refused a part of the book.
    Packaging(epub_builder::Error),
}

/// One chapter as it goes into the book: its display title and its page.
#[derive(Debug)]
pub struct BookChapter {
    pub title: String,
    pub page: String,
}

/// A chapter's page with the file name it has in the book.
#[derive(Debug)]
pub struct BookPage {
    pub file_name: String,
    pub title: String,
    pub page: String,
}

/// The style sheet of every book.
pub const BOOK_CSS: &'static str = "\np {\n    text-indent: 1.5em;\n    margin-top: 0;\n    margin-bottom: 1em;\n    line-height: 1.6;\n}\np.first-line {\n    text-indent: 0;\n}\n";

/// The decimal digit for a value below ten.
pub open spec fn digit(d: nat) -> char {
    ((d + 48) as u8) as char
}

/// The decimal numeral of `n`, without leading zeros.
pub open spec fn decimal(n: nat) -> Seq<char>
    decreases n,
{
    if n < 10 {
        seq![digit(n)]
    } else {
        decimal(n / 10).push(digit(n % 10))
    }
}

/// The name of the page file of the chapter at `index`.
pub open spec fn page_file_name(index: nat) -> Seq<char> {
    "chapter_"@ + decimal(index) + ".xhtml"@
}

fn decimal_string(n: usize) -> (r: Vec<char>)
    ensures
        r@ == decimal(n as nat),
    decreases n,
{
    let d = (n % 10) as u8;
    let c = (d + 48) as char;
    if n < 10 {
        let mut r: Vec<char> = Vec::new();
        r.push(c);
        r
    } else {
        let mut r = decimal_string(n / 10);
        r.push(c);
        r
    }
}

/// The page file name of the chapter at `index`: `chapter_<index>.xhtml`.
pub fn chapter_file_name(index: usize) -> (r: String)
    ensures
        r@ == page_file_name(index as nat),
{
    let digits = string_of(&decimal_string(index));
    let mut r = String::from_str("chapter_");
    r.append(digits.as_str());
    r.append(".xhtml");
    r
}

/// The pages of a book, each named by its position.
pub open spec fn named_pages(chapters: Seq<BookChapter>, pages: Seq<BookPage>) -> bool {
    &&& pages.len() == chapters.len()
    &&& forall|i: int|
        0 <= i < chapters.len() ==> {
            &&& (#[trigger] pages[i]).file_name@ == page_file_name(i as nat)
            &&& pages[i].title == chapters[i].title
            &&& pages[i].page == chapters[i].page
        }
}

/// Names each chapter's page file by its position in the book.
pub fn name_pages(chapters: Vec<BookChapter>) -> (r: Vec<BookPage>)
    ensures
        named_pages(chapters@, r@),
{
    let ghost original = chapters@;
    let mut chapters = chapters;
    let mut rev: Vec<BookPage> = Vec::new();
    while chapters.len() > 0
        invariant
            chapters@.len() + rev@.len() == original.len(),
            chapters@ == original.take(chapters@.len() as int),
            forall|j: int|
                0 <= j < rev@.len() ==> {
                    let k = original.len() - 1 - j;
                    &&& (#[trigger] rev@[j]).file_name@ == page_file_name(k as nat)
                    &&& rev@[j].title == original[k].title
                    &&& rev@[j].page == original[k].page
                },
        decreases chapters.len(),
    {
        let c = chapters.pop().unwrap();
        let index = chapters.len();
        let file_name = chapter_file_name(index);
        rev.push(BookPage { file_name, title: c.title, page: c.page });
        assert(chapters@ =~= original.take(chapters@.len() as int));
    }
    let mut pages: Vec<BookPage> = Vec::new();
    while rev.len() > 0
        invariant
            pages@.len() + rev@.len() == original.len(),
            forall|j: int|
                0 <= j < rev@.len() ==> {
                    let k = original.len() - 1 - j;
                    &&& (#[trigger] rev@[j]).file_name@ == page_file_name(k as nat)
                    &&& rev@[j].title == original[k].title
                    &&& rev@[j].page == original[k].page
                },
            forall|i: int|
                0 <= i < pages@.len() ==> {
                    &&& (#[trigger] pages@[i]).file_name@ == page_file_name(i as nat)
                    &&& pages@[i].title == original[i].title
                    &&& pages@[i].page == original[i].page
                },
        decreases rev.len(),
    {
        let p = rev.pop().unwrap();
        pages.push(p);
    }
    pages
}

/// The fixed parts of a book besides its chapters: the style sheet and the
/// cover, each with its path in the book and its media type.
#[derive(Debug)]
pub struct BookParts {
    pub css_path: String,
    pub css: String,
    pub css_type: String,
    pub cover_path: String,
    pub cover_type: String,
}

/// Whether a cover file is a JPEG image, by its extension.
pub open spec fn is_jpeg(image_link: Seq<char>) -> bool {
    extension_of(image_link) == Some("jpg"@) || extension_of(image_link) == Some("jpeg"@)
        || extension_of(image_link) == Some("JPG"@) || extension_of(image_link) == Some("JPEG"@)
}

/// The style sheet and the cover of a book whose cover image is read from
/// `image_link`: a JPEG cover goes in as `cover.jpg`, any other as
/// `cover.png`.
pub fn book_parts(image_link: &str) -> (r: BookParts)
    ensures
        r.css_path@ == "style.css"@,
        r.css@ == BOOK_CSS@,
        r.css_type@ == "text/css"@,
        is_jpeg(image_link@) ==> r.cover_path@ == "cover.jpg"@ && r.cover_type@ == "image/jpeg"@,
        !is_jpeg(image_link@) ==> r.cover_path@ == "cover.png"@ && r.cover_type@ == "image/png"@,
{
    let jpeg = match extension(image_link) {
        Some(e) => {
            e == String::from_str("jpg") || e == String::from_str("jpeg") || e == String::from_str(
                "JPG",
            ) || e == String::from_str("JPEG")
        },
        None => false,
    };
    let (cover_path, cover_type) = if jpeg {
        (String::from_str("cover.jpg"), String::from_str("image/jpeg"))
    } else {
        (String::from_str("cover.png"), String::from_str("image/png"))
    };
    BookParts {
        css_path: String::from_str("style.css"),
        css: String::from_str(BOOK_CSS),
        css_type: String::from_str("text/css"),
        cover_path,
        cover_type,
    }
}

/// Relies on `ZipLibrary::new`, `EpubBuilder::new`, `metadata`,
/// `add_resource`, `add_cover_image`, `inline_toc`, `EpubContent::new` and
/// `EpubBuilder::add_content` and `generate`: the bytes of the packaged
/// book, with its pages in the order given.
#[verifier::external_body]
fn generate_epub(meta: &EpubMetadata, parts: &BookParts, cover: Vec<u8>, pages: &Vec<BookPage>) -> (r:
    Result<Vec<u8>, epub_builder::Error>) {
    let mut b = EpubBuilder::new(ZipLibrary::new()?)?;
    b.metadata("author", meta.author.as_str())?.metadata("title", meta.title.as_str())?;
    b.add_resource(&parts.css_path, std::io::Cursor::new(parts.css.as_bytes()), &parts.css_type)?;
    b.add_cover_image(&parts.cover_path, std::io::Cursor::new(cover), &parts.cover_type)?.inline_toc();
    for p in pages {
        let c = epub_builder::EpubContent::new(p.file_name.as_str(), p.page.as_bytes());
        b.add_content(c.title(p.title.as_str()).reftype(epub_builder::ReferenceType::Text))?;
    }
    let mut out: Vec<u8> = Vec::new();
    b.generate(&mut out).map(|_| out)
}

/// Packages the chapters, in order, into an e-book with the metadata's
/// author and title, the book style sheet and the cover image read from the
/// metadata's image link. A book without chapters is refused.
pub fn package_book(metadata: &EpubMetadata, cover: Vec<u8>, chapters: Vec<BookChapter>) -> (r:
    Result<Vec<u8>, BookError>)
    ensures
        chapters.len() == 0 <==> r matches Err(BookError::NoChapters),
{
    if chapters.len() == 0 {
        return Err(BookError::NoChapters);
    }
    let pages = name_pages(chapters);
    let parts = book_parts(metadata.image_link.as_str());
    match generate_epub(metadata, &parts, cover, &pages) {
        Ok(bytes) => Ok(bytes),
        Err(e) => Err(BookError::Packaging(e)),
    }
}

} // verus!
