use download_mtc::book::{book_parts, chapter_file_name, name_pages, package_book, BookChapter, BookError};
use download_mtc::epub::{chapter_page, choose_input, order_chapter_files, prompt_with_default, EpubMetadata};
use download_mtc::title::extract_chapter_title;

#[test]
fn natural_order_of_chapter_files() {
    let names = vec![
        "chapter_2.md".to_string(),
        "chapter_10.md".to_string(),
        "chapter_1.md".to_string(),
        "notes.txt".to_string(),
    ];
    assert_eq!(order_chapter_files(names), vec!["chapter_1.md", "chapter_2.md", "chapter_10.md"]);
}

#[test]
fn only_md_files_are_kept() {
    let names = vec![".md".to_string(), "a.md.bak".to_string(), "b.MD".to_string(), "c.md".to_string()];
    assert_eq!(order_chapter_files(names), vec!["c.md"]);
}

#[test]
fn title_from_underscored_stem() {
    assert_eq!(extract_chapter_title("download/chapter_1.md"), "chapter:1");
}

#[test]
fn title_gets_colon_after_chapter_word() {
    assert_eq!(extract_chapter_title("download/Chương 1_ Mở đầu_.md"), "Chương: 1: Mở đầu:");
    assert_eq!(extract_chapter_title("CHương 2.md"), "CHương: 2");
}

#[test]
fn title_without_chapter_word_is_kept() {
    assert_eq!(extract_chapter_title("Phần 3.md"), "Phần 3");
    assert_eq!(extract_chapter_title("Chương.md"), "Chương");
}

#[test]
fn title_commas_and_spaces_trimmed() {
    assert_eq!(extract_chapter_title(",, Intro ,.md"), "Intro");
}

#[test]
fn title_of_path_without_file_name() {
    assert_eq!(extract_chapter_title(""), "Chương: không rõ");
}

#[test]
fn page_has_one_paragraph_per_line() {
    let page = chapter_page("T", "  first  \n\n \r\nsecond\r\n");
    let expected = "<?xml version='1.0' encoding='utf-8'?>\n<html xmlns=\"http://www.w3.org/1999/xhtml\" xmlns:epub=\"http://www.idpf.org/2007/ops\">\n  <head>\n    <title>T</title>\n    <link rel=\"stylesheet\" type=\"text/css\" href=\"style.css\"/>\n    <meta http-equiv=\"Content-Type\" content=\"text/html; charset=utf-8\"/>\n  </head>\n  <body>\n<p>first</p>\n<p>second</p>\n</body></html>";
    assert_eq!(page, expected);
}

#[test]
fn page_of_empty_text() {
    let page = chapter_page("", "");
    assert!(page.ends_with("<body>\n</body></html>"));
}

#[test]
fn blank_answer_takes_default() {
    assert_eq!(choose_input("  \n", "cover.png"), "cover.png");
    assert_eq!(choose_input(" art.png \n", "cover.png"), "art.png");
}

#[test]
fn metadata_defaults() {
    let m = EpubMetadata::default();
    assert_eq!(m.title, "");
    assert_eq!(m.author, "");
    assert_eq!(m.image_link, "cover.png");
    assert_eq!(m.folder_path, "./download");
}

#[test]
fn page_file_names_follow_position() {
    assert_eq!(chapter_file_name(0), "chapter_0.xhtml");
    assert_eq!(chapter_file_name(10), "chapter_10.xhtml");
    assert_eq!(chapter_file_name(305), "chapter_305.xhtml");
    let chapters = vec![
        BookChapter { title: "A".to_string(), page: "pa".to_string() },
        BookChapter { title: "B".to_string(), page: "pb".to_string() },
    ];
    let pages = name_pages(chapters);
    let got: Vec<(&str, &str, &str)> =
        pages.iter().map(|p| (p.file_name.as_str(), p.title.as_str(), p.page.as_str())).collect();
    assert_eq!(got, vec![("chapter_0.xhtml", "A", "pa"), ("chapter_1.xhtml", "B", "pb")]);
}

#[test]
fn book_without_chapters_is_refused() {
    let r = package_book(&EpubMetadata::default(), vec![1, 2, 3], Vec::new());
    assert!(matches!(r, Err(BookError::NoChapters)));
}

#[test]
fn book_is_packaged_as_zip() {
    let mut meta = EpubMetadata::default();
    meta.title = "T".to_string();
    meta.author = "A".to_string();
    let page = chapter_page("One", "text");
    let chapters = vec![BookChapter { title: "One".to_string(), page }];
    let bytes = package_book(&meta, vec![0x89, b'P', b'N', b'G'], chapters).unwrap();
    assert_eq!(&bytes[0..2], b"PK");
}

#[test]
fn prompt_shows_default() {
    assert_eq!(prompt_with_default("Enter image link", "cover.png"), "Enter image link [cover.png]: ");
    assert_eq!(prompt_with_default("Enter folder path", "./download"), "Enter folder path [./download]: ");
}

#[test]
fn metadata_from_typed_lines() {
    let m = EpubMetadata::metadata_from_answers("My Book\n", "  Me \n", "\n", "/tmp/x\n");
    assert_eq!(m.title, "My Book");
    assert_eq!(m.author, "Me");
    assert_eq!(m.image_link, "cover.png");
    assert_eq!(m.folder_path, "/tmp/x");
}

#[test]
fn metadata_at_end_of_input_is_default() {
    let m = EpubMetadata::metadata_from_answers("", "", "", "");
    assert_eq!(m.title, "");
    assert_eq!(m.author, "");
    assert_eq!(m.image_link, "cover.png");
    assert_eq!(m.folder_path, "./download");
}

#[test]
fn cover_type_follows_extension() {
    let jpeg = book_parts("art/front.jpg");
    assert_eq!((jpeg.cover_path.as_str(), jpeg.cover_type.as_str()), ("cover.jpg", "image/jpeg"));
    let png = book_parts("cover.png");
    assert_eq!((png.cover_path.as_str(), png.cover_type.as_str()), ("cover.png", "image/png"));
    assert_eq!(png.css_path, "style.css");
    assert_eq!(png.css_type, "text/css");
    assert!(png.css.contains("text-indent: 1.5em;"));
}
