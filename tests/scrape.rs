use download_mtc::chapter::{chapters_from_items, extract_chapters_from_html, ScrapedItem};
use download_mtc::cookies::{create_cookies, load_credentials};

#[test]
fn chapters_from_page() {
    let html = r#"<html><body>
        <a data-x-bind="ChapterItem(1)" href="https://x/c1"><div data-x-text="chapter.name">  Chương 1 </div></a>
        <a data-x-bind="ChapterItem(2)"><div data-x-text="chapter.name">No link</div></a>
        <a data-x-bind="ChapterItem(3)" href="https://x/c3"><div data-x-text="chapter.name">   </div></a>
        <a data-x-bind="ChapterItem(4)" href="https://x/c4"></a>
        <a data-x-bind="Other" href="https://x/other">x</a>
    </body></html>"#;
    let chapters = extract_chapters_from_html(html);
    let got: Vec<(String, String, bool)> =
        chapters.into_iter().map(|c| (c.name, c.link, c.is_download)).collect();
    assert_eq!(
        got,
        vec![
            ("Chương 1".to_string(), "https://x/c1".to_string(), false),
            ("Không rõ tên".to_string(), "https://x/c3".to_string(), false),
            ("Không rõ tên".to_string(), "https://x/c4".to_string(), false),
        ]
    );
}

#[test]
fn items_without_link_are_dropped() {
    let items = vec![
        ScrapedItem { link: None, title: Some("A".to_string()) },
        ScrapedItem { link: Some("l".to_string()), title: Some(" B ".to_string()) },
    ];
    let chapters = chapters_from_items(&items);
    assert_eq!(chapters.len(), 1);
    assert_eq!(chapters[0].name, "B");
    assert_eq!(chapters[0].link, "l");
}

#[test]
fn missing_credential_is_named() {
    let r = load_credentials(Some("a".into()), None, Some("x".into()), None);
    assert_eq!(r.unwrap_err().key, "me_truyen_chu_session");
    let r = load_credentials(Some("a".into()), Some("s".into()), Some("x".into()), None);
    assert_eq!(r.unwrap_err().key, "cf_clearance");
    let r = load_credentials(None, None, None, None);
    assert_eq!(r.unwrap_err().key, "accessToken");
}

#[test]
fn cookies_for_url() {
    let creds =
        load_credentials(Some("a".into()), Some("s".into()), Some("x".into()), Some("c".into()))
            .unwrap();
    let cookies = create_cookies(&creds, "https://site/p");
    let got: Vec<(&str, &str)> =
        cookies.iter().map(|c| (c.name.as_str(), c.value.as_str())).collect();
    assert_eq!(
        got,
        vec![("accessToken", "a"), ("me_truyen_chu_session", "s"), ("XSRF-TOKEN", "x"), ("cf_clearance", "c")]
    );
    assert!(cookies.iter().all(|c| c.url == "https://site/p" && c.path == "/" && c.secure));
}
