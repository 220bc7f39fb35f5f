use download_mtc::download::{DownloadSession, Fetch, Step};
use download_mtc::model::Chapter;

fn chapter(name: &str, link: &str, done: bool) -> Chapter {
    let mut c = Chapter::new(name.to_string(), link.to_string());
    c.is_download = done;
    c
}

#[test]
fn end_to_end_skip_success_failure() {
    let list = vec![
        chapter("One", "https://x/1", true),
        chapter("Two", "https://x/2", false),
        chapter("Three", "https://x/3", false),
    ];
    let mut session = DownloadSession::new(list);
    let mut files = Vec::new();
    let mut visited = Vec::new();
    let mut persisted = 0;
    loop {
        match session.next_step() {
            Step::Skip { .. } => session.skip(),
            Step::Crawl { index, .. } => {
                visited.push(index);
                let fetch = if index == 1 {
                    Fetch::Evaluated(Some("\"Text of two.\"".to_string()))
                } else {
                    Fetch::NavigationFailed
                };
                let outcome = session.record(fetch);
                if let Some(saved) = outcome.saved {
                    files.push((saved.file_name, saved.text));
                    persisted += 1;
                }
            }
            Step::Finished { total } => {
                assert_eq!(total, 3);
                break;
            }
        }
    }
    assert_eq!(visited, vec![1, 2]);
    assert_eq!(files, vec![("download/Two.md".to_string(), "Text of two.".to_string())]);
    assert_eq!(persisted, 1);
    assert_eq!(session.saves(), 1);
    let flags: Vec<bool> = session.chapters().iter().map(|c| c.is_download).collect();
    assert_eq!(flags, vec![true, true, false]);
}

#[test]
fn downloaded_entries_are_skipped() {
    let list = vec![chapter("A", "l1", true), chapter("B", "l2", true)];
    let mut session = DownloadSession::new(list);
    assert_eq!(session.next_step(), Step::Skip { index: 0, total: 2 });
    session.skip();
    assert_eq!(session.next_step(), Step::Skip { index: 1, total: 2 });
    session.skip();
    assert_eq!(session.next_step(), Step::Finished { total: 2 });
    assert_eq!(session.saves(), 0);
    let out = session.into_chapters();
    assert!(out.iter().all(|c| c.is_download));
}

#[test]
fn order_and_names_are_kept() {
    let list = vec![chapter("A", "l1", false), chapter("B", "l2", false), chapter("C", "l3", true)];
    let mut session = DownloadSession::new(list);
    session.record(Fetch::ContentMissing);
    session.record(Fetch::Evaluated(Some("'body'".to_string())));
    session.skip();
    let out = session.into_chapters();
    let names: Vec<&str> = out.iter().map(|c| c.name.as_str()).collect();
    let links: Vec<&str> = out.iter().map(|c| c.link.as_str()).collect();
    assert_eq!(names, vec!["A", "B", "C"]);
    assert_eq!(links, vec!["l1", "l2", "l3"]);
    let flags: Vec<bool> = out.iter().map(|c| c.is_download).collect();
    assert_eq!(flags, vec![false, true, true]);
}

#[test]
fn pause_follows_every_reached_page() {
    let list = vec![
        chapter("A", "l1", false),
        chapter("B", "l2", false),
        chapter("C", "l3", false),
    ];
    let mut session = DownloadSession::new(list);
    let a = session.record(Fetch::NavigationFailed);
    assert!(!a.pause && a.saved.is_none());
    let b = session.record(Fetch::ContentMissing);
    assert!(b.pause && b.saved.is_none());
    let c = session.record(Fetch::Evaluated(None));
    assert!(c.pause && c.saved.is_none());
    assert_eq!(session.saves(), 0);
    assert_eq!(session.next_step(), Step::Finished { total: 3 });
}

#[test]
fn saved_file_name_is_sanitized() {
    let list = vec![chapter("Chương 1: Mở đầu!", "l", false)];
    let mut session = DownloadSession::new(list);
    let out = session.record(Fetch::Evaluated(Some("XHello.\\n\\n\\nWorld.X".to_string())));
    let saved = out.saved.unwrap();
    assert_eq!(saved.file_name, "download/Chương 1_ Mở đầu_.md");
    assert_eq!(saved.text, "Hello.\nWorld.");
}

#[test]
fn empty_list_finishes_at_once() {
    let session = DownloadSession::new(Vec::new());
    assert_eq!(session.next_step(), Step::Finished { total: 0 });
}
