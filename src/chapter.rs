use vstd::prelude::*;

use crate::model::{Chapter, ChapterView};
use crate::text::{trim, trimmed};

verus! {

/// The link and the title text of one chapter item found in a page.
#[derive(Debug)]
pub struct ScrapedItem {
    pub link: Option<String>,
    pub title: Option<String>,
}

pub open spec fn text_of(s: Option<String>) -> Option<Seq<char>> {
    match s {
        Some(t) => Some(t@),
        None => None,
    }
}

pub open spec fn pair_of(i: ScrapedItem) -> (Option<Seq<char>>, Option<Seq<char>>) {
    (text_of(i.link), text_of(i.title))
}

/// For each element of the page `html` that matches the selector `item`, in
/// document order: its attribute `attr`, and the text of its first
/// descendant that matches the selector `title`. `None` where a selector
/// does not parse.
pub uninterp spec fn scraped_items(
    html: Seq<char>,
    item: Seq<char>,
    title: Seq<char>,
    attr: Seq<char>,
) -> Option<Seq<(Option<Seq<char>>, Option<Seq<char>>)>>;

/// Relies on `scraper::Html::parse_document`, `scraper::Selector::parse`,
/// `Html::select`, `ElementRef::select` and `ElementRef::text`: the matching
/// elements in document order, each with an attribute and a nested text.
#[verifier::external_body]
fn select_items(html: &str, item: &str, title: &str, attr: &str) -> (r: Option<Vec<ScrapedItem>>)
    ensures
        r matches Some(v) ==> scraped_items(html@, item@, title@, attr@) == Some(
            v@.map_values(|i: ScrapedItem| pair_of(i)),
        ),
        r is None ==> scraped_items(html@, item@, title@, attr@) is None,
{
    let doc = scraper::Html::parse_document(html);
    let (Ok(items), Ok(titles)) = (scraper::Selector::parse(item), scraper::Selector::parse(title))
        else { return None };
    Some(doc.select(&items).map(|e| ScrapedItem {
        link: e.value().attr(attr).map(|s| s.to_string()),
        title: e.select(&titles).next().map(|n| n.text().collect::<String>()),
    }).collect())
}

/// A chapter's display name: its trimmed title, or a placeholder where
/// there is no title or it is blank.
pub open spec fn display_name(title: Option<Seq<char>>) -> Seq<char> {
    match title {
        Some(t) => if trimmed(t).len() > 0 {
            trimmed(t)
        } else {
            "Không rõ tên"@
        },
        None => "Không rõ tên"@,
    }
}

/// The chapters that a list of scraped items describes: one per item that
/// has a link, in order, none of them downloaded.
pub open spec fn chapters_of(items: Seq<(Option<Seq<char>>, Option<Seq<char>>)>) -> Seq<ChapterView>
    decreases items.len(),
{
    if items.len() == 0 {
        Seq::empty()
    } else {
        let last = items.last();
        let before = chapters_of(items.drop_last());
        match last.0 {
            Some(link) => before.push(
                ChapterView { name: display_name(last.1), link, is_download: false },
            ),
            None => before,
        }
    }
}

/// Turns scraped items into chapters, passing over items without a link.
pub fn chapters_from_items(items: &Vec<ScrapedItem>) -> (r: Vec<Chapter>)
    ensures
        r@.map_values(|c: Chapter| c@) == chapters_of(
            items@.map_values(|i: ScrapedItem| pair_of(i)),
        ),
{
    let ghost pairs = items@.map_values(|i: ScrapedItem| pair_of(i));
    let mut out: Vec<Chapter> = Vec::new();
    let mut i: usize = 0;
    while i < items.len()
        invariant
            i <= items.len(),
            pairs == items@.map_values(|i: ScrapedItem| pair_of(i)),
            out@.map_values(|c: Chapter| c@) == chapters_of(pairs.take(i as int)),
        decreases items.len() - i,
    {
        let ghost prefix = pairs.take(i as int + 1);
        assert(prefix.drop_last() =~= pairs.take(i as int));
        assert(prefix.last() == pair_of(items@[i as int]));
        let item = &items[i];
        match &item.link {
            Some(link) => {
                let name = match &item.title {
                    Some(t) => {
                        let trimmed_title = trim(t.as_str());
                        if trimmed_title.as_str().is_empty() {
                            String::from_str("Không rõ tên")
                        } else {
                            trimmed_title
                        }
                    },
                    None => String::from_str("Không rõ tên"),
                };
                out.push(Chapter { name, link: link.clone(), is_download: false });
            },
            None => {},
        }
        i = i + 1;
        assert(out@.map_values(|c: Chapter| c@) =~= chapters_of(pairs.take(i as int)));
    }
    assert(pairs.take(i as int) =~= pairs);
    out
}

/// The chapters listed in a story page: every chapter item that has a link,
/// in document order, named by its trimmed title. Empty where the selectors
/// cannot be parsed.
pub fn extract_chapters_from_html(html: &str) -> (r: Vec<Chapter>)
    ensures
        r@.map_values(|c: Chapter| c@) == match scraped_items(
            html@,
            "a[data-x-bind^=\"ChapterItem\"]"@,
            "div[data-x-text=\"chapter.name\"]"@,
            "href"@,
        ) {
            Some(items) => chapters_of(items),
            None => Seq::empty(),
        },
{
    match select_items(
        html,
        "a[data-x-bind^=\"ChapterItem\"]",
        "div[data-x-text=\"chapter.name\"]",
        "href",
    ) {
        Some(items) => chapters_from_items(&items),
        None => {
            let r: Vec<Chapter> = Vec::new();
            assert(r@.map_values(|c: Chapter| c@) =~= Seq::empty());
            r
        },
    }
}

} // verus!
