use vstd::prelude::*;

use crate::content::{format_content, formatted};
use crate::model::{Chapter, ChapterView};
use crate::text::{chars_of, string_of};

verus! {

/// Whether `char::is_alphanumeric` holds of a character.
pub uninterp spec fn alphanumeric(c: char) -> bool;

/// Relies on `char::is_alphanumeric`: alphabetic or numeric in Unicode.
#[verifier::external_body]
fn is_alphanumeric(c: char) -> (r: bool)
    ensures
        r == alphanumeric(c),
{
    c.is_alphanumeric()
}

/// A character kept in a file name, or `_` in its place.
pub open spec fn file_char(c: char) -> char {
    if alphanumeric(c) || c == ' ' {
        c
    } else {
        '_'
    }
}

/// The file path, without extension, under which a chapter's text is saved.
pub open spec fn sanitized(name: Seq<char>) -> Seq<char> {
    "download/"@ + name.map_values(|c: char| file_char(c))
}

/// The file that holds a chapter's text.
pub open spec fn file_name_of(name: Seq<char>) -> Seq<char> {
    sanitized(name) + ".md"@
}

/// Maps a chapter name to a path under `download/`: every character that is
/// neither alphanumeric nor a space becomes `_`.
pub fn sanitize_filename(name: &str) -> (r: String)
    ensures
        r@ == sanitized(name@),
{
    let cs = chars_of(name);
    let mut out: Vec<char> = Vec::new();
    let mut i: usize = 0;
    while i < cs.len()
        invariant
            cs@ == name@,
            i <= cs.len(),
            out@ == cs@.take(i as int).map_values(|c: char| file_char(c)),
        decreases cs.len() - i,
    {
        let c = cs[i];
        if is_alphanumeric(c) || c == ' ' {
            out.push(c);
        } else {
            out.push('_');
        }
        i = i + 1;
        assert(out@ =~= cs@.take(i as int).map_values(|c: char| file_char(c)));
    }
    assert(cs@.take(i as int) =~= cs@);
    let tail = string_of(&out);
    let mut r = String::from_str("download/");
    r.append(tail.as_str());
    r
}

/// How far a download run has come: the chapter list, the position of the
/// next chapter to look at, and how many times the list has been saved.
pub ghost struct Progress {
    pub entries: Seq<ChapterView>,
    pub next: nat,
    pub saves: nat,
}

/// What the run does next.
#[derive(Debug, PartialEq, Eq, Structural)]
pub enum Step {
    /// The chapter at `index` is already saved: it is passed over.
    Skip { index: usize, total: usize },
    /// The chapter at `index` is to be fetched.
    Crawl { index: usize, total: usize },
    /// Every chapter has been looked at.
    Finished { total: usize },
}

/// What fetching a chapter gave.
#[derive(Debug)]
pub enum Fetch {
    /// The page could not be opened.
    NavigationFailed,
    /// The page holds no chapter text.
    ContentMissing,
    /// The text query ran; it gave the text, or no value.
    Evaluated(Option<String>),
}

/// A chapter's text and the file it goes to.
#[derive(Debug)]
pub struct SavedChapter {
    pub file_name: String,
    pub text: String,
}

/// What to do after a fetch: write a file and save the list, and whether to
/// pause before the next chapter.
#[derive(Debug)]
pub struct CrawlOutcome {
    pub saved: Option<SavedChapter>,
    pub pause: bool,
}

/// The chapter text that a fetch gave, if any.
pub open spec fn fetched_text(f: Fetch) -> Option<Seq<char>> {
    match f {
        Fetch::Evaluated(Some(s)) => Some(s@),
        _ => None,
    }
}

impl Progress {
    pub open spec fn wf(self) -> bool {
        self.next <= self.entries.len()
    }

    pub open spec fn finished(self) -> bool {
        self.next >= self.entries.len()
    }

    pub open spec fn current(self) -> ChapterView {
        self.entries[self.next as int]
    }

    /// The step that the run takes from here.
    pub open spec fn step(self) -> Step {
        if self.finished() {
            Step::Finished { total: self.entries.len() as usize }
        } else if self.current().is_download {
            Step::Skip { index: self.next as usize, total: self.entries.len() as usize }
        } else {
            Step::Crawl { index: self.next as usize, total: self.entries.len() as usize }
        }
    }

    /// Passing over the current chapter.
    pub open spec fn skipped(self) -> Progress {
        Progress { next: self.next + 1, ..self }
    }

    /// Fetching the current chapter: with text, it is marked as saved and the
    /// list is saved once; without, nothing but the position changes.
    pub open spec fn crawled(self, text: Option<Seq<char>>) -> Progress {
        match text {
            Some(_) => Progress {
                entries: self.entries.update(
                    self.next as int,
                    ChapterView { is_download: true, ..self.current() },
                ),
                next: self.next + 1,
                saves: self.saves + 1,
            },
            None => Progress { next: self.next + 1, ..self },
        }
    }
}

/// The texts that successive fetches give, in order.
pub type FetchedTexts = Seq<Option<Seq<char>>>;

/// The progress after a whole run from `p`, where each chapter fetched gets
/// the next of `texts`; the run stops early when `texts` runs out.
pub open spec fn run(p: Progress, texts: FetchedTexts) -> Progress
    decreases p.entries.len() - p.next,
{
    if p.finished() {
        p
    } else if p.current().is_download {
        run(p.skipped(), texts)
    } else if texts.len() == 0 {
        p
    } else {
        run(p.crawled(texts[0]), texts.drop_first())
    }
}

/// The positions of the chapters that a run from `p` fetches, in order.
pub open spec fn visits(p: Progress, texts: FetchedTexts) -> Seq<int>
    decreases p.entries.len() - p.next,
{
    if p.finished() {
        Seq::empty()
    } else if p.current().is_download {
        visits(p.skipped(), texts)
    } else if texts.len() == 0 {
        Seq::empty()
    } else {
        seq![p.next as int] + visits(p.crawled(texts[0]), texts.drop_first())
    }
}

/// A resumable download run over a chapter list.
pub struct DownloadSession {
    chapters: Vec<Chapter>,
    next: usize,
    saves: usize,
}

impl View for DownloadSession {
    type V = Progress;

    closed spec fn view(&self) -> Progress {
        Progress {
            entries: self.chapters@.map_values(|c: Chapter| c@),
            next: self.next as nat,
            saves: self.saves as nat,
        }
    }
}

impl DownloadSession {
    /// Starts a run at the first chapter.
    pub fn new(chapters: Vec<Chapter>) -> (r: DownloadSession)
        ensures
            r.wf(),
            r@.entries == chapters@.map_values(|c: Chapter| c@),
            r@.next == 0,
            r@.saves == 0,
    {
        DownloadSession { chapters, next: 0, saves: 0 }
    }

    pub closed spec fn fits(&self) -> bool {
        self.saves <= self.next <= self.chapters.len()
    }

    /// The well-formed states: the position is within the list.
    pub open spec fn wf(&self) -> bool {
        self.fits() && self@.wf()
    }

    /// The chapter list as it stands.
    pub fn chapters(&self) -> (r: &Vec<Chapter>)
        ensures
            r@.map_values(|c: Chapter| c@) == self@.entries,
    {
        &self.chapters
    }

    /// The number of times the list has been saved in this run.
    pub fn saves(&self) -> (r: usize)
        ensures
            r == self@.saves,
    {
        self.saves
    }

    /// The step that the run takes next.
    pub fn next_step(&self) -> (r: Step)
        requires
            self.wf(),
        ensures
            r == self@.step(),
    {
        let total = self.chapters.len();
        if self.next >= total {
            Step::Finished { total }
        } else if self.chapters[self.next].is_download {
            Step::Skip { index: self.next, total }
        } else {
            Step::Crawl { index: self.next, total }
        }
    }

    /// Passes over the current chapter, which is already saved.
    pub fn skip(&mut self)
        requires
            old(self).wf(),
            old(self)@.step() is Skip,
        ensures
            final(self).wf(),
            final(self)@ == old(self)@.skipped(),
    {
        self.next = self.next + 1;
    }

    /// Records what fetching the current chapter gave. With text, the chapter
    /// is marked as saved and the returned outcome holds the file to write;
    /// the caller then saves the whole list. The run pauses after every
    /// fetch that reached the page.
    pub fn record(&mut self, fetch: Fetch) -> (r: CrawlOutcome)
        requires
            old(self).wf(),
            old(self)@.step() is Crawl,
        ensures
            final(self).wf(),
            final(self)@ == old(self)@.crawled(fetched_text(fetch)),
            r.pause == !(fetch is NavigationFailed),
            r.saved is Some <==> fetched_text(fetch) is Some,
            r.saved matches Some(s) ==> {
                &&& s.file_name@ == file_name_of(old(self)@.current().name)
                &&& s.text@ == formatted(fetched_text(fetch)->0)
            },
    {
        let pause = match &fetch {
            Fetch::NavigationFailed => false,
            _ => true,
        };
        let i = self.next;
        let ghost before = self@;
        let saved = match fetch {
            Fetch::Evaluated(Some(raw)) => {
                let text = format_content(raw);
                let mut file_name = sanitize_filename(self.chapters[i].name.as_str());
                file_name.append(".md");
                self.chapters[i].is_download = true;
                self.saves = self.saves + 1;
                Some(SavedChapter { file_name, text })
            },
            _ => None,
        };
        self.next = i + 1;
        proof {
            assert(self@.entries =~= before.crawled(fetched_text(fetch)).entries);
        }
        CrawlOutcome { saved, pause }
    }

    /// Hands back the chapter list.
    pub fn into_chapters(self) -> (r: Vec<Chapter>)
        ensures
            r@.map_values(|c: Chapter| c@) == self@.entries,
    {
        self.chapters
    }
}

/// A run leaves the chapters before its position as they are.
proof fn lemma_run_keeps_prefix(p: Progress, texts: FetchedTexts)
    requires
        p.wf(),
    ensures
        run(p, texts).entries.len() == p.entries.len(),
        forall|i: int| 0 <= i < p.next ==> #[trigger] run(p, texts).entries[i] == p.entries[i],
    decreases p.entries.len() - p.next,
{
    if p.finished() {
    } else if p.current().is_download {
        lemma_run_keeps_prefix(p.skipped(), texts);
    } else if texts.len() == 0 {
    } else {
        lemma_run_keeps_prefix(p.crawled(texts[0]), texts.drop_first());
    }
}

/// A run passes over every chapter already saved: such a chapter comes out
/// as it went in. Where every chapter from the position on is saved, the run
/// changes nothing and saves the list no time. A saved chapter at the
/// position is passed over, never fetched.
pub proof fn lemma_saved_chapters_untouched(p: Progress, texts: FetchedTexts)
    requires
        p.wf(),
    ensures
        !p.finished() && p.current().is_download ==> p.step() is Skip,
        forall|i: int|
            p.next <= i < p.entries.len() && #[trigger] p.entries[i].is_download
                ==> run(p, texts).entries[i] == p.entries[i],
        (forall|i: int| p.next <= i < p.entries.len() ==> #[trigger] p.entries[i].is_download)
            ==> run(p, texts) == (Progress { next: p.entries.len(), ..p }),
    decreases p.entries.len() - p.next,
{
    if p.finished() {
    } else if p.current().is_download {
        lemma_saved_chapters_untouched(p.skipped(), texts);
        lemma_run_keeps_prefix(p.skipped(), texts);
    } else if texts.len() == 0 {
    } else {
        let q = p.crawled(texts[0]);
        lemma_saved_chapters_untouched(q, texts.drop_first());
        lemma_run_keeps_prefix(q, texts.drop_first());
        assert forall|i: int|
            p.next <= i < p.entries.len() && #[trigger] p.entries[i].is_download implies run(
                p,
                texts,
            ).entries[i] == p.entries[i] by {
            assert(i != p.next);
            assert(q.entries[i] == p.entries[i]);
        }
    }
}

/// A chapter marked as saved stays marked through a run.
pub proof fn lemma_saved_flag_monotonic(p: Progress, texts: FetchedTexts)
    requires
        p.wf(),
    ensures
        forall|i: int|
            0 <= i < p.entries.len() && #[trigger] p.entries[i].is_download
                ==> run(p, texts).entries[i].is_download,
    decreases p.entries.len() - p.next,
{
    if p.finished() {
    } else if p.current().is_download {
        lemma_saved_flag_monotonic(p.skipped(), texts);
    } else if texts.len() == 0 {
    } else {
        let q = p.crawled(texts[0]);
        lemma_saved_flag_monotonic(q, texts.drop_first());
        assert forall|i: int|
            0 <= i < p.entries.len() && #[trigger] p.entries[i].is_download implies run(
                p,
                texts,
            ).entries[i].is_download by {
            assert(q.entries[i].is_download);
        }
    }
}

/// A run keeps the list's length and the order, names and links of its
/// chapters: only the saved flags may change.
pub proof fn lemma_order_preserved(p: Progress, texts: FetchedTexts)
    requires
        p.wf(),
    ensures
        run(p, texts).entries.len() == p.entries.len(),
        forall|i: int|
            0 <= i < p.entries.len() ==> {
                &&& (#[trigger] run(p, texts).entries[i]).name == p.entries[i].name
                &&& run(p, texts).entries[i].link == p.entries[i].link
            },
    decreases p.entries.len() - p.next,
{
    if p.finished() {
    } else if p.current().is_download {
        lemma_order_preserved(p.skipped(), texts);
    } else if texts.len() == 0 {
    } else {
        lemma_order_preserved(p.crawled(texts[0]), texts.drop_first());
    }
}

/// The fetch of a chapter that yields text leaves it marked as saved, with
/// the list saved once more.
pub proof fn lemma_crawl_marks_saved(p: Progress, text: Seq<char>)
    requires
        p.wf(),
        !p.finished(),
    ensures
        p.crawled(Some(text)).entries[p.next as int].is_download,
        p.crawled(Some(text)).saves == p.saves + 1,
{
}

/// A run fetches only chapters that were not saved when it started, from
/// its position on, each at most once and in stored order.
pub proof fn lemma_visits_unsaved_once_in_order(p: Progress, texts: FetchedTexts)
    requires
        p.wf(),
    ensures
        forall|k: int|
            0 <= k < visits(p, texts).len() ==> p.next <= #[trigger] visits(p, texts)[k]
                < p.entries.len() && !p.entries[visits(p, texts)[k]].is_download,
        forall|k: int, m: int|
            0 <= k < m < visits(p, texts).len() ==> #[trigger] visits(p, texts)[k] < #[trigger] visits(
                p,
                texts,
            )[m],
    decreases p.entries.len() - p.next,
{
    if p.finished() {
        assert(visits(p, texts).len() == 0);
    } else if p.current().is_download {
        lemma_visits_unsaved_once_in_order(p.skipped(), texts);
        assert(visits(p, texts) == visits(p.skipped(), texts));
    } else if texts.len() == 0 {
        assert(visits(p, texts).len() == 0);
    } else {
        let q = p.crawled(texts[0]);
        let rest = texts.drop_first();
        lemma_visits_unsaved_once_in_order(q, rest);
        let v = visits(p, texts);
        assert(v == seq![p.next as int] + visits(q, rest));
        assert forall|k: int|
            0 <= k < v.len() implies p.next <= #[trigger] v[k] < p.entries.len()
                && !p.entries[v[k]].is_download by {
            if k > 0 {
                assert(v[k] == visits(q, rest)[k - 1]);
                assert(q.entries[v[k]] == p.entries[v[k]]);
            }
        }
        assert forall|k: int, m: int| 0 <= k < m < v.len() implies #[trigger] v[k] < #[trigger] v[m] by {
            assert(v[m] == visits(q, rest)[m - 1]);
            if k > 0 {
                assert(v[k] == visits(q, rest)[k - 1]);
            }
        }
    }
}

/// Where every fetch gets a result, a run fetches every chapter that was
/// not saved when it started, from its position on.
pub proof fn lemma_visits_every_unsaved(p: Progress, texts: FetchedTexts)
    requires
        p.wf(),
        texts.len() >= p.entries.len() - p.next,
    ensures
        forall|i: int|
            p.next <= i < p.entries.len() && !(#[trigger] p.entries[i]).is_download ==> visits(
                p,
                texts,
            ).contains(i),
    decreases p.entries.len() - p.next,
{
    if p.finished() {
    } else if p.current().is_download {
        lemma_visits_every_unsaved(p.skipped(), texts);
        assert(visits(p, texts) == visits(p.skipped(), texts));
    } else {
        let q = p.crawled(texts[0]);
        let rest = texts.drop_first();
        lemma_visits_every_unsaved(q, rest);
        let v = visits(p, texts);
        assert(v == seq![p.next as int] + visits(q, rest));
        assert forall|i: int|
            p.next <= i < p.entries.len() && !(#[trigger] p.entries[i]).is_download implies v.contains(
                i,
            ) by {
            if i == p.next {
                assert(v[0] == i);
            } else {
                assert(q.entries[i] == p.entries[i]);
                let k = choose|k: int| 0 <= k < visits(q, rest).len() && visits(q, rest)[k] == i;
                assert(v[k + 1] == i);
            }
        }
    }
}

} // verus!
