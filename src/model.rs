use vstd::prelude::*;

verus! {

/// One chapter of a story: its title, where to read it, and whether its text
/// has already been saved.
#[derive(Debug)]
pub struct Chapter {
    pub name: String,
    pub link: String,
    pub is_download: bool,
}

/// The mathematical value of a [`Chapter`].
pub ghost struct ChapterView {
    pub name: Seq<char>,
    pub link: Seq<char>,
    pub is_download: bool,
}

impl View for Chapter {
    type V = ChapterView;

    open spec fn view(&self) -> ChapterView {
        ChapterView { name: self.name@, link: self.link@, is_download: self.is_download }
    }
}

impl Chapter {
    /// A chapter that has not been downloaded yet.
    pub fn new(name: String, link: String) -> (r: Chapter)
        ensures
            r.name == name,
            r.link == link,
            !r.is_download,
    {
        Chapter { name, link, is_download: false }
    }
}

} // verus!
