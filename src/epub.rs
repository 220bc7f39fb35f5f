use vstd::prelude::*;

use crate::text::{chars_of, string_of, trim, trimmed};

verus! {

/// What the book is called, who wrote it, its cover image and the folder
/// that holds the chapter files.
#[derive(Debug)]
pub struct EpubMetadata {
    pub title: String,
    pub author: String,
    pub image_link: String,
    pub folder_path: String,
}

impl Default for EpubMetadata {
    fn default() -> (r: Self)
        ensures
            r.title@ == Seq::<char>::empty(),
            r.author@ == Seq::<char>::empty(),
            r.image_link@ == "cover.png"@,
            r.folder_path@ == "./download"@,
    {
        EpubMetadata {
            title: String::new(),
            author: String::new(),
            image_link: String::from_str("cover.png"),
            folder_path: String::from_str("./download"),
        }
    }
}

/// Relies on `std::io::Write::write_all` and `flush` on standard output:
/// shows the prompt; a failure to show it is ignored.
#[verifier::external_body]
fn show_prompt(text: &str) {
    let mut out = std::io::stdout();
    let _ = std::io::Write::write_all(&mut out, text.as_bytes());
    let _ = std::io::Write::flush(&mut out);
}

/// Relies on `std::io::Stdin::read_line`: one line typed by the user, or
/// `None` where standard input cannot be read.
#[verifier::external_body]
fn read_line() -> (r: Option<String>) {
    let mut input = String::new();
    match std::io::stdin().read_line(&mut input) {
        Ok(_) => Some(input),
        Err(_) => None,
    }
}

/// The answer to a prompt: the trimmed input, or `default` where it is blank.
pub open spec fn answer(input: Seq<char>, default: Seq<char>) -> Seq<char> {
    if trimmed(input).len() == 0 {
        default
    } else {
        trimmed(input)
    }
}

/// The value of a prompt with a default: the trimmed input, or the default
/// where the input is blank.
pub fn choose_input(input: &str, default: &str) -> (r: String)
    ensures
        r@ == answer(input@, default@),
{
    let t = trim(input);
    if t.as_str().is_empty() {
        String::from_str(default)
    } else {
        t
    }
}

/// The prompt for a value with a default: `<prompt> [<default>]: `.
pub fn prompt_with_default(prompt: &str, default: &str) -> (r: String)
    ensures
        r@ == prompt@ + " ["@ + default@ + "]: "@,
{
    let mut text = String::from_str(prompt);
    text.append(" [");
    text.append(default);
    text.append("]: ");
    text
}

/// The metadata that four typed answers give.
pub open spec fn answers_give(
    r: EpubMetadata,
    title: Seq<char>,
    author: Seq<char>,
    image: Seq<char>,
    folder: Seq<char>,
) -> bool {
    &&& r.title@ == trimmed(title)
    &&& r.author@ == trimmed(author)
    &&& r.image_link@ == answer(image, "cover.png"@)
    &&& r.folder_path@ == answer(folder, "./download"@)
}

/// Shows a prompt and reads the line typed after it; an empty line where
/// standard input cannot be read.
fn read_answer(prompt: &str) -> (r: String) {
    show_prompt(prompt);
    match read_line() {
        Some(l) => l,
        None => String::new(),
    }
}

impl EpubMetadata {
    /// The metadata from the answers to the four prompts: title and author
    /// trimmed, the cover image and the folder falling back to their
    /// defaults where the answer is blank.
    pub fn metadata_from_answers(title: &str, author: &str, image: &str, folder: &str) -> (r:
        EpubMetadata)
        ensures
            answers_give(r, title@, author@, image@, folder@),
    {
        let defaults = Self::default();
        EpubMetadata {
            title: trim(title),
            author: trim(author),
            image_link: choose_input(image, defaults.image_link.as_str()),
            folder_path: choose_input(folder, defaults.folder_path.as_str()),
        }
    }

    /// Asks on the console, in turn, for the title (`Enter title: `), the
    /// author (`Enter author: `), the cover image (`Enter image link
    /// [cover.png]: `) and the folder (`Enter folder path [./download]: `),
    /// and builds the metadata from the four lines typed.
    pub fn read_from_console() -> (r: Self)
        ensures
            exists|t: Seq<char>, a: Seq<char>, i: Seq<char>, f: Seq<char>|
                answers_give(r, t, a, i, f),
    {
        let defaults = Self::default();
        let title = read_answer("Enter title: ");
        let author = read_answer("Enter author: ");
        let image_prompt = prompt_with_default("Enter image link", defaults.image_link.as_str());
        let image = read_answer(image_prompt.as_str());
        let folder_prompt = prompt_with_default("Enter folder path", defaults.folder_path.as_str());
        let folder = read_answer(folder_prompt.as_str());
        let r = Self::metadata_from_answers(
            title.as_str(),
            author.as_str(),
            image.as_str(),
            folder.as_str(),
        );
        assert(answers_give(r, title@, author@, image@, folder@));
        r
    }
}

/// The markup for one line of text: a paragraph of the trimmed line, or
/// nothing where the line is blank.
pub open spec fn paragraph(line: Seq<char>) -> Seq<char> {
    if trimmed(line).len() > 0 {
        "<p>"@ + trimmed(line) + "</p>\n"@
    } else {
        Seq::empty()
    }
}

/// The paragraphs of `rest`, where `line` is the start of its first line.
pub open spec fn paragraphs_from(line: Seq<char>, rest: Seq<char>) -> Seq<char>
    decreases rest.len(),
{
    if rest.len() == 0 {
        paragraph(line)
    } else if rest[0] == '\n' {
        paragraph(line) + paragraphs_from(Seq::empty(), rest.skip(1))
    } else {
        paragraphs_from(line.push(rest[0]), rest.skip(1))
    }
}

/// One paragraph for each line of the text that is not blank.
pub open spec fn paragraphs(text: Seq<char>) -> Seq<char> {
    paragraphs_from(Seq::empty(), text)
}

/// The head of a chapter page, up to and including the opening body tag.
pub open spec fn page_head(title: Seq<char>) -> Seq<char> {
    "<?xml version='1.0' encoding='utf-8'?>\n<html xmlns=\"http://www.w3.org/1999/xhtml\" xmlns:epub=\"http://www.idpf.org/2007/ops\">\n  <head>\n    <title>"@
        + title
        + "</title>\n    <link rel=\"stylesheet\" type=\"text/css\" href=\"style.css\"/>\n    <meta http-equiv=\"Content-Type\" content=\"text/html; charset=utf-8\"/>\n  </head>\n  <body>\n"@
}

/// The page of a chapter with its title and text.
pub open spec fn page_of(title: Seq<char>, text: Seq<char>) -> Seq<char> {
    page_head(title) + paragraphs(text) + "</body></html>"@
}

fn push_paragraph(out: &mut String, line: &Vec<char>)
    ensures
        final(out)@ == old(out)@ + paragraph(line@),
{
    let t = trim(string_of(line).as_str());
    if !t.as_str().is_empty() {
        out.append("<p>");
        out.append(t.as_str());
        out.append("</p>\n");
    }
}

/// The page markup of a chapter: a head that carries the title, then one
/// paragraph for each line of the text that is not blank.
pub fn chapter_page(title: &str, text: &str) -> (r: String)
    ensures
        r@ == page_of(title@, text@),
{
    let mut out = String::from_str("<?xml version='1.0' encoding='utf-8'?>\n<html xmlns=\"http://www.w3.org/1999/xhtml\" xmlns:epub=\"http://www.idpf.org/2007/ops\">\n  <head>\n    <title>");
    out.append(title);
    out.append("</title>\n    <link rel=\"stylesheet\" type=\"text/css\" href=\"style.css\"/>\n    <meta http-equiv=\"Content-Type\" content=\"text/html; charset=utf-8\"/>\n  </head>\n  <body>\n");
    let ghost head = out@;
    let cs = chars_of(text);
    let mut line: Vec<char> = Vec::new();
    let mut i: usize = 0;
    assert(cs@.skip(0) =~= cs@);
    while i < cs.len()
        invariant
            cs@ == text@,
            i <= cs.len(),
            out@ + paragraphs_from(line@, cs@.skip(i as int)) == head + paragraphs(text@),
        decreases cs.len() - i,
    {
        let ghost before = out@;
        let ghost rest = cs@.skip(i as int);
        assert(rest.skip(1) =~= cs@.skip(i + 1));
        if cs[i] == '\n' {
            push_paragraph(&mut out, &line);
            assert(out@ + paragraphs_from(Seq::empty(), rest.skip(1)) =~= before
                + paragraphs_from(line@, rest));
            line = Vec::new();
        } else {
            line.push(cs[i]);
        }
        i = i + 1;
    }
    let ghost before = out@;
    push_paragraph(&mut out, &line);
    assert(cs@.skip(i as int) =~= Seq::<char>::empty());
    assert(out@ =~= head + paragraphs(text@));
    out.append("</body></html>");
    out
}

/// The order of file names that `natord::compare` and a stable sort give.
pub uninterp spec fn natural_sorted(names: Seq<Seq<char>>) -> Seq<Seq<char>>;

/// Whether `natord::compare(a, b)` is `Ordering::Greater`.
pub uninterp spec fn natord_greater(a: Seq<char>, b: Seq<char>) -> bool;

/// The names are in natural order: no name compares greater than the next.
pub open spec fn naturally_ordered(names: Seq<String>) -> bool {
    forall|i: int| 0 <= i < names.len() - 1 ==> !natord_greater(#[trigger] names[i]@, names[i + 1]@)
}

/// Relies on `slice::sort_by` with `natord::compare`, a total order: the
/// same names, rearranged so that no name compares greater than the next;
/// runs of digits compare as numbers.
#[verifier::external_body]
fn sort_naturally(names: Vec<String>) -> (r: Vec<String>)
    ensures
        r@.map_values(|s: String| s@) == natural_sorted(names@.map_values(|s: String| s@)),
        r@.map_values(|s: String| s@).to_multiset() == names@.map_values(
            |s: String| s@,
        ).to_multiset(),
        forall|i: int|
            0 <= i < r@.len() - 1 ==> !natord_greater(#[trigger] r@[i]@, r@[i + 1]@),
{
    let mut names = names;
    names.sort_by(|a, b| natord::compare(a, b));
    names
}

/// What `std::path::Path::extension` gives for a file name, as text.
pub uninterp spec fn extension_of(name: Seq<char>) -> Option<Seq<char>>;

/// Relies on `Path::extension` and `OsStr::to_str`: the text after the last
/// dot of the file name, where there is one.
#[verifier::external_body]
pub(crate) fn extension(name: &str) -> (r: Option<String>)
    ensures
        r matches Some(s) ==> extension_of(name@) == Some(s@),
        r is None ==> extension_of(name@) is None,
{
    std::path::Path::new(name).extension().and_then(|s| s.to_str()).map(|s| s.to_string())
}

/// The names of chapter text files among `names`, in their order.
pub open spec fn chapter_files(names: Seq<Seq<char>>) -> Seq<Seq<char>> {
    names.filter(|n: Seq<char>| extension_of(n) == Some("md"@))
}

/// The chapter text files among `names`, in natural order.
pub fn order_chapter_files(names: Vec<String>) -> (r: Vec<String>)
    ensures
        r@.map_values(|s: String| s@) == natural_sorted(
            chapter_files(names@.map_values(|s: String| s@)),
        ),
        r@.map_values(|s: String| s@).to_multiset() == chapter_files(
            names@.map_values(|s: String| s@),
        ).to_multiset(),
        naturally_ordered(r@),
{
    let ghost all = names@.map_values(|s: String| s@);
    let mut kept: Vec<String> = Vec::new();
    let mut i: usize = 0;
    let md = String::from_str("md");
    while i < names.len()
        invariant
            i <= names.len(),
            md@ == "md"@,
            all == names@.map_values(|s: String| s@),
            kept@.map_values(|s: String| s@) == chapter_files(all.take(i as int)),
        decreases names.len() - i,
    {
        let ghost prefix = all.take(i as int + 1);
        assert(prefix.drop_last() =~= all.take(i as int));
        assert(prefix.last() == names@[i as int]@);
        proof {
            reveal(Seq::filter);
        }
        let keep = match extension(names[i].as_str()) {
            Some(e) => e == md,
            None => false,
        };
        if keep {
            kept.push(names[i].clone());
        }
        i = i + 1;
        assert(kept@.map_values(|s: String| s@) =~= chapter_files(all.take(i as int)));
    }
    assert(all.take(i as int) =~= all);
    sort_naturally(kept)
}

} // verus!
