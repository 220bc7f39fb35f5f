use vstd::prelude::*;

use crate::text::{chars_of, string_of, trim, trimmed};

verus! {

/// What `std::path::Path::file_stem` gives for a path, as text.
pub uninterp spec fn file_stem_of(path: Seq<char>) -> Option<Seq<char>>;

/// Relies on `Path::file_stem` and `OsStr::to_str`: the file name without
/// its extension, if the path has a file name that is valid text.
#[verifier::external_body]
fn file_stem(path: &str) -> (r: Option<String>)
    ensures
        r matches Some(s) ==> file_stem_of(path@) == Some(s@),
        r is None ==> file_stem_of(path@) is None,
{
    std::path::Path::new(path).file_stem().and_then(|s| s.to_str()).map(|s| s.to_string())
}

pub open spec fn colon_char(c: char) -> char {
    if c == '_' {
        ':'
    } else {
        c
    }
}

/// The ASCII lower case of a character; other characters are kept.
pub open spec fn ascii_lower(c: char) -> char {
    if 'A' <= c <= 'Z' {
        ((c as u8) + 32) as char
    } else {
        c
    }
}

/// Equal up to the case of ASCII letters.
pub open spec fn same_ignoring_ascii_case(a: Seq<char>, b: Seq<char>) -> bool {
    &&& a.len() == b.len()
    &&& forall|i: int| 0 <= i < a.len() ==> ascii_lower(#[trigger] a[i]) == ascii_lower(b[i])
}

/// The position of the first space, or the length where there is none.
pub open spec fn first_space(s: Seq<char>) -> nat
    decreases s.len(),
{
    if s.len() == 0 {
        0
    } else if s[0] == ' ' {
        0
    } else {
        1 + first_space(s.skip(1))
    }
}

/// A title whose first word is the word for "chapter" gets a colon after it.
pub open spec fn with_chapter_colon(t: Seq<char>) -> Seq<char> {
    let k = first_space(t) as int;
    if k < t.len() && same_ignoring_ascii_case(t.take(k), "chương"@) {
        t.take(k) + ":"@ + t.skip(k)
    } else {
        t
    }
}

/// The text without commas at either end.
pub open spec fn without_commas(s: Seq<char>) -> Seq<char>
    decreases s.len(),
{
    if s.len() > 0 && s[0] == ',' {
        without_commas(s.skip(1))
    } else if s.len() > 0 && s.last() == ',' {
        without_commas(s.drop_last())
    } else {
        s
    }
}

/// The display title of a chapter file.
pub open spec fn title_of(path: Seq<char>) -> Seq<char> {
    let stem = match file_stem_of(path) {
        Some(s) => s,
        None => "Chương không rõ"@,
    };
    trimmed(without_commas(with_chapter_colon(stem.map_values(|c: char| colon_char(c)))))
}

fn lower(c: char) -> (r: char)
    ensures
        r == ascii_lower(c),
{
    if 'A' <= c && c <= 'Z' {
        ((c as u8) + 32) as char
    } else {
        c
    }
}

fn equal_ignoring_ascii_case(a: &Vec<char>, b: &Vec<char>) -> (r: bool)
    ensures
        r == same_ignoring_ascii_case(a@, b@),
{
    if a.len() != b.len() {
        return false;
    }
    let mut i: usize = 0;
    while i < a.len()
        invariant
            a.len() == b.len(),
            i <= a.len(),
            forall|j: int| 0 <= j < i ==> ascii_lower(#[trigger] a@[j]) == ascii_lower(b@[j]),
        decreases a.len() - i,
    {
        if lower(a[i]) != lower(b[i]) {
            return false;
        }
        i = i + 1;
    }
    true
}

fn find_space(s: &Vec<char>) -> (r: usize)
    ensures
        r == first_space(s@),
{
    let mut i: usize = 0;
    assert(s@.skip(0) =~= s@);
    while i < s.len() && s[i] != ' '
        invariant
            i <= s.len(),
            first_space(s@) == i + first_space(s@.skip(i as int)),
        decreases s.len() - i,
    {
        assert(s@.skip(i as int).skip(1) =~= s@.skip(i as int + 1));
        i = i + 1;
    }
    i
}

fn strip_commas(s: &Vec<char>) -> (r: Vec<char>)
    ensures
        r@ == without_commas(s@),
{
    let mut lo: usize = 0;
    let mut hi: usize = s.len();
    assert(s@.subrange(0, s.len() as int) =~= s@);
    while lo < hi && s[lo] == ','
        invariant
            lo <= hi == s.len(),
            without_commas(s@) == without_commas(s@.subrange(lo as int, hi as int)),
        decreases hi - lo,
    {
        assert(s@.subrange(lo as int, hi as int).skip(1) =~= s@.subrange(lo as int + 1, hi as int));
        lo = lo + 1;
    }
    while lo < hi && s[hi - 1] == ','
        invariant
            lo <= hi <= s.len(),
            lo < hi ==> s@[lo as int] != ',',
            without_commas(s@) == without_commas(s@.subrange(lo as int, hi as int)),
        decreases hi - lo,
    {
        assert(s@.subrange(lo as int, hi as int).drop_last() =~= s@.subrange(lo as int, hi as int - 1));
        hi = hi - 1;
    }
    let mut out: Vec<char> = Vec::new();
    let mut i: usize = lo;
    while i < hi
        invariant
            lo <= i <= hi <= s.len(),
            out@ == s@.subrange(lo as int, i as int),
        decreases hi - i,
    {
        out.push(s[i]);
        i = i + 1;
        assert(out@ =~= s@.subrange(lo as int, i as int));
    }
    out
}

/// The display title of a chapter file: the file stem with `_` read as `:`,
/// a colon after a leading word for "chapter", commas at the ends dropped,
/// and the result trimmed.
pub fn extract_chapter_title(path: &str) -> (r: String)
    ensures
        r@ == title_of(path@),
{
    let stem = match file_stem(path) {
        Some(s) => s,
        None => String::from_str("Chương không rõ"),
    };
    let cs = chars_of(stem.as_str());
    let mut t: Vec<char> = Vec::new();
    let mut i: usize = 0;
    while i < cs.len()
        invariant
            i <= cs.len(),
            t@ == cs@.take(i as int).map_values(|c: char| colon_char(c)),
        decreases cs.len() - i,
    {
        if cs[i] == '_' {
            t.push(':');
        } else {
            t.push(cs[i]);
        }
        i = i + 1;
        assert(t@ =~= cs@.take(i as int).map_values(|c: char| colon_char(c)));
    }
    assert(cs@.take(i as int) =~= cs@);
    let k = find_space(&t);
    let marked = if k < t.len() {
        let mut prefix: Vec<char> = Vec::new();
        let mut j: usize = 0;
        while j < k
            invariant
                j <= k < t.len(),
                prefix@ == t@.take(j as int),
            decreases k - j,
        {
            prefix.push(t[j]);
            j = j + 1;
            assert(prefix@ =~= t@.take(j as int));
        }
        let word = chars_of("chương");
        if equal_ignoring_ascii_case(&prefix, &word) {
            let mut m = prefix;
            m.push(':');
            let mut j: usize = k;
            proof {
                reveal_strlit(":");
                assert(m@ =~= t@.take(k as int) + ":"@ + t@.subrange(k as int, j as int));
            }
            while j < t.len()
                invariant
                    k <= j <= t.len(),
                    m@ == t@.take(k as int) + ":"@ + t@.subrange(k as int, j as int),
                decreases t.len() - j,
            {
                proof {
                    reveal_strlit(":");
                }
                m.push(t[j]);
                j = j + 1;
                assert(m@ =~= t@.take(k as int) + ":"@ + t@.subrange(k as int, j as int));
            }
            assert(t@.subrange(k as int, j as int) =~= t@.skip(k as int));
            m
        } else {
            t
        }
    } else {
        t
    };
    let stripped = strip_commas(&marked);
    trim(string_of(&stripped).as_str())
}

} // verus!
