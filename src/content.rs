use vstd::prelude::*;

use crate::text::{chars_of, string_of};

verus! {

/// The text with each two-character escape `\n` turned into a newline and
/// every other backslash removed, scanning left to right.
pub open spec fn unescaped(s: Seq<char>) -> Seq<char>
    decreases s.len(),
{
    if s.len() == 0 {
        s
    } else if s[0] == '\\' && s.len() >= 2 && s[1] == 'n' {
        seq!['\n'] + unescaped(s.skip(2))
    } else if s[0] == '\\' {
        unescaped(s.skip(1))
    } else {
        seq![s[0]] + unescaped(s.skip(1))
    }
}

/// The text without its first and its last character (empty when it has
/// fewer than two).
pub open spec fn without_ends(s: Seq<char>) -> Seq<char> {
    if s.len() < 2 {
        Seq::empty()
    } else {
        s.subrange(1, s.len() - 1)
    }
}

/// The text with every run of newlines made into one newline: a newline
/// that follows a newline is dropped.
pub open spec fn collapsed(s: Seq<char>) -> Seq<char>
    decreases s.len(),
{
    if s.len() == 0 {
        s
    } else if s.last() == '\n' && s.len() >= 2 && s[s.len() - 2] == '\n' {
        collapsed(s.drop_last())
    } else {
        collapsed(s.drop_last()).push(s.last())
    }
}

/// No two newlines stand next to each other.
pub open spec fn no_double_newline(t: Seq<char>) -> bool {
    forall|i: int| 0 <= i < t.len() - 1 ==> !(#[trigger] t[i] == '\n' && t[i + 1] == '\n')
}

/// The normal form of raw extracted chapter text.
pub open spec fn formatted(raw: Seq<char>) -> Seq<char> {
    without_ends(collapsed(unescaped(raw)))
}

/// Relies on `regex::Regex::new` and `Regex::replace_all`: with the pattern
/// `\n+` and the replacement `\n`, each maximal run of newlines (leftmost
/// first, greedy) becomes one newline. The pattern is valid, so `new` does
/// not fail.
#[verifier::external_body]
fn replace_newline_runs(pattern: &str, text: &str, rep: &str) -> (r: String)
    requires
        pattern@ == "\n+"@,
        rep@ == "\n"@,
    ensures
        r@ == collapsed(text@),
{
    regex::Regex::new(pattern).unwrap().replace_all(text, rep).to_string()
}

/// Replaces each escape `\n` by a newline and drops every other backslash.
pub fn unescape(s: &str) -> (r: String)
    ensures
        r@ == unescaped(s@),
{
    let cs = chars_of(s);
    let mut out: Vec<char> = Vec::new();
    let mut i: usize = 0;
    assert(cs@.skip(0) =~= cs@);
    assert(out@ + unescaped(cs@) =~= unescaped(cs@));
    while i < cs.len()
        invariant
            cs@ == s@,
            i <= cs.len(),
            out@ + unescaped(cs@.skip(i as int)) == unescaped(cs@),
        decreases cs.len() - i,
    {
        let rest = Ghost(cs@.skip(i as int));
        if cs[i] == '\\' && i + 1 < cs.len() && cs[i + 1] == 'n' {
            assert(rest@.skip(2) =~= cs@.skip(i + 2));
            out.push('\n');
            i = i + 2;
        } else if cs[i] == '\\' {
            assert(rest@.skip(1) =~= cs@.skip(i + 1));
            i = i + 1;
        } else {
            assert(rest@.skip(1) =~= cs@.skip(i + 1));
            out.push(cs[i]);
            i = i + 1;
        }
        assert(out@ + unescaped(cs@.skip(i as int)) =~= unescaped(cs@));
    }
    assert(cs@.skip(i as int) =~= Seq::<char>::empty());
    assert(out@ =~= unescaped(cs@));
    string_of(&out)
}

/// Drops the first and the last character of the text, the wrapping that
/// the extraction leaves around it.
pub fn trim_artifacts(text: String) -> (r: String)
    ensures
        r@ == without_ends(text@),
{
    let cs = chars_of(text.as_str());
    if cs.len() < 2 {
        String::new()
    } else {
        let mut out: Vec<char> = Vec::new();
        let mut i: usize = 1;
        while i + 1 < cs.len()
            invariant
                cs@ == text@,
                cs.len() >= 2,
                1 <= i <= cs.len() - 1,
                out@ == cs@.subrange(1, i as int),
            decreases cs.len() - i,
        {
            out.push(cs[i]);
            i = i + 1;
            assert(out@ =~= cs@.subrange(1, i as int));
        }
        string_of(&out)
    }
}

/// Cleans raw extracted chapter text: escapes resolved, runs of newlines
/// collapsed, the wrapping character at each end removed.
pub fn format_content(content: String) -> (r: String)
    ensures
        r@ == formatted(content@),
        no_double_newline(r@),
{
    let unescaped_text = unescape(content.as_str());
    let collapsed_text = replace_newline_runs("\n+", unescaped_text.as_str(), "\n");
    let r = trim_artifacts(collapsed_text);
    proof {
        let c = collapsed(unescaped(content@));
        lemma_collapsed_no_double(unescaped(content@));
        assert forall|i: int| 0 <= i < r@.len() - 1 implies !(#[trigger] r@[i] == '\n' && r@[i + 1]
            == '\n') by {
            assert(r@[i] == c[i + 1] && r@[i + 1] == c[i + 2]);
        }
    }
    r
}

/// Text without backslashes has no escapes to resolve.
proof fn lemma_unescaped_plain(s: Seq<char>)
    requires
        forall|i: int| 0 <= i < s.len() ==> s[i] != '\\',
    ensures
        unescaped(s) == s,
    decreases s.len(),
{
    if s.len() > 0 {
        lemma_unescaped_plain(s.skip(1));
        assert(seq![s[0]] + s.skip(1) =~= s);
    }
}

/// A character other than a newline in front passes through the collapse.
proof fn lemma_collapsed_prepend(a: char, s: Seq<char>)
    requires
        a != '\n',
    ensures
        collapsed(seq![a] + s) == seq![a] + collapsed(s),
    decreases s.len(),
{
    let t = seq![a] + s;
    if s.len() == 0 {
        assert(t =~= seq![a]);
        assert(t.drop_last() =~= Seq::<char>::empty());
        assert(collapsed(t.drop_last()) =~= Seq::<char>::empty());
        assert(collapsed(t) =~= seq![a]);
    } else {
        assert(t.drop_last() =~= seq![a] + s.drop_last());
        lemma_collapsed_prepend(a, s.drop_last());
        if s.last() == '\n' && s.len() >= 2 && s[s.len() - 2] == '\n' {
        } else {
            assert(collapsed(t) =~= seq![a] + collapsed(s));
        }
    }
}

/// Text wrapped in one artifact character at each end, with no backslash,
/// normalizes to the text with every run of newlines made into one.
pub proof fn lemma_format_wrapped(a: char, s: Seq<char>, b: char)
    requires
        a != '\\' && a != '\n',
        b != '\\' && b != '\n',
        forall|i: int| 0 <= i < s.len() ==> s[i] != '\\',
    ensures
        formatted(seq![a] + s + seq![b]) == collapsed(s),
        no_double_newline(collapsed(s)),
{
    let w = seq![a] + s + seq![b];
    lemma_unescaped_plain(w);
    assert(w.drop_last() =~= seq![a] + s);
    assert(w.last() == b);
    lemma_collapsed_prepend(a, s);
    assert(collapsed(w) == (seq![a] + collapsed(s)).push(b));
    assert(without_ends((seq![a] + collapsed(s)).push(b)) =~= collapsed(s));
    lemma_collapsed_no_double(s);
}

/// A collapsed text holds no two newlines in a row.
pub proof fn lemma_collapsed_no_double(s: Seq<char>)
    ensures
        no_double_newline(collapsed(s)),
        s.len() > 0 ==> collapsed(s).len() > 0 && collapsed(s).last() == s.last(),
    decreases s.len(),
{
    if s.len() > 0 {
        lemma_collapsed_no_double(s.drop_last());
    }
}

} // verus!
