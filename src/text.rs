//! Whitespace trimming over characters.

use vstd::prelude::*;
use vstd::string::*;

verus! {

/// The characters that carry the Unicode `White_Space` property.
pub open spec fn is_white_space(c: char) -> bool {
    ('\u{9}' <= c && c <= '\u{d}') || c == ' ' || c == '\u{85}' || c == '\u{a0}'
        || c == '\u{1680}' || ('\u{2000}' <= c && c <= '\u{200a}') || c == '\u{2028}'
        || c == '\u{2029}' || c == '\u{202f}' || c == '\u{205f}' || c == '\u{3000}'
}

/// The characters removed by a trim: plain spaces only, or all white space.
pub open spec fn is_trimmed(c: char, spaces_only: bool) -> bool {
    if spaces_only {
        c == ' '
    } else {
        is_white_space(c)
    }
}

/// `s` without its leading trimmed characters.
pub open spec fn trim_start(s: Seq<char>, spaces_only: bool) -> Seq<char>
    decreases s.len(),
{
    if s.len() > 0 && is_trimmed(s[0], spaces_only) {
        trim_start(s.drop_first(), spaces_only)
    } else {
        s
    }
}

/// `s` without its trailing trimmed characters.
pub open spec fn trim_end(s: Seq<char>, spaces_only: bool) -> Seq<char>
    decreases s.len(),
{
    if s.len() > 0 && is_trimmed(s.last(), spaces_only) {
        trim_end(s.drop_last(), spaces_only)
    } else {
        s
    }
}

/// `s` without its leading and trailing trimmed characters.
pub open spec fn trim(s: Seq<char>, spaces_only: bool) -> Seq<char> {
    trim_end(trim_start(s, spaces_only), spaces_only)
}

/// `s` followed by one space, or nothing when `s` is empty.
pub open spec fn spaced(s: Seq<char>) -> Seq<char> {
    if s.len() == 0 {
        Seq::empty()
    } else {
        s.push(' ')
    }
}

/// `s` neither starts nor ends with a trimmed character.
pub open spec fn is_trim_fixed(s: Seq<char>, spaces_only: bool) -> bool {
    s.len() == 0 || (!is_trimmed(s[0], spaces_only) && !is_trimmed(s.last(), spaces_only))
}

proof fn lemma_trim_start_suffix(s: Seq<char>, spaces_only: bool)
    ensures
        ({
            let t = trim_start(s, spaces_only);
            &&& t.len() <= s.len()
            &&& t == s.subrange(s.len() - t.len(), s.len() as int)
            &&& t.len() == 0 || !is_trimmed(t[0], spaces_only)
        }),
    decreases s.len(),
{
    if s.len() > 0 && is_trimmed(s[0], spaces_only) {
        lemma_trim_start_suffix(s.drop_first(), spaces_only);
        let t = trim_start(s, spaces_only);
        assert(t == s.subrange(s.len() - t.len(), s.len() as int));
    } else {
        assert(s == s.subrange(0, s.len() as int));
    }
}

proof fn lemma_trim_end_prefix(s: Seq<char>, spaces_only: bool)
    ensures
        ({
            let t = trim_end(s, spaces_only);
            &&& t.len() <= s.len()
            &&& t == s.subrange(0, t.len() as int)
            &&& t.len() == 0 || !is_trimmed(t.last(), spaces_only)
        }),
    decreases s.len(),
{
    if s.len() > 0 && is_trimmed(s.last(), spaces_only) {
        lemma_trim_end_prefix(s.drop_last(), spaces_only);
        let t = trim_end(s, spaces_only);
        assert(t == s.subrange(0, t.len() as int));
    } else {
        assert(s == s.subrange(0, s.len() as int));
    }
}

/// A trimmed text has nothing left to trim.
pub proof fn lemma_trim_is_fixed(s: Seq<char>, spaces_only: bool)
    ensures
        is_trim_fixed(trim(s, spaces_only), spaces_only),
{
    let t1 = trim_start(s, spaces_only);
    lemma_trim_start_suffix(s, spaces_only);
    lemma_trim_end_prefix(t1, spaces_only);
    let t2 = trim_end(t1, spaces_only);
    if t2.len() > 0 {
        assert(t2[0] == t1[0]);
    }
}

/// Trimming leaves a text with nothing to trim unchanged.
pub proof fn lemma_trim_fixed(s: Seq<char>, spaces_only: bool)
    requires
        is_trim_fixed(s, spaces_only),
    ensures
        trim(s, spaces_only) == s,
{
}

/// Trimming removes one space put before or after a non-empty text that has
/// nothing to trim.
pub proof fn lemma_trim_padded(s: Seq<char>)
    requires
        s.len() > 0,
        is_trim_fixed(s, false),
    ensures
        trim(s.push(' '), false) == s,
        trim(seq![' '] + s, false) == s,
{
    let a = s.push(' ');
    assert(a[0] == s[0]);
    assert(trim_start(a, false) == a);
    assert(a.drop_last() =~= s);
    assert(trim_end(s, false) == s);
    assert(trim_end(a, false) == trim_end(s, false));
    let b = seq![' '] + s;
    assert(b.drop_first() =~= s);
    assert(trim_start(s, false) == s);
    assert(trim_start(b, false) == trim_start(s, false));
}

/// Whether `c` carries the Unicode `White_Space` property.
pub fn is_white_space_char(c: char) -> (r: bool)
    ensures
        r == is_white_space(c),
{
    ('\u{9}' <= c && c <= '\u{d}') || c == ' ' || c == '\u{85}' || c == '\u{a0}'
        || c == '\u{1680}' || ('\u{2000}' <= c && c <= '\u{200a}') || c == '\u{2028}'
        || c == '\u{2029}' || c == '\u{202f}' || c == '\u{205f}' || c == '\u{3000}'
}

fn is_trimmed_char(c: char, spaces_only: bool) -> (r: bool)
    ensures
        r == is_trimmed(c, spaces_only),
{
    if spaces_only {
        c == ' '
    } else {
        is_white_space_char(c)
    }
}

proof fn lemma_trim_start_skip(s: Seq<char>, i: int, spaces_only: bool)
    requires
        0 <= i < s.len(),
        is_trimmed(s[i], spaces_only),
    ensures
        trim_start(s.subrange(i, s.len() as int), spaces_only) == trim_start(
            s.subrange(i + 1, s.len() as int),
            spaces_only,
        ),
{
    let t = s.subrange(i, s.len() as int);
    assert(t.drop_first() =~= s.subrange(i + 1, s.len() as int));
}

proof fn lemma_trim_end_drop(s: Seq<char>, j: int, spaces_only: bool)
    requires
        0 < j <= s.len(),
        is_trimmed(s[j - 1], spaces_only),
    ensures
        trim_end(s.subrange(0, j), spaces_only) == trim_end(s.subrange(0, j - 1), spaces_only),
{
    let t = s.subrange(0, j);
    assert(t.drop_last() =~= s.subrange(0, j - 1));
}

/// Removes the leading and trailing trimmed characters of `s`.
pub fn trim_text(s: &str, spaces_only: bool) -> (r: String)
    ensures
        r@ == trim(s@, spaces_only),
{
    let n = s.unicode_len();
    let mut i: usize = 0;
    assert(s@.subrange(0, n as int) =~= s@);
    while i < n && is_trimmed_char(s.get_char(i), spaces_only)
        invariant
            n == s@.len(),
            i <= n,
            trim_start(s@.subrange(i as int, n as int), spaces_only) == trim_start(s@, spaces_only),
        decreases n - i,
    {
        proof {
            lemma_trim_start_skip(s@, i as int, spaces_only);
        }
        i = i + 1;
    }
    let ghost t = s@.subrange(i as int, n as int);
    proof {
        if i < n {
            assert(t[0] == s@[i as int]);
        }
        assert(trim_start(t, spaces_only) == t);
    }
    let mut j: usize = n;
    assert(t.subrange(0, (n - i) as int) =~= t);
    while j > i && is_trimmed_char(s.get_char(j - 1), spaces_only)
        invariant
            n == s@.len(),
            i <= j <= n,
            t == s@.subrange(i as int, n as int),
            trim_end(t.subrange(0, j - i), spaces_only) == trim_end(t, spaces_only),
        decreases j - i,
    {
        proof {
            lemma_trim_end_drop(t, (j - i) as int, spaces_only);
            assert(t.subrange(0, j - i - 1) == t.subrange(0, (j - 1 - i) as int));
        }
        j = j - 1;
    }
    proof {
        let u = t.subrange(0, j - i);
        if j > i {
            assert(u.last() == s@[j - 1]);
        }
        assert(trim_end(u, spaces_only) == u);
        assert(u =~= s@.subrange(i as int, j as int));
    }
    let sub = s.substring_char(i, j);
    String::from_str(sub)
}

/// `input` followed by one space, or the empty string when `input` is empty.
pub fn add_space_or_empty(input: &str) -> (r: String)
    ensures
        r@ == spaced(input@),
{
    let mut r = String::from_str(input);
    if input.unicode_len() > 0 {
        r.append(" ");
        proof {
            reveal_strlit(" ");
        }
        assert(r@ =~= input@.push(' '));
    }
    r
}

} // verus!
