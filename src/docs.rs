//! Documentation comments of a file: the plain-code chunks that open with the
//! documentation marker, cleaned of comment markers, and the rules applied to
//! their headings once they are rendered as HTML.
use crate::model::{ItemContent, ItemView, items_view};
use crate::text::{hash_sign, join_lines, joined_lines, lines_of, split_lines};
use vstd::prelude::*;

verus! {

pub open spec fn starts_with(s: Seq<char>, p: Seq<char>) -> bool {
    p.len() <= s.len() && s.subrange(0, p.len() as int) == p
}

/// `s` without every leading repetition of `p`.
pub open spec fn strip_all(s: Seq<char>, p: Seq<char>) -> Seq<char>
    decreases s.len(),
{
    if p.len() > 0 && starts_with(s, p) {
        strip_all(s.subrange(p.len() as int, s.len() as int), p)
    } else {
        s
    }
}

/// Unicode White_Space, the characters that trimming removes.
pub open spec fn is_white_space(c: char) -> bool {
    ('\u{9}' <= c <= '\u{d}') || c == ' ' || c == '\u{85}' || c == '\u{a0}' || c == '\u{1680}' || (
    '\u{2000}' <= c <= '\u{200a}') || c == '\u{2028}' || c == '\u{2029}' || c == '\u{202f}' || c
        == '\u{205f}' || c == '\u{3000}'
}

pub open spec fn trim_start(s: Seq<char>) -> Seq<char>
    decreases s.len(),
{
    if s.len() > 0 && is_white_space(s[0]) {
        trim_start(s.subrange(1, s.len() as int))
    } else {
        s
    }
}

pub open spec fn trim_end(s: Seq<char>) -> Seq<char>
    decreases s.len(),
{
    if s.len() > 0 && is_white_space(s.last()) {
        trim_end(s.drop_last())
    } else {
        s
    }
}

pub open spec fn trim(s: Seq<char>) -> Seq<char> {
    trim_end(trim_start(s))
}

/// The marker that opens a documentation chunk.
pub open spec fn doc_marker() -> Seq<char> {
    "# !doc"@
}

/// A line of a documentation chunk without its markers and surrounding space.
pub open spec fn clean_line(l: Seq<char>) -> Seq<char> {
    trim(strip_all(strip_all(l, doc_marker()), seq!['#']))
}

/// The markdown text of a documentation chunk.
pub open spec fn doc_text(code: Seq<char>) -> Seq<char> {
    trim(join_lines(lines_of(code).map_values(|l: Seq<char>| clean_line(l))))
}

/// The documentation texts of the chunks that open with the marker, in order.
pub open spec fn doc_comments(items: Seq<ItemView>) -> Seq<Seq<char>>
    decreases items.len(),
{
    if items.len() == 0 {
        Seq::empty()
    } else {
        let rest = doc_comments(items.drop_last());
        match items.last() {
            ItemView::Words { code } => if starts_with(code, doc_marker()) {
                rest.push(doc_text(code))
            } else {
                rest
            },
            _ => rest,
        }
    }
}

pub fn is_white_space_char(c: char) -> (r: bool)
    ensures
        r == is_white_space(c),
{
    ('\u{9}' <= c && c <= '\u{d}') || c == ' ' || c == '\u{85}' || c == '\u{a0}' || c == '\u{1680}'
        || ('\u{2000}' <= c && c <= '\u{200a}') || c == '\u{2028}' || c == '\u{2029}' || c
        == '\u{202f}' || c == '\u{205f}' || c == '\u{3000}'
}

/// Whether `s` begins with `p`.
pub fn has_prefix(s: &str, p: &str) -> (r: bool)
    ensures
        r == starts_with(s@, p@),
{
    let n = s.unicode_len();
    let m = p.unicode_len();
    if m > n {
        return false;
    }
    let mut i: usize = 0;
    while i < m
        invariant
            n == s@.len(),
            m == p@.len(),
            m <= n,
            0 <= i <= m,
            forall|j: int| 0 <= j < i ==> s@[j] == p@[j],
        decreases m - i,
    {
        if s.get_char(i) != p.get_char(i) {
            return false;
        }
        i += 1;
    }
    assert(s@.subrange(0, m as int) =~= p@);
    true
}

fn strip_prefixes(s: &str, p: &str) -> (r: String)
    ensures
        r@ == strip_all(s@, p@),
{
    let n = s.unicode_len();
    let m = p.unicode_len();
    if m == 0 {
        return String::from_str(s);
    }
    let mut i: usize = 0;
    assert(s@.subrange(0, n as int) =~= s@);
    while m <= n - i && has_prefix(s.substring_char(i, n), p)
        invariant
            n == s@.len(),
            m == p@.len(),
            m > 0,
            i <= n,
            strip_all(s@, p@) == strip_all(s@.subrange(i as int, n as int), p@),
        decreases n - i,
    {
        let ghost rest = s@.subrange(i as int, n as int);
        assert(rest.subrange(m as int, rest.len() as int) =~= s@.subrange(i + m, n as int));
        i += m;
    }
    let r = String::from_str(s.substring_char(i, n));
    proof {
        let rest = s@.subrange(i as int, n as int);
        if !(m <= n - i) {
            assert(!starts_with(rest, p@));
        }
    }
    r
}

fn trimmed(s: &str) -> (r: String)
    ensures
        r@ == trim(s@),
{
    let n = s.unicode_len();
    let mut a: usize = 0;
    assert(s@.subrange(0, n as int) =~= s@);
    while a < n && is_white_space_char(s.get_char(a))
        invariant
            n == s@.len(),
            a <= n,
            trim_start(s@) == trim_start(s@.subrange(a as int, n as int)),
        decreases n - a,
    {
        assert(s@.subrange(a as int, n as int).subrange(1, n - a) =~= s@.subrange(a + 1, n as int));
        a += 1;
    }
    let mut b: usize = n;
    assert(trim_start(s@) == s@.subrange(a as int, b as int));
    while b > a && is_white_space_char(s.get_char(b - 1))
        invariant
            n == s@.len(),
            a <= b <= n,
            trim(s@) == trim_end(s@.subrange(a as int, b as int)),
        decreases b - a,
    {
        assert(s@.subrange(a as int, b as int).drop_last() =~= s@.subrange(a as int, b - 1));
        b -= 1;
    }
    String::from_str(s.substring_char(a, b))
}

/// The markdown text of one documentation chunk.
pub fn doc_comment_text(code: &str) -> (r: String)
    ensures
        r@ == doc_text(code@),
{
    proof {
        reveal_strlit("# !doc");
    }
    let lines = split_lines(code);
    let ghost raw = lines@.map_values(|l: String| l@);
    let mut cleaned: Vec<String> = Vec::new();
    let mut i: usize = 0;
    while i < lines.len()
        invariant
            0 <= i <= lines@.len(),
            raw == lines@.map_values(|l: String| l@),
            cleaned@.len() == i,
            forall|k: int| 0 <= k < i ==> (#[trigger] cleaned@[k])@ == clean_line(raw[k]),
        decreases lines@.len() - i,
    {
        let once = strip_prefixes(lines[i].as_str(), "# !doc");
        let twice = strip_prefixes(once.as_str(), hash_sign());
        cleaned.push(trimmed(twice.as_str()));
        i += 1;
    }
    assert(cleaned@.map_values(|l: String| l@) =~= lines_of(code@).map_values(
        |l: Seq<char>| clean_line(l),
    ));
    let joined = joined_lines(&cleaned);
    trimmed(joined.as_str())
}

/// The documentation texts of the chunks that open with the marker.
pub fn extract_doc_comments(items: &[ItemContent]) -> (r: Vec<String>)
    ensures
        r@.map_values(|s: String| s@) == doc_comments(items_view(items@)),
{
    let ghost iv = items_view(items@);
    let mut r: Vec<String> = Vec::new();
    let mut i: usize = 0;
    while i < items.len()
        invariant
            0 <= i <= items@.len(),
            iv == items_view(items@),
            r@.map_values(|s: String| s@) == doc_comments(iv.subrange(0, i as int)),
        decreases items@.len() - i,
    {
        assert(iv.subrange(0, i as int + 1).drop_last() =~= iv.subrange(0, i as int));
        assert(iv.subrange(0, i as int + 1).last() == items@[i as int]@);
        match &items[i] {
            ItemContent::Words { code } => {
                if has_prefix(code.as_str(), "# !doc") {
                    let ghost before = r@;
                    r.push(doc_comment_text(code.as_str()));
                    assert(r@.map_values(|s: String| s@) =~= before.map_values(|s: String| s@).push(
                        doc_text(code@),
                    ));
                }
            },
            _ => {},
        }
        i += 1;
    }
    assert(iv.subrange(0, items@.len() as int) =~= iv);
    r
}

} // verus!
