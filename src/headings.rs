//! Headings of rendered documentation: each goes one level down, and those
//! that end up at the second level get an anchor and a table-of-contents link.
use crate::docs::starts_with;
use crate::summary::{ItemLink, LinkView};
use crate::text::{empty_text, hash_sign, hyphen};
use vstd::prelude::*;

verus! {

/// The lowercase form of a text.
pub uninterp spec fn lower_of(s: Seq<char>) -> Seq<char>;

/// Relies on `str::to_lowercase`: the lowercase form depends on the
/// characters alone.
#[verifier::external_body]
fn lowercase(s: &str) -> (r: String)
    ensures
        r@ == lower_of(s@),
{
    s.to_lowercase()
}

/// An anchor made from lowercase text: spaces become hyphens.
pub open spec fn slug_of(lower: Seq<char>) -> Seq<char> {
    lower.map_values(|c: char| if c == ' ' { '-' } else { c })
}

/// The anchor of already lowercased text.
pub fn anchor_from_lowercase(lower: &str) -> (r: String)
    ensures
        r@ == slug_of(lower@),
{
    let n = lower.unicode_len();
    let mut r = String::new();
    let mut i: usize = 0;
    while i < n
        invariant
            n == lower@.len(),
            0 <= i <= n,
            r@ == slug_of(lower@.subrange(0, i as int)),
        decreases n - i,
    {
        if lower.get_char(i) == ' ' {
            r.append(hyphen());
        } else {
            r.append(lower.substring_char(i, i + 1));
        }
        assert(r@ =~= slug_of(lower@.subrange(0, i as int + 1)));
        i += 1;
    }
    assert(lower@.subrange(0, n as int) =~= lower@);
    r
}

/// The anchor of a heading's title.
pub fn heading_slug(title: &str) -> (r: String)
    ensures
        r@ == slug_of(lower_of(title@)),
{
    let lower = lowercase(title);
    anchor_from_lowercase(lower.as_str())
}

/// A heading of rendered documentation: its level, 1 to 6, and its text.
#[derive(Debug, Clone)]
pub struct Heading {
    pub level: usize,
    pub text: String,
}

/// A heading after promotion, with its anchor when it has one.
#[derive(Debug, Clone)]
pub struct PromotedHeading {
    pub level: usize,
    pub text: String,
    pub id: Option<String>,
}

/// One level down, and no lower than the sixth.
pub open spec fn promoted_level(level: usize) -> usize {
    if 1 <= level <= 4 {
        (level + 1) as usize
    } else {
        6
    }
}

pub fn promote_level(level: usize) -> (r: usize)
    ensures
        r == promoted_level(level),
{
    if 1 <= level && level <= 4 {
        level + 1
    } else {
        6
    }
}

/// The anchor of a heading once promoted: only second-level headings get one.
pub open spec fn heading_anchor(h: Heading) -> Option<Seq<char>> {
    if promoted_level(h.level) == 2 {
        Some(slug_of(lower_of(h.text@)))
    } else {
        None
    }
}

/// The table-of-contents links of the headings, in order.
pub open spec fn heading_links(hs: Seq<Heading>) -> Seq<LinkView>
    decreases hs.len(),
{
    if hs.len() == 0 {
        Seq::empty()
    } else {
        let rest = heading_links(hs.drop_last());
        match heading_anchor(hs.last()) {
            Some(id) => rest.push(LinkView { title: hs.last().text@, url: seq!['#'] + id }),
            None => rest,
        }
    }
}

pub open spec fn opt_anchor(id: Option<String>) -> Option<Seq<char>> {
    match id {
        Some(s) => Some(s@),
        None => None,
    }
}

/// Promotes every heading, and collects a link for each second-level one.
pub fn promote_headings(headings: &Vec<Heading>) -> (r: (Vec<PromotedHeading>, Vec<ItemLink>))
    ensures
        r.0@.len() == headings@.len(),
        forall|k: int|
            0 <= k < headings@.len() ==> {
                &&& (#[trigger] r.0@[k]).level == promoted_level(headings@[k].level)
                &&& r.0@[k].text@ == headings@[k].text@
                &&& opt_anchor(r.0@[k].id) == heading_anchor(headings@[k])
            },
        r.1@.map_values(|l: ItemLink| l@) == heading_links(headings@),
{
    let mut promoted: Vec<PromotedHeading> = Vec::new();
    let mut links: Vec<ItemLink> = Vec::new();
    let mut i: usize = 0;
    while i < headings.len()
        invariant
            0 <= i <= headings@.len(),
            promoted@.len() == i,
            forall|k: int|
                0 <= k < i ==> {
                    &&& (#[trigger] promoted@[k]).level == promoted_level(headings@[k].level)
                    &&& promoted@[k].text@ == headings@[k].text@
                    &&& opt_anchor(promoted@[k].id) == heading_anchor(headings@[k])
                },
            links@.map_values(|l: ItemLink| l@) == heading_links(headings@.subrange(0, i as int)),
        decreases headings@.len() - i,
    {
        let h = &headings[i];
        assert(headings@.subrange(0, i as int + 1).drop_last() =~= headings@.subrange(0, i as int));
        let level = promote_level(h.level);
        let id = if level == 2 {
            let slug = heading_slug(h.text.as_str());
            let mut url = String::from_str(hash_sign());
            url.append(slug.as_str());
            let ghost before = links@;
            links.push(ItemLink { title: h.text.clone(), url });
            assert(links@.map_values(|l: ItemLink| l@) =~= before.map_values(|l: ItemLink| l@).push(
                LinkView { title: h.text@, url: seq!['#'] + slug@ },
            ));
            Some(slug)
        } else {
            None
        };
        promoted.push(PromotedHeading { level, text: h.text.clone(), id });
        i += 1;
    }
    assert(headings@.subrange(0, headings@.len() as int) =~= headings@);
    (promoted, links)
}

/// `s` with every occurrence of `p`, from left to right, replaced by `w`.
pub open spec fn replaced(s: Seq<char>, p: Seq<char>, w: Seq<char>) -> Seq<char>
    decreases s.len(),
{
    if p.len() == 0 || s.len() == 0 {
        s
    } else if starts_with(s, p) {
        w + replaced(s.subrange(p.len() as int, s.len() as int), p, w)
    } else {
        seq![s[0]] + replaced(s.subrange(1, s.len() as int), p, w)
    }
}

pub fn replace_all(s: &str, p: &str, w: &str) -> (r: String)
    ensures
        r@ == replaced(s@, p@, w@),
{
    let n = s.unicode_len();
    let m = p.unicode_len();
    if m == 0 {
        return String::from_str(s);
    }
    let mut out = String::new();
    let mut i: usize = 0;
    assert(s@.subrange(0, n as int) =~= s@);
    assert(out@ + replaced(s@, p@, w@) =~= replaced(s@, p@, w@));
    while i < n
        invariant
            n == s@.len(),
            m == p@.len(),
            m > 0,
            0 <= i <= n,
            out@ + replaced(s@.subrange(i as int, n as int), p@, w@) == replaced(s@, p@, w@),
        decreases n - i,
    {
        let ghost rest = s@.subrange(i as int, n as int);
        if crate::docs::has_prefix(s.substring_char(i, n), p) {
            assert(rest.subrange(m as int, rest.len() as int) =~= s@.subrange(i + m, n as int));
            let ghost before = out@;
            out.append(w);
            assert(out@ + replaced(s@.subrange(i + m, n as int), p@, w@) =~= before + replaced(
                rest,
                p@,
                w@,
            ));
            i += m;
        } else {
            assert(rest.subrange(1, rest.len() as int) =~= s@.subrange(i + 1, n as int));
            let ghost before = out@;
            out.append(s.substring_char(i, i + 1));
            assert(out@ + replaced(s@.subrange(i + 1, n as int), p@, w@) =~= before + replaced(
                rest,
                p@,
                w@,
            ));
            i += 1;
        }
    }
    assert(replaced(s@.subrange(n as int, n as int), p@, w@) =~= Seq::<char>::empty());
    assert(out@ =~= out@ + Seq::<char>::empty());
    out
}

/// The opening tags that a parsed HTML fragment is wrapped in.
pub open spec fn document_open() -> Seq<char> {
    "<html><head></head><body>"@
}

/// The closing tags that a parsed HTML fragment is wrapped in.
pub open spec fn document_close() -> Seq<char> {
    "</body></html>"@
}

/// An HTML fragment without the document tags that serialising a parsed
/// fragment wraps it in.
pub fn strip_document_wrapper(html: &str) -> (r: String)
    ensures
        r@ == replaced(replaced(html@, document_open(), Seq::empty()), document_close(), Seq::empty()),
{
    let opened = replace_all(html, "<html><head></head><body>", empty_text());
    replace_all(opened.as_str(), "</body></html>", empty_text())
}

} // verus!
