//! The code tokenizer: groups the grapheme clusters of a piece of source code
//! into lines of fragments, plain text or classified spans, ready to be drawn
//! with syntax highlighting.
use crate::text::{
    find_newline, first_newline, lemma_first_newline_range, lines_of, split_lines, strip_cr,
    without_cr,
};
use vstd::prelude::*;

verus! {

/// What the compiler knows of a primitive, as far as its colour goes.
#[derive(Debug, Clone, Copy, PartialEq, Eq, Structural)]
pub struct PrimitiveInfo {
    /// Whether the primitive is the identity function.
    pub identity: bool,
    /// Whether the primitive belongs to the stack or debug classes.
    pub stack_or_debug: bool,
    /// Whether the primitive is a constant.
    pub constant: bool,
    /// The number of function arguments, for a modifier.
    pub modifier_args: Option<usize>,
    /// The number of inputs of its signature, when it has one.
    pub args: Option<usize>,
}

/// What a binding that an identifier resolves to is.
#[derive(Debug, Clone, Copy, PartialEq, Eq, Structural)]
pub enum BindingDocsKind {
    Constant,
    /// A function, with the number of its inputs.
    Function(usize),
    /// A modifier, with the number of its function arguments.
    Modifier(usize),
    Module,
    Error,
}

/// The classification of a span of code.
#[derive(Debug, Clone, Copy, PartialEq, Eq, Structural)]
pub enum SpanCategory {
    Primitive(PrimitiveInfo),
    Number,
    String,
    Comment,
    Strand,
    /// A subscript that belongs to no primitive.
    Subscript,
    /// A macro delimiter, with the number of function arguments.
    MacroDelim(usize),
    ArgSetter,
    /// An identifier, with what it resolves to, if known.
    Ident(Option<BindingDocsKind>),
    Other,
}

/// A classified range of grapheme positions, end exclusive.
#[derive(Debug, Clone, Copy, PartialEq, Eq, Structural)]
pub struct ClassifiedSpan {
    pub start: usize,
    pub end: usize,
    pub kind: SpanCategory,
}

#[derive(Debug, Clone)]
pub enum CodeFragment {
    Unspanned(String),
    Br,
    Span(String, SpanCategory),
}

/// Lines of fragments.
#[derive(Debug, Clone)]
pub struct CodeLines {
    pub frags: Vec<Vec<CodeFragment>>,
}

pub ghost enum FragView {
    Plain(Seq<char>),
    Br,
    Span(Seq<char>, SpanCategory),
}

impl View for CodeFragment {
    type V = FragView;

    open spec fn view(&self) -> FragView {
        match self {
            CodeFragment::Unspanned(s) => FragView::Plain(s@),
            CodeFragment::Br => FragView::Br,
            CodeFragment::Span(s, k) => FragView::Span(s@, *k),
        }
    }
}

pub open spec fn line_view(l: Vec<CodeFragment>) -> Seq<FragView> {
    l@.map_values(|f: CodeFragment| f@)
}

pub open spec fn lines_view(ls: Seq<Vec<CodeFragment>>) -> Seq<Seq<FragView>> {
    ls.map_values(|l: Vec<CodeFragment>| line_view(l))
}

// ---------------------------------------------------------------------------
// The line model
// ---------------------------------------------------------------------------

/// Adds plain text to the current line, joining the plain text before it.
pub open spec fn put_text(ls: Seq<Seq<FragView>>, g: Seq<char>) -> Seq<Seq<FragView>> {
    let line = ls.last();
    if g.len() == 0 {
        ls
    } else if line.len() > 0 && line.last() is Plain {
        ls.drop_last().push(line.drop_last().push(FragView::Plain(line.last()->Plain_0 + g)))
    } else {
        ls.drop_last().push(line.push(FragView::Plain(g)))
    }
}

/// Starts a new line; a line left without fragments gets a line break.
pub open spec fn new_line(ls: Seq<Seq<FragView>>) -> Seq<Seq<FragView>> {
    if ls.last().len() == 0 {
        ls.drop_last().push(seq![FragView::Br]).push(Seq::empty())
    } else {
        ls.push(Seq::empty())
    }
}

pub open spec fn put_span(ls: Seq<Seq<FragView>>, text: Seq<char>, kind: SpanCategory) -> Seq<
    Seq<FragView>,
> {
    ls.drop_last().push(ls.last().push(FragView::Span(text, kind)))
}

/// One unclassified grapheme cluster: each line feed in it starts a new
/// line, and a carriage return just before a line feed is dropped.
pub open spec fn put_cluster(ls: Seq<Seq<FragView>>, g: Seq<char>) -> Seq<Seq<FragView>>
    decreases g.len(),
{
    let k = first_newline(g, 0);
    if k < 0 || k >= g.len() {
        put_text(ls, g)
    } else {
        put_cluster(
            new_line(put_text(ls, strip_cr(g.subrange(0, k)))),
            g.subrange(k + 1, g.len() as int),
        )
    }
}

/// Unclassified grapheme clusters, one after the other.
pub open spec fn put_gap(ls: Seq<Seq<FragView>>, gs: Seq<Seq<char>>) -> Seq<Seq<FragView>>
    decreases gs.len(),
{
    if gs.len() == 0 {
        ls
    } else {
        put_cluster(put_gap(ls, gs.drop_last()), gs.last())
    }
}

pub open spec fn new_lines(ls: Seq<Seq<FragView>>, n: nat) -> Seq<Seq<FragView>>
    decreases n,
{
    if n == 0 {
        ls
    } else {
        new_line(new_lines(ls, (n - 1) as nat))
    }
}

/// One classified fragment per line of a span, with new lines between them.
pub open spec fn put_pieces(ls: Seq<Seq<FragView>>, pieces: Seq<Seq<char>>, kind: SpanCategory) -> Seq<
    Seq<FragView>,
>
    decreases pieces.len(),
{
    if pieces.len() == 0 {
        ls
    } else {
        let before = put_pieces(ls, pieces.drop_last(), kind);
        let opened = if pieces.len() > 1 {
            new_line(before)
        } else {
            before
        };
        put_span(opened, pieces.last(), kind)
    }
}

pub open spec fn all_newlines(t: Seq<char>) -> bool {
    forall|i: int| 0 <= i < t.len() ==> t[i] == '\n'
}

/// A classified span: only line feeds give that many new lines; any other
/// text gives one classified fragment per line.
pub open spec fn put_classified(ls: Seq<Seq<FragView>>, text: Seq<char>, kind: SpanCategory) -> Seq<
    Seq<FragView>,
> {
    if text.len() > 0 && all_newlines(text) {
        new_lines(ls, text.len())
    } else {
        put_pieces(ls, lines_of(text), kind)
    }
}

pub open spec fn concat(gs: Seq<Seq<char>>) -> Seq<char>
    decreases gs.len(),
{
    if gs.len() == 0 {
        Seq::empty()
    } else {
        concat(gs.drop_last()) + gs.last()
    }
}

/// The text of a span, or nothing when it does not lie within the graphemes.
pub open spec fn span_text(gs: Seq<Seq<char>>, s: ClassifiedSpan) -> Seq<char> {
    if s.start <= s.end <= gs.len() {
        concat(gs.subrange(s.start as int, s.end as int))
    } else {
        Seq::empty()
    }
}

/// The unclassified graphemes from `cursor` up to `target`.
pub open spec fn gap(gs: Seq<Seq<char>>, cursor: int, target: int) -> Seq<Seq<char>> {
    let t = if target < gs.len() {
        target
    } else {
        gs.len() as int
    };
    if 0 <= cursor < t {
        gs.subrange(cursor, t)
    } else {
        Seq::empty()
    }
}

pub ghost struct TokenState {
    pub lines: Seq<Seq<FragView>>,
    pub cursor: int,
}

/// The lines after the first `n` spans, and where the last of them ends.
pub open spec fn after_spans(gs: Seq<Seq<char>>, spans: Seq<ClassifiedSpan>, n: int) -> TokenState
    decreases n,
{
    if n <= 0 || n > spans.len() {
        TokenState { lines: seq![Seq::empty()], cursor: 0 }
    } else {
        let st = after_spans(gs, spans, n - 1);
        let sp = spans[n - 1];
        let opened = put_gap(st.lines, gap(gs, st.cursor, sp.start as int));
        TokenState { lines: put_classified(opened, span_text(gs, sp), sp.kind), cursor: sp.end as int }
    }
}

/// All graphemes as lines of fragments.
pub open spec fn tokenized(gs: Seq<Seq<char>>, spans: Seq<ClassifiedSpan>) -> Seq<Seq<FragView>> {
    let st = after_spans(gs, spans, spans.len() as int);
    put_gap(st.lines, gap(gs, st.cursor, gs.len() as int))
}

/// The last `n` lines, or all of them when there are fewer.
pub open spec fn keep_last<T>(ls: Seq<T>, n: nat) -> Seq<T> {
    if ls.len() > n {
        ls.subrange(ls.len() - n, ls.len() as int)
    } else {
        ls
    }
}

// ---------------------------------------------------------------------------
// Execution
// ---------------------------------------------------------------------------

proof fn lemma_lines_push(ls: Seq<Vec<CodeFragment>>, l: Vec<CodeFragment>)
    ensures
        lines_view(ls.push(l)) == lines_view(ls).push(line_view(l)),
{
    assert(lines_view(ls.push(l)) =~= lines_view(ls).push(line_view(l)));
}

proof fn lemma_lines_pop(ls: Seq<Vec<CodeFragment>>)
    requires
        ls.len() > 0,
    ensures
        lines_view(ls.drop_last()) == lines_view(ls).drop_last(),
        lines_view(ls).last() == line_view(ls.last()),
{
    assert(lines_view(ls.drop_last()) =~= lines_view(ls).drop_last());
}

fn take_last_line(lines: &mut Vec<Vec<CodeFragment>>) -> (r: Vec<CodeFragment>)
    requires
        old(lines)@.len() > 0,
    ensures
        final(lines)@ == old(lines)@.drop_last(),
        r == old(lines)@.last(),
        lines_view(final(lines)@) == lines_view(old(lines)@).drop_last(),
        line_view(r) == lines_view(old(lines)@).last(),
{
    proof {
        lemma_lines_pop(lines@);
    }
    match lines.pop() {
        Some(l) => l,
        None => Vec::new(),
    }
}

fn push_line(lines: &mut Vec<Vec<CodeFragment>>, l: Vec<CodeFragment>)
    ensures
        lines_view(final(lines)@) == lines_view(old(lines)@).push(line_view(l)),
        final(lines)@.len() == old(lines)@.len() + 1,
{
    proof {
        lemma_lines_push(lines@, l);
    }
    lines.push(l);
}

fn push_text(lines: &mut Vec<Vec<CodeFragment>>, g: &str)
    requires
        old(lines)@.len() > 0,
    ensures
        lines_view(final(lines)@) == put_text(lines_view(old(lines)@), g@),
        final(lines)@.len() == old(lines)@.len(),
{
    let ghost ls = lines_view(lines@);
    if g.unicode_len() == 0 {
        return;
    }
    let mut line = take_last_line(lines);
    let ghost lv = line_view(line);
    match line.pop() {
        Some(CodeFragment::Unspanned(t)) => {
            let mut t = t;
            t.append(g);
            line.push(CodeFragment::Unspanned(t));
            assert(line_view(line) =~= lv.drop_last().push(FragView::Plain(lv.last()->Plain_0 + g@)));
        },
        Some(other) => {
            line.push(other);
            assert(line_view(line) =~= lv);
            line.push(CodeFragment::Unspanned(String::from_str(g)));
            assert(line_view(line) =~= lv.push(FragView::Plain(g@)));
        },
        None => {
            line.push(CodeFragment::Unspanned(String::from_str(g)));
            assert(line_view(line) =~= lv.push(FragView::Plain(g@)));
        },
    }
    push_line(lines, line);
}

fn start_line(lines: &mut Vec<Vec<CodeFragment>>)
    requires
        old(lines)@.len() > 0,
    ensures
        lines_view(final(lines)@) == new_line(lines_view(old(lines)@)),
        final(lines)@.len() == old(lines)@.len() + 1,
{
    let ghost ls = lines_view(lines@);
    let mut line = take_last_line(lines);
    if line.len() == 0 {
        line.push(CodeFragment::Br);
        assert(line_view(line) =~= seq![FragView::Br]);
    }
    push_line(lines, line);
    let fresh: Vec<CodeFragment> = Vec::new();
    assert(line_view(fresh) =~= Seq::<FragView>::empty());
    push_line(lines, fresh);
}

fn push_span(lines: &mut Vec<Vec<CodeFragment>>, text: String, kind: SpanCategory)
    requires
        old(lines)@.len() > 0,
    ensures
        lines_view(final(lines)@) == put_span(lines_view(old(lines)@), text@, kind),
        final(lines)@.len() == old(lines)@.len(),
{
    let ghost ls = lines_view(lines@);
    let mut line = take_last_line(lines);
    let ghost lv = line_view(line);
    line.push(CodeFragment::Span(text, kind));
    assert(line_view(line) =~= lv.push(FragView::Span(text@, kind)));
    push_line(lines, line);
}

/// Adds one unclassified grapheme cluster.
fn push_cluster(lines: &mut Vec<Vec<CodeFragment>>, g: &str)
    requires
        old(lines)@.len() > 0,
    ensures
        lines_view(final(lines)@) == put_cluster(lines_view(old(lines)@), g@),
        final(lines)@.len() > 0,
    decreases g@.len(),
{
    proof {
        lemma_first_newline_range(g@, 0);
    }
    match find_newline(g) {
        None => push_text(lines, g),
        Some(k) => {
            let head = without_cr(g.substring_char(0, k));
            push_text(lines, head.as_str());
            start_line(lines);
            let n = g.unicode_len();
            let rest = g.substring_char(k + 1, n);
            push_cluster(lines, rest);
        },
    }
}

/// Adds the unclassified graphemes from `from` up to `to`.
fn push_gap(lines: &mut Vec<Vec<CodeFragment>>, gs: &Vec<String>, from: usize, to: usize)
    requires
        old(lines)@.len() > 0,
    ensures
        lines_view(final(lines)@) == put_gap(
            lines_view(old(lines)@),
            gap(gs@.map_values(|g: String| g@), from as int, to as int),
        ),
        final(lines)@.len() > 0,
{
    let ghost views = gs@.map_values(|g: String| g@);
    let ghost start = lines_view(lines@);
    let target = if to < gs.len() {
        to
    } else {
        gs.len()
    };
    if from >= target {
        assert(gap(views, from as int, to as int) =~= Seq::<Seq<char>>::empty());
        return;
    }
    let mut i: usize = from;
    assert(views.subrange(from as int, from as int) =~= Seq::<Seq<char>>::empty());
    while i < target
        invariant
            from <= i <= target <= gs@.len(),
            views == gs@.map_values(|g: String| g@),
            lines@.len() > 0,
            lines_view(lines@) == put_gap(start, views.subrange(from as int, i as int)),
        decreases target - i,
    {
        assert(views.subrange(from as int, i as int + 1).drop_last() =~= views.subrange(
            from as int,
            i as int,
        ));
        push_cluster(lines, gs[i].as_str());
        i += 1;
    }
}

/// Joins the graphemes of a span.
fn concat_graphemes(gs: &Vec<String>, from: usize, to: usize) -> (r: String)
    requires
        from <= to <= gs@.len(),
    ensures
        r@ == concat(gs@.map_values(|g: String| g@).subrange(from as int, to as int)),
{
    let ghost views = gs@.map_values(|g: String| g@);
    let mut r = String::new();
    let mut i: usize = from;
    assert(views.subrange(from as int, from as int) =~= Seq::<Seq<char>>::empty());
    while i < to
        invariant
            from <= i <= to <= gs@.len(),
            views == gs@.map_values(|g: String| g@),
            r@ == concat(views.subrange(from as int, i as int)),
        decreases to - i,
    {
        assert(views.subrange(from as int, i as int + 1).drop_last() =~= views.subrange(
            from as int,
            i as int,
        ));
        r.append(gs[i].as_str());
        i += 1;
    }
    r
}

fn only_newlines(t: &String) -> (r: bool)
    ensures
        r == (t@.len() > 0 && all_newlines(t@)),
{
    let s = t.as_str();
    let n = s.unicode_len();
    if n == 0 {
        return false;
    }
    let mut i: usize = 0;
    while i < n
        invariant
            n == t@.len(),
            s@ == t@,
            0 <= i <= n,
            forall|j: int| 0 <= j < i ==> t@[j] == '\n',
        decreases n - i,
    {
        if s.get_char(i) != '\n' {
            return false;
        }
        i += 1;
    }
    true
}

fn push_classified(lines: &mut Vec<Vec<CodeFragment>>, text: String, kind: SpanCategory)
    requires
        old(lines)@.len() > 0,
    ensures
        lines_view(final(lines)@) == put_classified(lines_view(old(lines)@), text@, kind),
        final(lines)@.len() > 0,
{
    let ghost start = lines_view(lines@);
    if only_newlines(&text) {
        let n = text.as_str().unicode_len();
        let mut i: usize = 0;
        while i < n
            invariant
                0 <= i <= n,
                lines@.len() > 0,
                lines_view(lines@) == new_lines(start, i as nat),
            decreases n - i,
        {
            start_line(lines);
            i += 1;
        }
    } else {
        let pieces = split_lines(text.as_str());
        let ghost views = pieces@.map_values(|l: String| l@);
        let mut i: usize = 0;
        assert(views.subrange(0, 0) =~= Seq::<Seq<char>>::empty());
        while i < pieces.len()
            invariant
                0 <= i <= pieces@.len(),
                views == pieces@.map_values(|l: String| l@),
                lines@.len() > 0,
                lines_view(lines@) == put_pieces(start, views.subrange(0, i as int), kind),
            decreases pieces@.len() - i,
        {
            assert(views.subrange(0, i as int + 1).drop_last() =~= views.subrange(0, i as int));
            if i > 0 {
                start_line(lines);
            }
            push_span(lines, pieces[i].clone(), kind);
            i += 1;
        }
        assert(views.subrange(0, pieces@.len() as int) =~= views);
    }
}

/// Groups graphemes into lines of fragments, given the classified spans in
/// order, and keeps the last `line_count` lines.
pub fn build_code_lines_from(
    graphemes: &Vec<String>,
    spans: &Vec<ClassifiedSpan>,
    line_count: usize,
) -> (r: CodeLines)
    ensures
        lines_view(r.frags@) == keep_last(
            tokenized(graphemes@.map_values(|g: String| g@), spans@),
            line_count as nat,
        ),
        crate::laws::fragments_ok(lines_view(r.frags@)),
{
    let ghost gs = graphemes@.map_values(|g: String| g@);
    proof {
        crate::laws::law_fragments_hold_no_line_feed(gs, spans@, line_count as nat);
    }
    let mut lines: Vec<Vec<CodeFragment>> = Vec::new();
    let first: Vec<CodeFragment> = Vec::new();
    assert(line_view(first) =~= Seq::<FragView>::empty());
    lines.push(first);
    assert(lines_view(lines@) =~= seq![Seq::<FragView>::empty()]);
    let mut cursor: usize = 0;
    let mut k: usize = 0;
    while k < spans.len()
        invariant
            0 <= k <= spans@.len(),
            gs == graphemes@.map_values(|g: String| g@),
            lines@.len() > 0,
            after_spans(gs, spans@, k as int) == (TokenState {
                lines: lines_view(lines@),
                cursor: cursor as int,
            }),
        decreases spans@.len() - k,
    {
        let sp = spans[k];
        push_gap(&mut lines, graphemes, cursor, sp.start);
        let text = if sp.start <= sp.end && sp.end <= graphemes.len() {
            concat_graphemes(graphemes, sp.start, sp.end)
        } else {
            String::new()
        };
        push_classified(&mut lines, text, sp.kind);
        cursor = sp.end;
        k += 1;
    }
    push_gap(&mut lines, graphemes, cursor, graphemes.len());
    let ghost all = lines_view(lines@);
    if lines.len() > line_count {
        let drop = lines.len() - line_count;
        let ghost whole = lines@;
        let kept = lines.split_off(drop);
        assert(lines_view(kept@) =~= all.subrange(drop as int, whole.len() as int));
        CodeLines { frags: kept }
    } else {
        CodeLines { frags: lines }
    }
}

} // verus!
