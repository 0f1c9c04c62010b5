//! Laws that relate the library's functions, proved over the spec functions
//! that their contracts are stated in.
use crate::extract::{extract_items, flush, inner_of, progress_upto, words_code, ExtractError, Progress};
use crate::headings::{heading_anchor, lower_of, promoted_level, slug_of, Heading};
use crate::model::{ArgumentView, ItemView, ModuleView, NamedArgument, NamedSignature, SignatureInfo, shows_publicly};
use crate::reconcile::{
    comment_inputs, field_names, input_name, output_name, reconciled, };
use crate::source::{BindingInfo, SourceItem};
use crate::summary::{
    binding_category, binding_groups, category_group, category_link, category_title,
    displayed_modules, groups_upto, keep, public_items, summary_sections, ContentView,
    RenderingItemView, SectionType,
};
use crate::text::{
    blank_at, first_blank, first_newline, join_lines, lemma_first_newline_range, lines_of, normalize_newlines,
    split_blank, strip_cr,
};
use crate::tokenize::{
    after_spans, all_newlines, gap, keep_last, new_line, new_lines, put_cluster, put_gap,
    put_pieces, put_span, put_text, span_text, tokenized, ClassifiedSpan, FragView, SpanCategory,
};
use vstd::prelude::*;

verus! {

/// Without declared names, a function of arity (i, o) has exactly i required
/// inputs named `Input` or `Input1`..`Inputi`, no optional inputs, and o
/// outputs named `Output` or `Output1`..`Outputo`, all of them inferred.
pub proof fn law_inferred_names(sig: SignatureInfo)
    ensures
        ({
            let f = reconciled(sig, None, Seq::empty());
            &&& f.required_inputs.len() == sig.inputs
            &&& f.optional_inputs.len() == 0
            &&& f.outputs.len() == sig.outputs
            &&& forall|k: int|
                0 <= k < sig.inputs ==> #[trigger] f.required_inputs[k] == (ArgumentView {
                    name: input_name(sig.inputs as nat, k as nat),
                    optional: false,
                    comment_name: None,
                    inferred: true,
                })
            &&& forall|k: int|
                0 <= k < sig.outputs ==> (#[trigger] f.outputs[k]).name == output_name(
                    sig.outputs as nat,
                    k as nat,
                ) && f.outputs[k].inferred
        }),
{
    assert(field_names(Seq::empty(), true) =~= Seq::<Seq<char>>::empty());
    assert(field_names(Seq::empty(), false) =~= Seq::<Seq<char>>::empty());
}

/// When a constructor field and the documentation comment both name a
/// required slot, differently, the field name is used and the comment name
/// is kept as its alias.
pub proof fn law_field_name_wins(
    sig: SignatureInfo,
    named: Option<NamedSignature>,
    args: Seq<NamedArgument>,
    k: int,
)
    requires
        0 <= k < sig.inputs,
        k < comment_inputs(named).len(),
        k < field_names(args, true).len(),
        comment_inputs(named)[k] != field_names(args, true)[k],
    ensures
        reconciled(sig, named, args).required_inputs[k] == (ArgumentView {
            name: field_names(args, true)[k],
            optional: false,
            comment_name: Some(comment_inputs(named)[k]),
            inferred: false,
        }),
{
}

/// Two runs of plain code, the second starting on the line after the first
/// ends, form one chunk before the blank-line cut; with a gap between their
/// lines they form two.
pub proof fn law_adjacent_code_merges(items: Seq<SourceItem>, src: Seq<char>, reg: Seq<BindingInfo>)
    requires
        items.len() == 2,
        items[0] is Words,
        items[1] is Words,
        items[0]->Words_0@.len() > 0,
        items[1]->Words_0@.len() > 0,
    ensures
        ({
            let a = items[0]->Words_0@;
            let b = items[1]->Words_0@;
            let ta = normalize_newlines(words_code(src, a));
            let tb = normalize_newlines(words_code(src, b));
            &&& b[0].start_line == a.last().end_line + 1 ==> extract_items(items, src, reg) == Ok::<
                Seq<ItemView>,
                crate::extract::ExtractError,
            >(flush(Seq::empty(), seq![ta, tb]))
            &&& b[0].start_line != a.last().end_line + 1 ==> extract_items(items, src, reg) == Ok::<
                Seq<ItemView>,
                crate::extract::ExtractError,
            >(flush(flush(Seq::empty(), seq![ta]), seq![tb]))
        }),
{
    let a = items[0]->Words_0@;
    let b = items[1]->Words_0@;
    let ta = normalize_newlines(words_code(src, a));
    let tb = normalize_newlines(words_code(src, b));
    let initial = Progress { out: Seq::empty(), run: Seq::empty(), last_line: 0 };
    assert(progress_upto(items, 0, src, reg) == Ok::<Progress, ExtractError>(initial));
    assert(Seq::<Seq<char>>::empty().push(ta) =~= seq![ta]);
    let after_first = Progress { out: Seq::empty(), run: seq![ta], last_line: a.last().end_line as int };
    assert(inner_of(items[0], src, reg) == Ok::<Seq<ItemView>, ExtractError>(Seq::empty()));
    assert(progress_upto(items, 1, src, reg) == Ok::<Progress, ExtractError>(after_first));
    assert(inner_of(items[1], src, reg) == Ok::<Seq<ItemView>, ExtractError>(Seq::empty()));
    assert(seq![ta].push(tb) =~= seq![ta, tb]);
    if b[0].start_line == a.last().end_line + 1 {
        let after_second = Progress { out: Seq::empty(), run: seq![ta, tb], last_line: b.last().end_line as int };
        assert(progress_upto(items, 2, src, reg) == Ok::<Progress, ExtractError>(after_second));
    } else {
        let after_second = Progress {
            out: flush(Seq::empty(), seq![ta]),
            run: seq![tb],
            last_line: b.last().end_line as int,
        };
        assert(progress_upto(items, 2, src, reg) == Ok::<Progress, ExtractError>(after_second));
    }
}

proof fn lemma_no_blank_from(s: Seq<char>, from: int, j: int)
    requires
        0 <= from <= j,
        first_blank(s, from) < 0,
    ensures
        !blank_at(s, j),
    decreases j - from,
{
    if from + 1 >= s.len() {
    } else if j > from {
        lemma_no_blank_from(s, from + 1, j);
    }
}

proof fn lemma_first_blank_at(s: Seq<char>, from: int, k: int)
    requires
        0 <= from <= k,
        blank_at(s, k),
        forall|j: int| from <= j < k ==> !#[trigger] blank_at(s, j),
    ensures
        first_blank(s, from) == k,
    decreases k - from,
{
    if from < k {
        assert(!blank_at(s, from));
        lemma_first_blank_at(s, from + 1, k);
    }
}

/// A blank line cuts a chunk in two: text without blank lines, not ending in
/// a line feed, then a blank line, then text without blank lines, gives
/// exactly those two texts.
pub proof fn law_blank_line_splits(a: Seq<char>, b: Seq<char>)
    requires
        first_blank(a, 0) < 0,
        first_blank(b, 0) < 0,
        !(a.len() > 0 && a.last() == '\n'),
    ensures
        split_blank(a + seq!['\n', '\n'] + b) == seq![a, b],
{
    let s = a + seq!['\n', '\n'] + b;
    let k = a.len() as int;
    assert forall|j: int| 0 <= j < k implies !#[trigger] blank_at(s, j) by {
        if j + 1 < k {
            lemma_no_blank_from(a, 0, j);
            assert(s[j] == a[j] && s[j + 1] == a[j + 1]);
        } else {
            assert(s[j] == a.last());
        }
    }
    assert(blank_at(s, k));
    lemma_first_blank_at(s, 0, k);
    assert(s.subrange(0, k) =~= a);
    assert(s.subrange(k + 2, s.len() as int) =~= b);
    assert(split_blank(b) == seq![b]);
    assert(split_blank(s) =~= seq![a, b]);
}

proof fn lemma_public_items_show(items: Seq<ItemView>)
    ensures
        forall|j: int|
            0 <= j < public_items(items).len() ==> shows_publicly(#[trigger] public_items(items)[j]),
    decreases items.len(),
{
    if items.len() > 0 {
        let rest = public_items(items.drop_last());
        lemma_public_items_show(items.drop_last());
        assert forall|j: int|
            0 <= j < public_items(items).len() implies shows_publicly(
                #[trigger] public_items(items)[j],
            ) by {
            if j < rest.len() {
                assert(public_items(items)[j] == rest[j]);
            }
        }
    }
}

/// A module that holds only private bindings is not shown among the modules.
pub proof fn law_private_module_hidden(m: ModuleView)
    requires
        forall|k: int|
            0 <= k < m.items.len() ==> (#[trigger] m.items[k]) is Binding && !m.items[k]->Binding_0.public,
    ensures
        displayed_modules(seq![ItemView::Module(m)]).len() == 0,
{
    assert(seq![ItemView::Module(m)].drop_last() =~= Seq::<ItemView>::empty());
    assert(seq![ItemView::Module(m)].last() == ItemView::Module(m));
    assert(displayed_modules(Seq::<ItemView>::empty()) == Seq::<ItemView>::empty());
    assert(seq![ItemView::Module(m)].len() == 1);
    assert(!crate::model::has_public_content(m)) by {
        assert forall|k: int| 0 <= k < m.items.len() implies !shows_publicly(#[trigger] m.items[k]) by {
            assert(m.items[k] is Binding);
        }
    }
}

/// A module that holds a public binding is shown, with only the items that
/// show publicly: its private bindings are left out.
pub proof fn law_public_module_shown(m: ModuleView, k: int)
    requires
        0 <= k < m.items.len(),
        m.items[k] is Binding,
        m.items[k]->Binding_0.public,
    ensures
        displayed_modules(seq![ItemView::Module(m)]) == seq![
            ItemView::Module(
                ModuleView { name: m.name, comment: m.comment, items: public_items(m.items) },
            ),
        ],
        forall|j: int|
            0 <= j < public_items(m.items).len() ==> shows_publicly(
                #[trigger] public_items(m.items)[j],
            ),
{
    assert(shows_publicly(m.items[k]));
    assert(crate::model::has_public_content(m));
    assert(seq![ItemView::Module(m)].drop_last() =~= Seq::<ItemView>::empty());
    assert(seq![ItemView::Module(m)].last() == ItemView::Module(m));
    assert(displayed_modules(Seq::<ItemView>::empty()) == Seq::<ItemView>::empty());
    assert(seq![ItemView::Module(m)].len() == 1);
    assert(Seq::<ItemView>::empty().push(
        ItemView::Module(ModuleView { name: m.name, comment: m.comment, items: public_items(m.items) }),
    ) =~= seq![
        ItemView::Module(ModuleView { name: m.name, comment: m.comment, items: public_items(m.items) }),
    ]);
    lemma_public_items_show(m.items);
}

/// A first-level heading becomes a second-level one with an anchor made from
/// its title; a sixth-level heading stays at the sixth level; every level
/// goes down by one, to the sixth at most.
pub proof fn law_heading_promotion(h: Heading)
    ensures
        h.level == 1 ==> promoted_level(h.level) == 2 && heading_anchor(h) == Some(
            slug_of(lower_of(h.text@)),
        ),
        h.level == 6 ==> promoted_level(h.level) == 6 && heading_anchor(h) is None,
        1 <= h.level <= 5 ==> promoted_level(h.level) == h.level + 1,
{
}

pub open spec fn section_rank(t: SectionType) -> int {
    match t {
        SectionType::Documentation => 0,
        SectionType::Modules => 1,
        SectionType::Bindings => 2,
    }
}

/// Sections come in their fixed order, documentation, modules, bindings, each
/// at most once, and none of them is empty.
pub proof fn law_sections_ordered(docs: Seq<RenderingItemView>, items: Seq<ItemView>)
    ensures
        ({
            let s = summary_sections(docs, items);
            &&& forall|i: int, j: int|
                0 <= i < j < s.len() ==> section_rank(#[trigger] s[i].section_type) < section_rank(
                    #[trigger] s[j].section_type,
                )
            &&& forall|i: int| 0 <= i < s.len() ==> (#[trigger] s[i]).content.len() > 0
        }),
{
    let s = summary_sections(docs, items);
    let a = crate::summary::section("Documentation"@, SectionType::Documentation, docs);
    let b = crate::summary::section(
        "Modules"@,
        SectionType::Modules,
        displayed_modules(items).map_values(|v: ItemView| crate::summary::module_entry(v)),
    );
    let c = crate::summary::section(
        "Bindings"@,
        SectionType::Bindings,
        crate::summary::binding_groups(items),
    );
    assert(s == a + b + c);
    assert(a.len() <= 1 && b.len() <= 1 && c.len() <= 1);
    assert forall|i: int| 0 <= i < s.len() implies (#[trigger] s[i]).content.len() > 0
        && section_rank(s[i].section_type) == (if i < a.len() {
        0int
    } else if i < a.len() + b.len() {
        1int
    } else {
        2int
    }) by {
        if i < a.len() {
            assert(s[i] == a[i]);
        } else if i < a.len() + b.len() {
            assert(s[i] == b[i - a.len()]);
        } else {
            assert(s[i] == c[i - a.len() - b.len()]);
        }
    }
}

pub open spec fn no_line_feed(t: Seq<char>) -> bool {
    forall|i: int| 0 <= i < t.len() ==> t[i] != '\n'
}

/// A fragment that draws as it should: plain text is never empty, and no
/// text holds a line feed.
pub open spec fn fragment_ok(f: FragView) -> bool {
    match f {
        FragView::Plain(t) => t.len() > 0 && no_line_feed(t),
        FragView::Span(t, _) => no_line_feed(t),
        FragView::Br => true,
    }
}

pub open spec fn fragments_ok(ls: Seq<Seq<FragView>>) -> bool {
    forall|i: int, j: int|
        0 <= i < ls.len() && 0 <= j < ls[i].len() ==> #[trigger] fragment_ok(ls[i][j])
}

pub open spec fn lines_ok(ls: Seq<Seq<FragView>>) -> bool {
    ls.len() > 0 && fragments_ok(ls)
}

proof fn lemma_before_first_newline(s: Seq<char>, from: int)
    requires
        0 <= from,
    ensures
        first_newline(s, from) < 0 ==> forall|i: int| from <= i < s.len() ==> s[i] != '\n',
        first_newline(s, from) >= 0 ==> forall|i: int|
            from <= i < first_newline(s, from) ==> s[i] != '\n',
    decreases s.len() - from,
{
    if from < s.len() && s[from] != '\n' {
        lemma_before_first_newline(s, from + 1);
    }
}

proof fn lemma_replace_last(ls: Seq<Seq<FragView>>, line: Seq<FragView>)
    requires
        lines_ok(ls),
        forall|j: int| 0 <= j < line.len() ==> #[trigger] fragment_ok(line[j]),
    ensures
        lines_ok(ls.drop_last().push(line)),
{
    let r = ls.drop_last().push(line);
    assert forall|i: int, j: int| 0 <= i < r.len() && 0 <= j < r[i].len() implies #[trigger] fragment_ok(
        r[i][j],
    ) by {
        if i < r.len() - 1 {
            assert(r[i] == ls[i]);
        }
    }
}

proof fn lemma_put_text(ls: Seq<Seq<FragView>>, g: Seq<char>)
    requires
        lines_ok(ls),
        no_line_feed(g),
    ensures
        lines_ok(put_text(ls, g)),
{
    let line = ls.last();
    assert forall|j: int| 0 <= j < line.len() implies #[trigger] fragment_ok(line[j]) by {
        assert(fragment_ok(ls[ls.len() - 1][j]));
    }
    if g.len() == 0 {
    } else if line.len() > 0 && line.last() is Plain {
        let t = line.last()->Plain_0;
        assert(fragment_ok(line[line.len() - 1]));
        let merged = line.drop_last().push(FragView::Plain(t + g));
        assert(no_line_feed(t + g)) by {
            assert forall|i: int| 0 <= i < (t + g).len() implies (t + g)[i] != '\n' by {
                if i < t.len() {
                    assert((t + g)[i] == t[i]);
                } else {
                    assert((t + g)[i] == g[i - t.len()]);
                }
            }
        }
        assert forall|j: int| 0 <= j < merged.len() implies #[trigger] fragment_ok(merged[j]) by {
            if j < merged.len() - 1 {
                assert(merged[j] == line[j]);
            }
        }
        lemma_replace_last(ls, merged);
    } else {
        let pushed = line.push(FragView::Plain(g));
        assert forall|j: int| 0 <= j < pushed.len() implies #[trigger] fragment_ok(pushed[j]) by {
            if j < line.len() {
                assert(pushed[j] == line[j]);
            }
        }
        lemma_replace_last(ls, pushed);
    }
}

proof fn lemma_new_line(ls: Seq<Seq<FragView>>)
    requires
        lines_ok(ls),
    ensures
        lines_ok(new_line(ls)),
{
    let r = new_line(ls);
    if ls.last().len() == 0 {
        let mid = ls.drop_last().push(seq![FragView::Br]);
        assert forall|j: int| 0 <= j < 1 implies #[trigger] fragment_ok(seq![FragView::Br][j]) by {}
        lemma_replace_last(ls, seq![FragView::Br]);
        assert forall|i: int, j: int| 0 <= i < r.len() && 0 <= j < r[i].len() implies #[trigger] fragment_ok(
            r[i][j],
        ) by {
            assert(r[i] == mid[i]);
        }
    } else {
        assert forall|i: int, j: int| 0 <= i < r.len() && 0 <= j < r[i].len() implies #[trigger] fragment_ok(
            r[i][j],
        ) by {
            assert(r[i] == ls[i]);
        }
    }
}

proof fn lemma_new_lines(ls: Seq<Seq<FragView>>, n: nat)
    requires
        lines_ok(ls),
    ensures
        lines_ok(new_lines(ls, n)),
    decreases n,
{
    if n > 0 {
        lemma_new_lines(ls, (n - 1) as nat);
        lemma_new_line(new_lines(ls, (n - 1) as nat));
    }
}

proof fn lemma_put_span(ls: Seq<Seq<FragView>>, t: Seq<char>, kind: SpanCategory)
    requires
        lines_ok(ls),
        no_line_feed(t),
    ensures
        lines_ok(put_span(ls, t, kind)),
{
    let line = ls.last();
    let pushed = line.push(FragView::Span(t, kind));
    assert forall|j: int| 0 <= j < pushed.len() implies #[trigger] fragment_ok(pushed[j]) by {
        if j < line.len() {
            assert(pushed[j] == line[j]);
            assert(fragment_ok(ls[ls.len() - 1][j]));
        }
    }
    lemma_replace_last(ls, pushed);
}

proof fn lemma_strip_cr(l: Seq<char>)
    requires
        no_line_feed(l),
    ensures
        no_line_feed(strip_cr(l)),
{
    if l.len() > 0 && l.last() == '\r' {
        assert forall|i: int| 0 <= i < l.drop_last().len() implies l.drop_last()[i] != '\n' by {
            assert(l.drop_last()[i] == l[i]);
        }
    }
}

proof fn lemma_put_cluster(ls: Seq<Seq<FragView>>, g: Seq<char>)
    requires
        lines_ok(ls),
    ensures
        lines_ok(put_cluster(ls, g)),
    decreases g.len(),
{
    lemma_before_first_newline(g, 0);
    lemma_first_newline_range(g, 0);
    let k = first_newline(g, 0);
    if k < 0 || k >= g.len() {
        lemma_put_text(ls, g);
    } else {
        let head = g.subrange(0, k);
        assert(no_line_feed(head)) by {
            assert forall|i: int| 0 <= i < head.len() implies head[i] != '\n' by {
                assert(head[i] == g[i]);
            }
        }
        lemma_strip_cr(head);
        lemma_put_text(ls, strip_cr(head));
        lemma_new_line(put_text(ls, strip_cr(head)));
        lemma_put_cluster(new_line(put_text(ls, strip_cr(head))), g.subrange(k + 1, g.len() as int));
    }
}

proof fn lemma_put_gap(ls: Seq<Seq<FragView>>, gs: Seq<Seq<char>>)
    requires
        lines_ok(ls),
    ensures
        lines_ok(put_gap(ls, gs)),
    decreases gs.len(),
{
    if gs.len() > 0 {
        lemma_put_gap(ls, gs.drop_last());
        lemma_put_cluster(put_gap(ls, gs.drop_last()), gs.last());
    }
}

proof fn lemma_lines_of(s: Seq<char>)
    ensures
        forall|i: int| 0 <= i < lines_of(s).len() ==> no_line_feed(#[trigger] lines_of(s)[i]),
    decreases s.len(),
{
    if s.len() > 0 {
        lemma_before_first_newline(s, 0);
        lemma_first_newline_range(s, 0);
        let k = first_newline(s, 0);
        if k < 0 || k >= s.len() {
            lemma_strip_cr(s);
        } else {
            let head = s.subrange(0, k);
            assert(no_line_feed(head)) by {
                assert forall|i: int| 0 <= i < head.len() implies head[i] != '\n' by {
                    assert(head[i] == s[i]);
                }
            }
            lemma_strip_cr(head);
            let tail = s.subrange(k + 1, s.len() as int);
            lemma_lines_of(tail);
            assert forall|i: int| 0 <= i < lines_of(s).len() implies no_line_feed(
                #[trigger] lines_of(s)[i],
            ) by {
                if i > 0 {
                    assert(lines_of(s)[i] == lines_of(tail)[i - 1]);
                }
            }
        }
    }
}

proof fn lemma_put_pieces(ls: Seq<Seq<FragView>>, pieces: Seq<Seq<char>>, kind: SpanCategory)
    requires
        lines_ok(ls),
        forall|i: int| 0 <= i < pieces.len() ==> no_line_feed(#[trigger] pieces[i]),
    ensures
        lines_ok(put_pieces(ls, pieces, kind)),
    decreases pieces.len(),
{
    if pieces.len() > 0 {
        let init = pieces.drop_last();
        assert forall|i: int| 0 <= i < init.len() implies no_line_feed(#[trigger] init[i]) by {
            assert(init[i] == pieces[i]);
        }
        lemma_put_pieces(ls, init, kind);
        let before = put_pieces(ls, init, kind);
        if pieces.len() > 1 {
            lemma_new_line(before);
            assert(no_line_feed(pieces[pieces.len() - 1]));
            lemma_put_span(new_line(before), pieces.last(), kind);
        } else {
            assert(no_line_feed(pieces[pieces.len() - 1]));
            lemma_put_span(before, pieces.last(), kind);
        }
    }
}

proof fn lemma_after_spans(gs: Seq<Seq<char>>, spans: Seq<ClassifiedSpan>, n: int)
    ensures
        lines_ok(after_spans(gs, spans, n).lines),
    decreases n,
{
    if n <= 0 || n > spans.len() {
        let ls = seq![Seq::<FragView>::empty()];
        assert forall|i: int, j: int| 0 <= i < ls.len() && 0 <= j < ls[i].len() implies #[trigger] fragment_ok(
            ls[i][j],
        ) by {}
    } else {
        lemma_after_spans(gs, spans, n - 1);
        let st = after_spans(gs, spans, n - 1);
        let sp = spans[n - 1];
        let opened = put_gap(st.lines, gap(gs, st.cursor, sp.start as int));
        lemma_put_gap(st.lines, gap(gs, st.cursor, sp.start as int));
        let text = span_text(gs, sp);
        if text.len() > 0 && all_newlines(text) {
            lemma_new_lines(opened, text.len());
        } else {
            lemma_lines_of(text);
            lemma_put_pieces(opened, lines_of(text), sp.kind);
        }
    }
}

/// Tokenizing never yields an empty plain-text fragment, nor a fragment whose
/// text holds a line feed: every line feed, also one after a carriage return,
/// starts a new line.
pub proof fn law_fragments_hold_no_line_feed(
    gs: Seq<Seq<char>>,
    spans: Seq<ClassifiedSpan>,
    n: nat,
)
    ensures
        fragments_ok(keep_last(tokenized(gs, spans), n)),
{
    let st = after_spans(gs, spans, spans.len() as int);
    lemma_after_spans(gs, spans, spans.len() as int);
    lemma_put_gap(st.lines, gap(gs, st.cursor, gs.len() as int));
    let all = tokenized(gs, spans);
    let kept = keep_last(all, n);
    if all.len() > n {
        assert forall|i: int, j: int| 0 <= i < kept.len() && 0 <= j < kept[i].len() implies #[trigger] fragment_ok(
            kept[i][j],
        ) by {
            assert(kept[i] == all[i + all.len() - n]);
            assert(fragment_ok(all[i + all.len() - n][j]));
        }
    }
}

proof fn lemma_no_blank_anywhere(s: Seq<char>, from: int)
    requires
        0 <= from,
        forall|j: int| from <= j ==> !#[trigger] blank_at(s, j),
    ensures
        first_blank(s, from) < 0,
    decreases s.len() - from,
{
    if from + 1 < s.len() {
        assert(!blank_at(s, from));
        lemma_no_blank_anywhere(s, from + 1);
    }
}

/// Two runs of plain code on adjacent lines, with no blank line in either,
/// the first not ending and the second not starting with a line feed, give
/// exactly one chunk: the two texts joined by a line feed.
pub proof fn law_adjacent_code_one_chunk(items: Seq<SourceItem>, src: Seq<char>, reg: Seq<BindingInfo>)
    requires
        items.len() == 2,
        items[0] is Words,
        items[1] is Words,
        items[0]->Words_0@.len() > 0,
        items[1]->Words_0@.len() > 0,
        items[1]->Words_0@[0].start_line == items[0]->Words_0@.last().end_line + 1,
        ({
            let ta = normalize_newlines(words_code(src, items[0]->Words_0@));
            let tb = normalize_newlines(words_code(src, items[1]->Words_0@));
            &&& first_blank(ta, 0) < 0
            &&& first_blank(tb, 0) < 0
            &&& !(ta.len() > 0 && ta.last() == '\n')
            &&& !(tb.len() > 0 && tb[0] == '\n')
        }),
    ensures
        extract_items(items, src, reg) == Ok::<Seq<ItemView>, ExtractError>(
            seq![
                ItemView::Words {
                    code: normalize_newlines(words_code(src, items[0]->Words_0@)) + seq!['\n']
                        + normalize_newlines(words_code(src, items[1]->Words_0@)),
                },
            ],
        ),
{
    let ta = normalize_newlines(words_code(src, items[0]->Words_0@));
    let tb = normalize_newlines(words_code(src, items[1]->Words_0@));
    law_adjacent_code_merges(items, src, reg);
    let s = ta + seq!['\n'] + tb;
    assert(seq![ta, tb].drop_last() =~= seq![ta]);
    assert(join_lines(seq![ta]) == ta);
    assert(seq![ta, tb].last() == tb);
    assert(seq![ta, tb].len() == 2);
    assert(join_lines(seq![ta, tb]) == join_lines(seq![ta]) + seq!['\n'] + tb);
    assert(join_lines(seq![ta, tb]) == s);
    let k = ta.len() as int;
    assert forall|j: int| 0 <= j implies !#[trigger] blank_at(s, j) by {
        if blank_at(s, j) {
            if j + 1 < k {
                lemma_no_blank_from(ta, 0, j);
                assert(s[j] == ta[j] && s[j + 1] == ta[j + 1]);
            } else if j + 1 == k {
                assert(s[j] == ta.last());
            } else if j == k {
                assert(s[j + 1] == tb[0]);
            } else {
                lemma_no_blank_from(tb, 0, j - k - 1);
                assert(s[j] == tb[j - k - 1] && s[j + 1] == tb[j - k]);
            }
        }
    }
    lemma_no_blank_anywhere(s, 0);
    assert(split_blank(s) == seq![s]);
    assert(seq![s].map_values(|c: Seq<char>| ItemView::Words { code: c }) =~= seq![
        ItemView::Words { code: s },
    ]);
    assert(Seq::<ItemView>::empty() + seq![ItemView::Words { code: s }] =~= seq![
        ItemView::Words { code: s },
    ]);
}

/// A single run of plain code whose text is two parts around a blank line,
/// the first part not ending in a line feed and neither holding a blank
/// line, gives the two parts as separate chunks.
pub proof fn law_blank_line_splits_chunk(
    items: Seq<SourceItem>,
    src: Seq<char>,
    reg: Seq<BindingInfo>,
    a: Seq<char>,
    b: Seq<char>,
)
    requires
        items.len() == 1,
        items[0] is Words,
        items[0]->Words_0@.len() > 0,
        normalize_newlines(words_code(src, items[0]->Words_0@)) == a + seq!['\n', '\n'] + b,
        first_blank(a, 0) < 0,
        first_blank(b, 0) < 0,
        !(a.len() > 0 && a.last() == '\n'),
    ensures
        extract_items(items, src, reg) == Ok::<Seq<ItemView>, ExtractError>(
            seq![ItemView::Words { code: a }, ItemView::Words { code: b }],
        ),
{
    let t = a + seq!['\n', '\n'] + b;
    let initial = Progress { out: Seq::empty(), run: Seq::empty(), last_line: 0 };
    assert(progress_upto(items, 0, src, reg) == Ok::<Progress, ExtractError>(initial));
    assert(Seq::<Seq<char>>::empty().push(t) =~= seq![t]);
    assert(inner_of(items[0], src, reg) == Ok::<Seq<ItemView>, ExtractError>(Seq::empty()));
    let after = Progress {
        out: Seq::empty(),
        run: seq![t],
        last_line: items[0]->Words_0@.last().end_line as int,
    };
    assert(progress_upto(items, 1, src, reg) == Ok::<Progress, ExtractError>(after));
    assert(join_lines(seq![t]) == t);
    law_blank_line_splits(a, b);
    assert(seq![a, b].map_values(|c: Seq<char>| ItemView::Words { code: c }) =~= seq![
        ItemView::Words { code: a },
        ItemView::Words { code: b },
    ]);
    assert(Seq::<ItemView>::empty() + seq![ItemView::Words { code: a }, ItemView::Words { code: b }]
        =~= seq![ItemView::Words { code: a }, ItemView::Words { code: b }]);
}

/// The categories, by their place in the fixed order, among the first `n`
/// that hold any item.
pub open spec fn filled_categories(items: Seq<ItemView>, n: nat) -> Seq<nat>
    decreases n,
{
    if n == 0 {
        Seq::empty()
    } else {
        let k = (n - 1) as nat;
        filled_categories(items, k) + if keep(items, binding_category(k)).len() > 0 {
            seq![k]
        } else {
            Seq::empty()
        }
    }
}

proof fn lemma_groups_upto(items: Seq<ItemView>, n: nat)
    ensures
        ({
            let g = groups_upto(items, n);
            let ks = filled_categories(items, n);
            &&& g.len() == ks.len()
            &&& forall|i: int|
                0 <= i < ks.len() ==> #[trigger] ks[i] < n && category_group(
                    items,
                    binding_category(ks[i]),
                ) == Some(g[i])
            &&& forall|i: int, j: int| 0 <= i < j < ks.len() ==> #[trigger] ks[i] < #[trigger] ks[j]
            &&& forall|k: nat|
                k < n ==> (keep(items, binding_category(k)).len() > 0 <==> #[trigger] ks.contains(k))
        }),
    decreases n,
{
    if n > 0 {
        let k = (n - 1) as nat;
        lemma_groups_upto(items, k);
        let g0 = groups_upto(items, k);
        let ks0 = filled_categories(items, k);
        let g = groups_upto(items, n);
        let ks = filled_categories(items, n);
        let filled = keep(items, binding_category(k)).len() > 0;
        if filled {
            assert(ks == ks0.push(k));
            assert(g == g0.push(category_group(items, binding_category(k))->Some_0));
            assert forall|i: int| 0 <= i < ks.len() implies #[trigger] ks[i] < n && category_group(
                items,
                binding_category(ks[i]),
            ) == Some(g[i]) by {
                if i < ks0.len() {
                    assert(ks[i] == ks0[i] && g[i] == g0[i]);
                }
            }
            assert forall|i: int, j: int| 0 <= i < j < ks.len() implies #[trigger] ks[i] < #[trigger] ks[j] by {
                assert(ks[i] == ks0[i]);
                if j < ks0.len() {
                    assert(ks[j] == ks0[j]);
                }
            }
            assert forall|m: nat| m < n implies (keep(items, binding_category(m)).len() > 0
                <==> #[trigger] ks.contains(m)) by {
                if m < k {
                    if ks0.contains(m) {
                        let i = choose|i: int| 0 <= i < ks0.len() && ks0[i] == m;
                        assert(ks[i] == m);
                    }
                    if ks.contains(m) {
                        let i = choose|i: int| 0 <= i < ks.len() && ks[i] == m;
                        assert(i < ks0.len());
                        assert(ks0[i] == m);
                    }
                } else {
                    assert(ks[ks.len() - 1] == m);
                }
            }
        } else {
            assert(ks =~= ks0);
            assert(g =~= g0);
            assert forall|m: nat| m < n implies (keep(items, binding_category(m)).len() > 0
                <==> #[trigger] ks.contains(m)) by {
                if m == k && ks.contains(m) {
                    let i = choose|i: int| 0 <= i < ks.len() && ks[i] == m;
                    assert(ks0[i] < k);
                }
            }
        }
    }
}

/// The binding groups come in the fixed order of their categories, each at
/// most once: a category's group is there exactly when the category holds
/// an item, with those items and its title; there are none at all exactly
/// when every category is empty.
pub proof fn law_binding_groups_ordered(items: Seq<ItemView>)
    ensures
        ({
            let g = binding_groups(items);
            let ks = filled_categories(items, 11);
            &&& g.len() == ks.len()
            &&& forall|i: int|
                0 <= i < ks.len() ==> #[trigger] ks[i] < 11 && g[i] == (RenderingItemView {
                    links: Seq::empty(),
                    content: ContentView::Items {
                        title: category_title(binding_category(ks[i])),
                        link_id: category_link(binding_category(ks[i])),
                        items: keep(items, binding_category(ks[i])),
                    },
                }) && keep(items, binding_category(ks[i])).len() > 0
            &&& forall|i: int, j: int| 0 <= i < j < ks.len() ==> #[trigger] ks[i] < #[trigger] ks[j]
            &&& forall|k: nat|
                k < 11 ==> (keep(items, binding_category(k)).len() > 0 <==> #[trigger] ks.contains(k))
            &&& (g.len() == 0 <==> forall|k: nat|
                k < 11 ==> #[trigger] keep(items, binding_category(k)).len() == 0)
        }),
{
    lemma_groups_upto(items, 11);
    let g = binding_groups(items);
    let ks = filled_categories(items, 11);
    assert forall|i: int| 0 <= i < ks.len() implies #[trigger] ks[i] < 11 && g[i] == (RenderingItemView {
        links: Seq::empty(),
        content: ContentView::Items {
            title: category_title(binding_category(ks[i])),
            link_id: category_link(binding_category(ks[i])),
            items: keep(items, binding_category(ks[i])),
        },
    }) && keep(items, binding_category(ks[i])).len() > 0 by {
        assert(category_group(items, binding_category(ks[i])) == Some(g[i]));
    }
    if g.len() == 0 {
        assert forall|k: nat| k < 11 implies #[trigger] keep(items, binding_category(k)).len() == 0 by {
            if keep(items, binding_category(k)).len() > 0 {
                assert(ks.contains(k));
            }
        }
    } else {
        assert(ks.contains(ks[0]));
        assert(keep(items, binding_category(ks[0])).len() > 0);
    }
}

} // verus!
