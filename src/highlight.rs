//! Highlighting: the grapheme clusters of code shown in context, and the
//! colour class of each kind of span.
use crate::text::{lines_of, newline, split_lines};
use crate::tokenize::{
    build_code_lines_from, keep_last, lines_view, tokenized, BindingDocsKind, ClassifiedSpan,
    CodeLines, PrimitiveInfo, SpanCategory,
};
use unicode_segmentation::UnicodeSegmentation;
use vstd::prelude::*;

verus! {

/// The extended grapheme clusters of a text, in order.
pub uninterp spec fn graphemes_of(s: Seq<char>) -> Seq<Seq<char>>;

/// Relies on `UnicodeSegmentation::graphemes` of unicode-segmentation, with
/// extended clusters: which clusters come out depends on the text alone, and
/// they are consecutive slices that together spell the text.
#[verifier::external_body]
fn graphemes(s: &str) -> (r: Vec<String>)
    ensures
        r@.map_values(|g: String| g@) == graphemes_of(s@),
        crate::tokenize::concat(r@.map_values(|g: String| g@)) == s@,
{
    s.graphemes(true).map(|g| g.to_string()).collect()
}

/// The text that code is classified in: the context, a blank line, the code.
pub open spec fn in_context(context: Seq<char>, code: Seq<char>) -> Seq<char> {
    context + seq!['\n', '\n'] + code
}

/// Places `code` after `context`, so that the classifier can resolve the
/// names that the code uses.
pub fn with_context(context: &str, code: &str) -> (r: String)
    ensures
        r@ == in_context(context@, code@),
{
    let mut text = String::from_str(context);
    text.append(newline());
    text.append(newline());
    text.append(code);
    assert(text@ =~= in_context(context@, code@));
    text
}

/// The lines of `code` as fragments. `spans` classifies the graphemes of the
/// code placed after `context`; the lines of the context are left out.
pub fn build_code_lines(code: &str, context: &str, spans: &Vec<ClassifiedSpan>) -> (r: CodeLines)
    ensures
        lines_view(r.frags@) == keep_last(
            tokenized(graphemes_of(in_context(context@, code@)), spans@),
            lines_of(code@).len(),
        ),
        crate::laws::fragments_ok(lines_view(r.frags@)),
        crate::tokenize::concat(graphemes_of(in_context(context@, code@))) == in_context(
            context@,
            code@,
        ),
{
    let text = with_context(context, code);
    let gs = graphemes(text.as_str());
    let count = split_lines(code).len();
    proof {
        assert(count == lines_of(code@).len());
    }
    build_code_lines_from(&gs, spans, count)
}

pub open spec fn modifier_class_of(margs: usize) -> Seq<char> {
    if margs <= 1 {
        "binding monadic-modifier"@
    } else if margs == 2 {
        "binding dyadic-modifier"@
    } else {
        "binding triadic-modifier"@
    }
}

pub open spec fn sig_class_of(args: usize) -> Seq<char> {
    if args == 0 {
        "binding noadic-function"@
    } else if args == 1 {
        "binding monadic-function"@
    } else if args == 2 {
        "binding dyadic-function"@
    } else if args == 3 {
        "binding triadic-function"@
    } else if args == 4 {
        "binding tetradic-function"@
    } else {
        "binding"@
    }
}

pub open spec fn prim_class_of(p: PrimitiveInfo) -> Seq<char> {
    if p.identity || (p.stack_or_debug && p.modifier_args is None) {
        "stack-function"@
    } else if p.constant {
        "number-literal"@
    } else {
        match p.modifier_args {
            Some(m) => modifier_class_of(m),
            None => match p.args {
                Some(a) => sig_class_of(a),
                None => ""@,
            },
        }
    }
}

pub open spec fn binding_class_of(k: BindingDocsKind) -> Seq<char> {
    match k {
        BindingDocsKind::Constant => "binding constant"@,
        BindingDocsKind::Function(args) => sig_class_of(args),
        BindingDocsKind::Modifier(margs) => modifier_class_of(margs),
        BindingDocsKind::Module => "binding module"@,
        BindingDocsKind::Error => "output-error"@,
    }
}

pub open spec fn span_class_of(kind: SpanCategory) -> Seq<char> {
    match kind {
        SpanCategory::Primitive(p) => prim_class_of(p),
        SpanCategory::Number => "number-literal"@,
        SpanCategory::String => "string-literal-span"@,
        SpanCategory::Comment => "comment-span"@,
        SpanCategory::Strand => "strand-span"@,
        SpanCategory::Subscript => "number-literal"@,
        SpanCategory::MacroDelim(m) => modifier_class_of(m),
        SpanCategory::ArgSetter => sig_class_of(1),
        SpanCategory::Ident(Some(d)) => binding_class_of(d),
        _ => ""@,
    }
}

/// The class of a modifier by its number of function arguments.
pub fn modifier_class(margs: usize) -> (r: &'static str)
    ensures
        r@ == modifier_class_of(margs),
{
    if margs <= 1 {
        "binding monadic-modifier"
    } else if margs == 2 {
        "binding dyadic-modifier"
    } else {
        "binding triadic-modifier"
    }
}

/// The class of a function by its number of inputs.
pub fn sig_class(args: usize) -> (r: &'static str)
    ensures
        r@ == sig_class_of(args),
{
    match args {
        0 => "binding noadic-function",
        1 => "binding monadic-function",
        2 => "binding dyadic-function",
        3 => "binding triadic-function",
        4 => "binding tetradic-function",
        _ => "binding",
    }
}

/// The class of a primitive.
pub fn prim_sig_class(p: PrimitiveInfo) -> (r: &'static str)
    ensures
        r@ == prim_class_of(p),
{
    if p.identity || (p.stack_or_debug && p.modifier_args.is_none()) {
        "stack-function"
    } else if p.constant {
        "number-literal"
    } else {
        match p.modifier_args {
            Some(m) => modifier_class(m),
            None => match p.args {
                Some(a) => sig_class(a),
                None => "",
            },
        }
    }
}

/// The class of an identifier by the binding it resolves to.
pub fn binding_class(k: BindingDocsKind) -> (r: &'static str)
    ensures
        r@ == binding_class_of(k),
{
    match k {
        BindingDocsKind::Constant => "binding constant",
        BindingDocsKind::Function(args) => sig_class(args),
        BindingDocsKind::Modifier(margs) => modifier_class(margs),
        BindingDocsKind::Module => "binding module",
        BindingDocsKind::Error => "output-error",
    }
}

/// The class of a classified span.
pub fn span_class(kind: SpanCategory) -> (r: &'static str)
    ensures
        r@ == span_class_of(kind),
{
    match kind {
        SpanCategory::Primitive(p) => prim_sig_class(p),
        SpanCategory::Number => "number-literal",
        SpanCategory::String => "string-literal-span",
        SpanCategory::Comment => "comment-span",
        SpanCategory::Strand => "strand-span",
        SpanCategory::Subscript => "number-literal",
        SpanCategory::MacroDelim(m) => modifier_class(m),
        SpanCategory::ArgSetter => sig_class(1),
        SpanCategory::Ident(Some(d)) => binding_class(d),
        _ => "",
    }
}

} // verus!
