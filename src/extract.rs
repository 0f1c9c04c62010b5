//! The item extractor: turns the top-level items of a parsed source file into
//! documentation items, merging runs of plain code on adjacent lines and
//! cutting them at blank lines.
use crate::copy::copy_sig;
use crate::model::{
    items_view, lemma_module_items, opt_sig, BindingDefinition, BindingType,
    BindingTypeView, BindingView, CodeMacroDefinition, ConstantDefinition, DataDefinition,
    Definition, DefinitionView, Field, FieldView, ImportDefinition, IndexMacroDefinition,
    ItemContent, ItemView, ModuleDefinition, ModuleView, NamedArgument, NamedSignature,
    SignatureInfo, VariantDefinition,
};
use crate::reconcile::{
    lemma_reconciled_by_view, reconciled, reconsiliate_function_definition,
};
use crate::source::{
    BindingInfo, BindingKind, CodeSpan, DataDef, DocComment, ModuleKind, ModuleName,
    SourceBinding, SourceField, SourceItem, SourceModule,
};
use crate::summary::opt_seq;
use crate::text::{
    copy_opt, join_lines, joined_lines, normalize_newlines, normalized_newlines, split_blank,
    split_blank_lines, substring, text_between,
};
use vstd::prelude::*;

verus! {

/// Why a file could not be documented.
#[derive(Debug)]
pub enum ExtractError {
    /// The library's entry file does not exist.
    LibraryNotFound(String),
    /// A source file did not parse: the file and the first error.
    ParseError(String, String),
    IoError(String),
    /// The compiler reported an error.
    UiuaError(String),
    /// A named data definition has no binding metadata.
    MissingBindingInfo(String),
    /// A data definition with a constructor has no name.
    UnnamedDataFunction,
    /// A variant definition has no name.
    UnnamedVariant,
    /// A data constructor lacks its module binding, its `Call` function or
    /// its fields.
    MalformedDataFunction(String),
}

// ---------------------------------------------------------------------------
// Span resolution
// ---------------------------------------------------------------------------

/// The first registry entry at or after `i` whose span is `span`.
pub open spec fn first_match(reg: Seq<BindingInfo>, span: CodeSpan, i: int) -> Option<int>
    decreases reg.len() - i,
{
    if i < 0 || i >= reg.len() {
        None
    } else if reg[i].span == span {
        Some(i)
    } else {
        first_match(reg, span, i + 1)
    }
}

/// The registry entry for exactly `span`, if there is one.
pub open spec fn lookup(reg: Seq<BindingInfo>, span: CodeSpan) -> Option<int> {
    first_match(reg, span, 0)
}

proof fn lemma_first_match_range(reg: Seq<BindingInfo>, span: CodeSpan, i: int)
    ensures
        first_match(reg, span, i) matches Some(k) ==> 0 <= k < reg.len() && reg[k].span == span,
    decreases reg.len() - i,
{
    if i < 0 || i >= reg.len() {
    } else if reg[i].span == span {
    } else {
        lemma_first_match_range(reg, span, i + 1);
    }
}

pub open spec fn opt_index(o: Option<usize>) -> Option<int> {
    match o {
        Some(i) => Some(i as int),
        None => None,
    }
}

/// Finds the registry index of the metadata for exactly `span`.
pub fn get_binding_info(registry: &Vec<BindingInfo>, span: &CodeSpan) -> (r: Option<usize>)
    ensures
        opt_index(r) == lookup(registry@, *span),
        r matches Some(k) ==> k < registry@.len(),
{
    proof {
        lemma_first_match_range(registry@, *span, 0);
    }
    let mut i: usize = 0;
    while i < registry.len()
        invariant
            0 <= i <= registry@.len(),
            lookup(registry@, *span) == first_match(registry@, *span, i as int),
        decreases registry@.len() - i,
    {
        if registry[i].span == *span {
            return Some(i);
        }
        i += 1;
    }
    None
}

// ---------------------------------------------------------------------------
// Source text
// ---------------------------------------------------------------------------

/// The source text from the first word to the end of the last one.
pub open spec fn words_code(src: Seq<char>, words: Seq<CodeSpan>) -> Seq<char> {
    if words.len() == 0 {
        Seq::empty()
    } else {
        text_between(src, words[0].start as int, words.last().end as int)
    }
}

pub fn get_words_as_code(words: &Vec<CodeSpan>, source: &str) -> (r: String)
    ensures
        r@ == words_code(source@, words@),
{
    if words.len() == 0 {
        String::new()
    } else {
        substring(source, words[0].start, words[words.len() - 1].end)
    }
}

pub open spec fn span_code(src: Seq<char>, span: CodeSpan) -> Seq<char> {
    text_between(src, span.start as int, span.end as int)
}

pub open spec fn comment_text(c: Option<DocComment>) -> Option<Seq<char>> {
    match c {
        Some(d) => Some(d.text@),
        None => None,
    }
}

pub open spec fn comment_sig(c: Option<DocComment>) -> Option<NamedSignature> {
    match c {
        Some(d) => d.sig,
        None => None,
    }
}

fn comment_parts(c: &Option<DocComment>) -> (r: (Option<String>, Option<NamedSignature>))
    ensures
        crate::model::opt_str(r.0) == comment_text(*c),
        opt_sig(r.1) == opt_sig(comment_sig(*c)),
{
    match c {
        Some(d) => (Some(d.text.clone()), copy_sig(&d.sig)),
        None => (None, None),
    }
}

// ---------------------------------------------------------------------------
// Bindings
// ---------------------------------------------------------------------------

/// The documentation kind of a binding, or `None` for kinds that are not
/// documented as bindings.
pub open spec fn binding_kind_view(kind: BindingKind, sig: Option<NamedSignature>) -> Option<
    BindingTypeView,
> {
    match kind {
        BindingKind::Const(v) => Some(BindingTypeView::Const { value: crate::model::opt_str(v) }),
        BindingKind::Func(s) => Some(BindingTypeView::Function(reconciled(s, sig, Seq::empty()))),
        BindingKind::IndexMacro(n) => Some(
            BindingTypeView::IndexMacro { arguments: n, named_signature: opt_sig(sig) },
        ),
        BindingKind::CodeMacro => Some(BindingTypeView::CodeMacro { named_signature: opt_sig(sig) }),
        _ => None,
    }
}

/// The item documenting a binding: `None` when the registry has no metadata
/// for its name or its kind is not documented.
pub open spec fn binding_result(b: SourceBinding, src: Seq<char>, reg: Seq<BindingInfo>) -> Option<
    ItemView,
> {
    match lookup(reg, b.name.span) {
        None => None,
        Some(i) => match binding_kind_view(reg[i].kind, comment_sig(reg[i].comment)) {
            None => None,
            Some(kind) => Some(
                ItemView::Binding(
                    BindingView {
                        name: b.name.value@,
                        code: span_code(src, b.span),
                        public: reg[i].public,
                        comment: comment_text(reg[i].comment),
                        kind: kind,
                    },
                ),
            ),
        },
    }
}

pub open spec fn opt_item(o: Option<ItemContent>) -> Option<ItemView> {
    match o {
        Some(i) => Some(i@),
        None => None,
    }
}

fn binding_to_item(b: &SourceBinding, source: &str, registry: &Vec<BindingInfo>) -> (r: Option<
    ItemContent,
>)
    ensures
        opt_item(r) == binding_result(*b, source@, registry@),
{
    let index = match get_binding_info(registry, &b.name.span) {
        Some(i) => i,
        None => {
            return None;
        },
    };
    let info = &registry[index];
    let (comment, sig) = comment_parts(&info.comment);
    let kind = match &info.kind {
        BindingKind::Const(v) => BindingType::Const(ConstantDefinition { value: copy_opt(v) }),
        BindingKind::Func(s) => {
            let f = reconsiliate_function_definition(*s, sig, None);
            proof {
                lemma_reconciled_by_view(*s, sig, comment_sig(info.comment), Seq::empty());
            }
            BindingType::Function(f)
        },
        BindingKind::IndexMacro(n) => BindingType::IndexMacro(
            IndexMacroDefinition { arguments: *n, named_signature: sig },
        ),
        BindingKind::CodeMacro => BindingType::CodeMacro(CodeMacroDefinition { named_signature: sig }),
        _ => {
            return None;
        },
    };
    let code = substring(source, b.span.start, b.span.end);
    Some(
        ItemContent::Binding(
            BindingDefinition {
                name: b.name.value.clone(),
                code,
                public: info.public,
                comment,
                kind,
            },
        ),
    )
}

// ---------------------------------------------------------------------------
// Data definitions
// ---------------------------------------------------------------------------

/// Whether `s` reads `Call`.
fn is_call(s: &String) -> (r: bool)
    ensures
        r == (s@ == "Call"@),
{
    proof {
        reveal_strlit("Call");
    }
    let t = s.as_str();
    if t.unicode_len() != 4 {
        return false;
    }
    let r = t.get_char(0) == 'C' && t.get_char(1) == 'a' && t.get_char(2) == 'l' && t.get_char(3)
        == 'l';
    assert(r ==> s@ =~= "Call"@);
    r
}

/// The first name at or after `i` that reads `Call`.
pub open spec fn call_entry(names: Seq<ModuleName>, i: int) -> Option<int>
    decreases names.len() - i,
{
    if i < 0 || i >= names.len() {
        None
    } else if names[i].name@ == "Call"@ {
        Some(i)
    } else {
        call_entry(names, i + 1)
    }
}

/// The signature of the function that a module binds as `Call`.
pub open spec fn call_signature(reg: Seq<BindingInfo>, names: Seq<ModuleName>) -> Option<
    SignatureInfo,
> {
    match call_entry(names, 0) {
        None => None,
        Some(k) => {
            let index = names[k].index as int;
            if index < reg.len() {
                match reg[index].kind {
                    BindingKind::Func(s) => Some(s),
                    _ => None,
                }
            } else {
                None
            }
        },
    }
}

proof fn lemma_call_entry_range(names: Seq<ModuleName>, i: int)
    ensures
        call_entry(names, i) matches Some(k) ==> 0 <= k < names.len(),
    decreases names.len() - i,
{
    if i < 0 || i >= names.len() {
    } else if names[i].name@ == "Call"@ {
    } else {
        lemma_call_entry_range(names, i + 1);
    }
}

fn find_call_signature(registry: &Vec<BindingInfo>, names: &Vec<ModuleName>) -> (r: Option<
    SignatureInfo,
>)
    ensures
        r == call_signature(registry@, names@),
{
    proof {
        lemma_call_entry_range(names@, 0);
    }
    let mut i: usize = 0;
    while i < names.len()
        invariant
            0 <= i <= names@.len(),
            call_entry(names@, 0) == call_entry(names@, i as int),
        decreases names@.len() - i,
    {
        if is_call(&names[i].name) {
            let index = names[i].index;
            if index < registry.len() {
                return match &registry[index].kind {
                    BindingKind::Func(s) => Some(*s),
                    _ => None,
                };
            } else {
                return None;
            }
        }
        i += 1;
    }
    None
}

/// The named arguments of a constructor: one per field, required when the
/// field has no default value.
pub open spec fn constructor_args(fields: Seq<SourceField>) -> Seq<NamedArgument> {
    fields.map_values(|f: SourceField| NamedArgument { name: f.name, required: !f.has_default })
}

pub open spec fn field_view(src: Seq<char>, f: SourceField) -> FieldView {
    FieldView {
        name: f.name@,
        validator: match f.validator {
            Some(ws) => Some(words_code(src, ws@)),
            None => None,
        },
    }
}

/// The documented definition of a data item's fields.
pub open spec fn definition_view(src: Seq<char>, d: DataDef) -> Option<DefinitionView> {
    match d.fields {
        Some(f) => Some(
            DefinitionView {
                boxed: f.boxed,
                fields: f.fields@.map_values(|sf: SourceField| field_view(src, sf)),
            },
        ),
        None => None,
    }
}

/// The item documenting one data definition.
pub open spec fn data_result(d: DataDef, src: Seq<char>, reg: Seq<BindingInfo>) -> Result<
    ItemView,
    ExtractError,
> {
    let index = match d.name {
        Some(n) => lookup(reg, n.span),
        None => None,
    };
    let comment = match index {
        Some(i) => comment_text(reg[i].comment),
        None => None,
    };
    if d.name is Some && index is None {
        Err(ExtractError::MissingBindingInfo(d.name->0.value))
    } else if d.has_constructor {
        match d.name {
            None => Err(ExtractError::UnnamedDataFunction),
            Some(n) => {
                let info = reg[index->0];
                let call = match info.kind {
                    BindingKind::Module(names) => call_signature(reg, names@),
                    _ => None,
                };
                match (call, d.fields) {
                    (Some(s), Some(f)) => Ok(
                        ItemView::Binding(
                            BindingView {
                                name: n.value@,
                                code: span_code(src, d.span),
                                public: d.public,
                                comment: comment,
                                kind: BindingTypeView::Function(
                                    reconciled(
                                        s,
                                        comment_sig(info.comment),
                                        constructor_args(f.fields@),
                                    ),
                                ),
                            },
                        ),
                    ),
                    _ => Err(ExtractError::MalformedDataFunction(n.value)),
                }
            },
        }
    } else if d.variant {
        match d.name {
            None => Err(ExtractError::UnnamedVariant),
            Some(n) => Ok(
                ItemView::Variant {
                    name: n.value@,
                    comment: comment,
                    definition: definition_view(src, d),
                },
            ),
        }
    } else {
        Ok(
            ItemView::Data {
                name: match d.name {
                    Some(n) => Some(n.value@),
                    None => None,
                },
                comment: comment,
                definition: definition_view(src, d),
            },
        )
    }
}

pub open spec fn result_item(r: Result<ItemContent, ExtractError>) -> Result<ItemView, ExtractError> {
    match r {
        Ok(i) => Ok(i@),
        Err(e) => Err(e),
    }
}

fn fields_definition(d: &DataDef, source: &str) -> (r: Option<Definition>)
    ensures
        crate::model::opt_def(r) == definition_view(source@, *d),
{
    match &d.fields {
        None => None,
        Some(f) => {
            let mut fields: Vec<Field> = Vec::new();
            let mut i: usize = 0;
            while i < f.fields.len()
                invariant
                    0 <= i <= f.fields@.len(),
                    fields@.len() == i,
                    forall|k: int|
                        0 <= k < i ==> (#[trigger] fields@[k])@ == field_view(
                            source@,
                            f.fields@[k],
                        ),
                decreases f.fields@.len() - i,
            {
                let sf = &f.fields[i];
                let validator = match &sf.validator {
                    Some(ws) => Some(get_words_as_code(ws, source)),
                    None => None,
                };
                fields.push(Field { name: sf.name.clone(), validator });
                i += 1;
            }
            let r = Definition { boxed: f.boxed, fields };
            assert(r@.fields =~= f.fields@.map_values(|sf: SourceField| field_view(source@, sf)));
            Some(r)
        },
    }
}

fn constructor_arguments(fields: &Vec<SourceField>) -> (r: Vec<NamedArgument>)
    ensures
        r@ == constructor_args(fields@),
{
    let mut r: Vec<NamedArgument> = Vec::new();
    let mut i: usize = 0;
    while i < fields.len()
        invariant
            0 <= i <= fields@.len(),
            r@ == constructor_args(fields@.subrange(0, i as int)),
        decreases fields@.len() - i,
    {
        r.push(NamedArgument { name: fields[i].name.clone(), required: !fields[i].has_default });
        assert(r@ =~= constructor_args(fields@.subrange(0, i as int + 1)));
        i += 1;
    }
    assert(fields@.subrange(0, fields@.len() as int) =~= fields@);
    r
}

/// Documents one data definition: a constructor becomes a function binding
/// named after the type, anything else a data type or a variant.
pub fn data_def_to_item(d: &DataDef, source: &str, registry: &Vec<BindingInfo>) -> (r: Result<
    ItemContent,
    ExtractError,
>)
    ensures
        result_item(r) == data_result(*d, source@, registry@),
{
    let index: Option<usize> = match &d.name {
        Some(n) => match get_binding_info(registry, &n.span) {
            Some(i) => Some(i),
            None => {
                return Err(ExtractError::MissingBindingInfo(n.value.clone()));
            },
        },
        None => None,
    };
    let comment: Option<String> = match index {
        Some(i) => comment_parts(&registry[i].comment).0,
        None => None,
    };
    if d.has_constructor {
        let (name, i) = match (&d.name, index) {
            (Some(n), Some(i)) => (n, i),
            _ => {
                return Err(ExtractError::UnnamedDataFunction);
            },
        };
        let info = &registry[i];
        let call = match &info.kind {
            BindingKind::Module(names) => find_call_signature(registry, names),
            _ => None,
        };
        match (call, &d.fields) {
            (Some(s), Some(f)) => {
                let sig = comment_parts(&info.comment).1;
                let args = constructor_arguments(&f.fields);
                let ghost arg_seq = args@;
                let func = reconsiliate_function_definition(s, sig, Some(args));
                proof {
                    lemma_reconciled_by_view(s, sig, comment_sig(info.comment), arg_seq);
                }
                Ok(
                    ItemContent::Binding(
                        BindingDefinition {
                            name: name.value.clone(),
                            code: substring(source, d.span.start, d.span.end),
                            public: d.public,
                            comment,
                            kind: BindingType::Function(func),
                        },
                    ),
                )
            },
            _ => Err(ExtractError::MalformedDataFunction(name.value.clone())),
        }
    } else if d.variant {
        match &d.name {
            None => Err(ExtractError::UnnamedVariant),
            Some(n) => Ok(
                ItemContent::Variant(
                    VariantDefinition {
                        name: n.value.clone(),
                        comment,
                        definition: fields_definition(d, source),
                    },
                ),
            ),
        }
    } else {
        let name = match &d.name {
            Some(n) => Some(n.value.clone()),
            None => None,
        };
        Ok(ItemContent::Data(DataDefinition { name, comment, definition: fields_definition(d, source) }))
    }
}

/// The items of the first `n` definitions of a data item, or the first error.
pub open spec fn data_upto(defs: Seq<DataDef>, n: int, src: Seq<char>, reg: Seq<BindingInfo>) -> Result<
    Seq<ItemView>,
    ExtractError,
>
    decreases n,
{
    if n <= 0 || n > defs.len() {
        Ok(Seq::empty())
    } else {
        match data_upto(defs, n - 1, src, reg) {
            Err(e) => Err(e),
            Ok(v) => match data_result(defs[n - 1], src, reg) {
                Err(e) => Err(e),
                Ok(x) => Ok(v.push(x)),
            },
        }
    }
}

// ---------------------------------------------------------------------------
// Items
// ---------------------------------------------------------------------------

/// The extraction so far: the items emitted, the pending run of plain-code
/// texts, and the line on which the run ends.
pub ghost struct Progress {
    pub out: Seq<ItemView>,
    pub run: Seq<Seq<char>>,
    pub last_line: int,
}

/// Emits a pending run: its texts joined by line feeds, cut at blank lines.
pub open spec fn flush(out: Seq<ItemView>, run: Seq<Seq<char>>) -> Seq<ItemView> {
    if run.len() == 0 {
        out
    } else {
        out + split_blank(join_lines(run)).map_values(|c: Seq<char>| ItemView::Words { code: c })
    }
}

pub open spec fn module_result(
    m: SourceModule,
    inner: Result<Seq<ItemView>, ExtractError>,
    reg: Seq<BindingInfo>,
) -> Result<Seq<ItemView>, ExtractError> {
    match m.kind {
        ModuleKind::Test => Ok(Seq::empty()),
        ModuleKind::Named(n) => match lookup(reg, n.span) {
            None => Ok(Seq::empty()),
            Some(i) => match inner {
                Err(e) => Err(e),
                Ok(items) => Ok(
                    seq![
                        ItemView::Module(
                            ModuleView {
                                name: n.value@,
                                comment: comment_text(reg[i].comment),
                                items: items,
                            },
                        ),
                    ],
                ),
            },
        },
    }
}

/// What an item other than plain code emits; `inner` is the extraction of a
/// module's own items.
pub open spec fn emitted(
    item: SourceItem,
    inner: Result<Seq<ItemView>, ExtractError>,
    src: Seq<char>,
    reg: Seq<BindingInfo>,
) -> Result<Seq<ItemView>, ExtractError> {
    match item {
        SourceItem::Words(_) => Ok(Seq::empty()),
        SourceItem::Binding(b) => Ok(opt_seq(binding_result(b, src, reg))),
        SourceItem::Module(m) => module_result(m, inner, reg),
        SourceItem::Data(defs) => data_upto(defs@, defs@.len() as int, src, reg),
        SourceItem::Import(path) => Ok(seq![ItemView::Import { path: path@ }]),
    }
}

/// One step of the extraction. Plain code joins the pending run when the run
/// is empty or the code starts on the line after the run ends; otherwise the
/// run is emitted and a new one starts. Any other item emits the run first.
pub open spec fn step(
    p: Progress,
    item: SourceItem,
    inner: Result<Seq<ItemView>, ExtractError>,
    src: Seq<char>,
    reg: Seq<BindingInfo>,
) -> Result<Progress, ExtractError> {
    match item {
        SourceItem::Words(ws) => if ws@.len() == 0 {
            Ok(p)
        } else {
            let text = normalize_newlines(words_code(src, ws@));
            let from = ws@[0].start_line as int;
            let to = ws@.last().end_line as int;
            if p.run.len() == 0 || from == p.last_line + 1 {
                Ok(Progress { out: p.out, run: p.run.push(text), last_line: to })
            } else {
                Ok(Progress { out: flush(p.out, p.run), run: seq![text], last_line: to })
            }
        },
        _ => match emitted(item, inner, src, reg) {
            Err(e) => Err(e),
            Ok(v) => Ok(Progress { out: flush(p.out, p.run) + v, run: Seq::empty(), last_line: p.last_line }),
        },
    }
}

/// The extraction of a list of items.
pub open spec fn extract_items(items: Seq<SourceItem>, src: Seq<char>, reg: Seq<BindingInfo>) -> Result<
    Seq<ItemView>,
    ExtractError,
>
    decreases items, items.len() + 1,
{
    match progress_upto(items, items.len() as int, src, reg) {
        Err(e) => Err(e),
        Ok(p) => Ok(flush(p.out, p.run)),
    }
}

/// The extraction of a module's own items, when the module is documented.
pub open spec fn inner_of(item: SourceItem, src: Seq<char>, reg: Seq<BindingInfo>) -> Result<
    Seq<ItemView>,
    ExtractError,
>
    decreases item, 0int,
{
    match item {
        SourceItem::Module(m) => match m.kind {
            ModuleKind::Named(n) => if lookup(reg, n.span) is Some {
                extract_items(m.items@, src, reg)
            } else {
                Ok(Seq::empty())
            },
            ModuleKind::Test => Ok(Seq::empty()),
        },
        _ => Ok(Seq::empty()),
    }
}

/// The progress after the first `n` items.
pub open spec fn progress_upto(
    items: Seq<SourceItem>,
    n: int,
    src: Seq<char>,
    reg: Seq<BindingInfo>,
) -> Result<Progress, ExtractError>
    decreases items, n,
{
    if n <= 0 || n > items.len() {
        Ok(Progress { out: Seq::empty(), run: Seq::empty(), last_line: 0 })
    } else {
        match progress_upto(items, n - 1, src, reg) {
            Err(e) => Err(e),
            Ok(p) => step(p, items[n - 1], inner_of(items[n - 1], src, reg), src, reg),
        }
    }
}

pub open spec fn result_items(r: Result<Vec<ItemContent>, ExtractError>) -> Result<
    Seq<ItemView>,
    ExtractError,
> {
    match r {
        Ok(v) => Ok(items_view(v@)),
        Err(e) => Err(e),
    }
}

proof fn lemma_data_error_stays(
    defs: Seq<DataDef>,
    k: int,
    n: int,
    src: Seq<char>,
    reg: Seq<BindingInfo>,
)
    requires
        0 <= k <= n <= defs.len(),
        data_upto(defs, k, src, reg) is Err,
    ensures
        data_upto(defs, n, src, reg) == data_upto(defs, k, src, reg),
    decreases n - k,
{
    if n > k {
        lemma_data_error_stays(defs, k, n - 1, src, reg);
    }
}

proof fn lemma_progress_error_stays(
    items: Seq<SourceItem>,
    k: int,
    n: int,
    src: Seq<char>,
    reg: Seq<BindingInfo>,
)
    requires
        0 <= k <= n <= items.len(),
        progress_upto(items, k, src, reg) is Err,
    ensures
        progress_upto(items, n, src, reg) == progress_upto(items, k, src, reg),
    decreases n - k,
{
    if n > k {
        lemma_progress_error_stays(items, k, n - 1, src, reg);
    }
}

/// Documents every definition of a data item, in order.
fn data_items(defs: &Vec<DataDef>, source: &str, registry: &Vec<BindingInfo>) -> (r: Result<
    Vec<ItemContent>,
    ExtractError,
>)
    ensures
        result_items(r) == data_upto(defs@, defs@.len() as int, source@, registry@),
{
    let mut out: Vec<ItemContent> = Vec::new();
    let mut i: usize = 0;
    assert(items_view(out@) =~= Seq::<ItemView>::empty());
    while i < defs.len()
        invariant
            0 <= i <= defs@.len(),
            data_upto(defs@, i as int, source@, registry@) == Ok::<Seq<ItemView>, ExtractError>(
                items_view(out@),
            ),
        decreases defs@.len() - i,
    {
        match data_def_to_item(&defs[i], source, registry) {
            Ok(item) => {
                let ghost before = out@;
                out.push(item);
                assert(items_view(out@) =~= items_view(before).push(item@));
            },
            Err(e) => {
                proof {
                    lemma_data_error_stays(defs@, i as int + 1, defs@.len() as int, source@, registry@);
                }
                return Err(e);
            },
        }
        i += 1;
    }
    Ok(out)
}

/// Emits the pending run of plain code, if any, and empties it.
fn flush_run(out: &mut Vec<ItemContent>, run: &mut Vec<String>)
    ensures
        items_view(final(out)@) == flush(items_view(old(out)@), crate::model::strs(old(run)@)),
        final(run)@.len() == 0,
{
    let ghost start = out@;
    if run.len() > 0 {
        let text = joined_lines(run);
        assert(run@.map_values(|l: String| l@) =~= crate::model::strs(run@));
        let chunks = split_blank_lines(text.as_str());
        let ghost views = chunks@.map_values(|c: String| c@);
        let mut i: usize = 0;
        while i < chunks.len()
            invariant
                0 <= i <= chunks@.len(),
                views == chunks@.map_values(|c: String| c@),
                items_view(out@) == items_view(start) + views.subrange(0, i as int).map_values(
                    |c: Seq<char>| ItemView::Words { code: c },
                ),
            decreases chunks@.len() - i,
        {
            let ghost before = out@;
            out.push(ItemContent::Words { code: chunks[i].clone() });
            assert(items_view(out@) =~= items_view(before).push(ItemView::Words { code: views[i as int] }));
            assert(views.subrange(0, i as int + 1).map_values(|c: Seq<char>| ItemView::Words { code: c })
                =~= views.subrange(0, i as int).map_values(|c: Seq<char>| ItemView::Words { code: c }).push(
                ItemView::Words { code: views[i as int] },
            ));
            i += 1;
        }
        assert(views.subrange(0, chunks@.len() as int) =~= views);
    } else {
        assert(items_view(out@) =~= items_view(start));
    }
    *run = Vec::new();
}

/// What a non-code item emits.
fn emit_item(item: &SourceItem, source: &str, registry: &Vec<BindingInfo>) -> (r: Result<
    Vec<ItemContent>,
    ExtractError,
>)
    ensures
        result_items(r) == emitted(*item, inner_of(*item, source@, registry@), source@, registry@),
    decreases item,
{
    match item {
        SourceItem::Words(_) => {
            let v: Vec<ItemContent> = Vec::new();
            assert(items_view(v@) =~= Seq::<ItemView>::empty());
            Ok(v)
        },
        SourceItem::Binding(b) => {
            let mut v: Vec<ItemContent> = Vec::new();
            match binding_to_item(b, source, registry) {
                Some(i) => {
                    v.push(i);
                },
                None => {},
            }
            assert(items_view(v@) =~= opt_seq(binding_result(*b, source@, registry@)));
            Ok(v)
        },
        SourceItem::Module(m) => {
            let mut v: Vec<ItemContent> = Vec::new();
            match &m.kind {
                ModuleKind::Test => {},
                ModuleKind::Named(n) => {
                    match get_binding_info(registry, &n.span) {
                        None => {},
                        Some(index) => {
                            let inner = handle_ast_items(&m.items, source, registry);
                            match inner {
                                Err(e) => {
                                    return Err(e);
                                },
                                Ok(items) => {
                                    let (comment, _) = comment_parts(&registry[index].comment);
                                    let module = ModuleDefinition {
                                        name: n.value.clone(),
                                        comment,
                                        items,
                                    };
                                    proof {
                                        lemma_module_items(module);
                                    }
                                    assert(module@.items =~= items_view(module.items@));
                                    v.push(ItemContent::Module(module));
                                },
                            }
                        },
                    }
                },
            }
            assert(items_view(v@) =~= module_result(*m, inner_of(*item, source@, registry@), registry@)->Ok_0);
            Ok(v)
        },
        SourceItem::Data(defs) => data_items(defs, source, registry),
        SourceItem::Import(path) => {
            let mut v: Vec<ItemContent> = Vec::new();
            v.push(ItemContent::Import(ImportDefinition { path: path.clone() }));
            assert(items_view(v@) =~= seq![ItemView::Import { path: path@ }]);
            Ok(v)
        },
    }
}

/// Documents the items of a source file, or of a module, in source order.
/// Consecutive plain code on adjacent lines forms one run, which is emitted
/// cut at its blank lines.
pub fn handle_ast_items(items: &Vec<SourceItem>, source: &str, registry: &Vec<BindingInfo>) -> (r:
    Result<Vec<ItemContent>, ExtractError>)
    ensures
        result_items(r) == extract_items(items@, source@, registry@),
    decreases items,
{
    let ghost src = source@;
    let ghost reg = registry@;
    let mut out: Vec<ItemContent> = Vec::new();
    let mut run: Vec<String> = Vec::new();
    let mut last_line: usize = 0;
    let mut i: usize = 0;
    assert(items_view(out@) =~= Seq::<ItemView>::empty());
    assert(crate::model::strs(run@) =~= Seq::<Seq<char>>::empty());
    while i < items.len()
        invariant
            0 <= i <= items@.len(),
            src == source@,
            reg == registry@,
            progress_upto(items@, i as int, src, reg) == Ok::<Progress, ExtractError>(
                Progress {
                    out: items_view(out@),
                    run: crate::model::strs(run@),
                    last_line: last_line as int,
                },
            ),
        decreases items@.len() - i,
    {
        let ghost p = Progress {
            out: items_view(out@),
            run: crate::model::strs(run@),
            last_line: last_line as int,
        };
        match &items[i] {
            SourceItem::Words(ws) => {
                if ws.len() > 0 {
                    let code = get_words_as_code(ws, source);
                    let text = normalized_newlines(code.as_str());
                    let from = ws[0].start_line;
                    let to = ws[ws.len() - 1].end_line;
                    if run.len() == 0 || (last_line < usize::MAX && from == last_line + 1) {
                        run.push(text);
                        assert(crate::model::strs(run@) =~= p.run.push(text@));
                    } else {
                        flush_run(&mut out, &mut run);
                        run.push(text);
                        assert(crate::model::strs(run@) =~= seq![text@]);
                    }
                    last_line = to;
                }
            },
            _ => {
                match emit_item(&items[i], source, registry) {
                    Err(e) => {
                        proof {
                            lemma_progress_error_stays(
                                items@,
                                i as int + 1,
                                items@.len() as int,
                                src,
                                reg,
                            );
                        }
                        return Err(e);
                    },
                    Ok(v) => {
                        flush_run(&mut out, &mut run);
                        let ghost before = out@;
                        let mut k: usize = 0;
                        let mut v = v;
                        let ghost emitted_items = items_view(v@);
                        while k < v.len()
                            invariant
                                0 <= k <= v@.len(),
                                emitted_items == items_view(v@),
                                items_view(out@) == items_view(before) + emitted_items.subrange(
                                    0,
                                    k as int,
                                ),
                            decreases v@.len() - k,
                        {
                            let ghost out_before = out@;
                            out.push(v[k].duplicate());
                            assert(items_view(out@) =~= items_view(out_before).push(emitted_items[k as int]));
                            assert(emitted_items.subrange(0, k as int + 1) =~= emitted_items.subrange(0, k as int).push(emitted_items[k as int]));
                            k += 1;
                        }
                        assert(emitted_items.subrange(0, v@.len() as int) =~= emitted_items);
                        assert(crate::model::strs(run@) =~= Seq::<Seq<char>>::empty());
                    },
                }
            },
        }
        i += 1;
    }
    flush_run(&mut out, &mut run);
    Ok(out)
}

} // verus!
