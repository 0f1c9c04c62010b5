//! The documentation model: what the extractor produces for each item of a
//! source file, together with a mathematical view of every type.
use crate::copy::append_arguments;
use crate::text::{decimal, decimal_string};
use vstd::prelude::*;

verus! {

/// The number of stack values a function takes and leaves.
#[derive(Debug, Clone, Copy, PartialEq, Eq, Structural)]
pub struct SignatureInfo {
    pub inputs: usize,
    pub outputs: usize,
}

/// Argument and output names declared by a documentation comment.
#[derive(Debug, Clone)]
pub struct NamedSignature {
    pub inputs: Vec<String>,
    pub outputs: Vec<String>,
}

#[derive(Debug, Clone)]
pub struct Field {
    pub name: String,
    pub validator: Option<String>,
}

#[derive(Debug, Clone)]
pub struct Definition {
    pub boxed: bool,
    pub fields: Vec<Field>,
}

#[derive(Debug, Clone)]
pub struct BindingDefinition {
    pub name: String,
    pub code: String,
    pub public: bool,
    pub comment: Option<String>,
    pub kind: BindingType,
}

#[derive(Debug)]
pub struct ModuleDefinition {
    pub name: String,
    pub comment: Option<String>,
    pub items: Vec<ItemContent>,
}

#[derive(Debug, Clone)]
pub struct DataDefinition {
    pub name: Option<String>,
    pub comment: Option<String>,
    pub definition: Option<Definition>,
}

#[derive(Debug, Clone)]
pub struct VariantDefinition {
    pub name: String,
    pub comment: Option<String>,
    pub definition: Option<Definition>,
}

#[derive(Debug, Clone)]
pub struct ImportDefinition {
    pub path: String,
}

/// One documented item of a source file, in source order.
#[derive(Debug)]
pub enum ItemContent {
    Words { code: String },
    Binding(BindingDefinition),
    Module(ModuleDefinition),
    Data(DataDefinition),
    Variant(VariantDefinition),
    Import(ImportDefinition),
}

#[derive(Debug, Clone)]
pub struct ConstantDefinition {
    pub value: Option<String>,
}

#[derive(Debug, Clone)]
pub struct FunctionArgument {
    pub name: String,
    pub optional: bool,
    pub comment_name: Option<String>,
    pub inferred: bool,
}

#[derive(Debug, Clone)]
pub struct FunctionOutput {
    pub name: String,
    pub inferred: bool,
}

#[derive(Debug, Clone)]
pub struct FunctionDefinition {
    pub required_inputs: Vec<FunctionArgument>,
    pub optional_inputs: Vec<FunctionArgument>,
    pub outputs: Vec<FunctionOutput>,
}

/// A constructor field name, and whether the field has no default value.
#[derive(Debug, Clone)]
pub struct NamedArgument {
    pub name: String,
    pub required: bool,
}

#[derive(Debug, Clone)]
pub struct IndexMacroDefinition {
    pub arguments: usize,
    pub named_signature: Option<NamedSignature>,
}

#[derive(Debug, Clone)]
pub struct CodeMacroDefinition {
    pub named_signature: Option<NamedSignature>,
}

#[derive(Debug, Clone)]
pub enum BindingType {
    Const(ConstantDefinition),
    Function(FunctionDefinition),
    IndexMacro(IndexMacroDefinition),
    CodeMacro(CodeMacroDefinition),
}

/// The documentation items of one source file.
#[derive(Debug)]
pub struct FileContent {
    pub main: bool,
    pub file: String,
    pub items: Vec<ItemContent>,
}

/// A highlighting class, for items drawn in the colour of their kind.
pub trait Colored {
    fn color_class(&self) -> &'static str;
}

/// Items that carry a documentation comment.
pub trait Documented {
    fn comment(&self) -> Option<&str>;
}

// ---------------------------------------------------------------------------
// Views
// ---------------------------------------------------------------------------

pub ghost struct NamedSignatureView {
    pub inputs: Seq<Seq<char>>,
    pub outputs: Seq<Seq<char>>,
}

pub ghost struct FieldView {
    pub name: Seq<char>,
    pub validator: Option<Seq<char>>,
}

pub ghost struct DefinitionView {
    pub boxed: bool,
    pub fields: Seq<FieldView>,
}

pub ghost struct ArgumentView {
    pub name: Seq<char>,
    pub optional: bool,
    pub comment_name: Option<Seq<char>>,
    pub inferred: bool,
}

pub ghost struct OutputView {
    pub name: Seq<char>,
    pub inferred: bool,
}

pub ghost struct FunctionView {
    pub required_inputs: Seq<ArgumentView>,
    pub optional_inputs: Seq<ArgumentView>,
    pub outputs: Seq<OutputView>,
}

pub ghost enum BindingTypeView {
    Const { value: Option<Seq<char>> },
    Function(FunctionView),
    IndexMacro { arguments: usize, named_signature: Option<NamedSignatureView> },
    CodeMacro { named_signature: Option<NamedSignatureView> },
}

pub ghost struct BindingView {
    pub name: Seq<char>,
    pub code: Seq<char>,
    pub public: bool,
    pub comment: Option<Seq<char>>,
    pub kind: BindingTypeView,
}

pub ghost struct ModuleView {
    pub name: Seq<char>,
    pub comment: Option<Seq<char>>,
    pub items: Seq<ItemView>,
}

pub ghost enum ItemView {
    Words { code: Seq<char> },
    Binding(BindingView),
    Module(ModuleView),
    Data { name: Option<Seq<char>>, comment: Option<Seq<char>>, definition: Option<DefinitionView> },
    Variant { name: Seq<char>, comment: Option<Seq<char>>, definition: Option<DefinitionView> },
    Import { path: Seq<char> },
}

pub open spec fn opt_str(o: Option<String>) -> Option<Seq<char>> {
    match o {
        Some(s) => Some(s@),
        None => None,
    }
}

pub open spec fn strs(v: Seq<String>) -> Seq<Seq<char>> {
    v.map_values(|s: String| s@)
}

impl View for NamedSignature {
    type V = NamedSignatureView;

    open spec fn view(&self) -> NamedSignatureView {
        NamedSignatureView { inputs: strs(self.inputs@), outputs: strs(self.outputs@) }
    }
}

pub open spec fn opt_sig(o: Option<NamedSignature>) -> Option<NamedSignatureView> {
    match o {
        Some(s) => Some(s@),
        None => None,
    }
}

impl View for Field {
    type V = FieldView;

    open spec fn view(&self) -> FieldView {
        FieldView { name: self.name@, validator: opt_str(self.validator) }
    }
}

impl View for Definition {
    type V = DefinitionView;

    open spec fn view(&self) -> DefinitionView {
        DefinitionView { boxed: self.boxed, fields: self.fields@.map_values(|f: Field| f@) }
    }
}

pub open spec fn opt_def(o: Option<Definition>) -> Option<DefinitionView> {
    match o {
        Some(d) => Some(d@),
        None => None,
    }
}

impl View for FunctionArgument {
    type V = ArgumentView;

    open spec fn view(&self) -> ArgumentView {
        ArgumentView {
            name: self.name@,
            optional: self.optional,
            comment_name: opt_str(self.comment_name),
            inferred: self.inferred,
        }
    }
}

impl View for FunctionOutput {
    type V = OutputView;

    open spec fn view(&self) -> OutputView {
        OutputView { name: self.name@, inferred: self.inferred }
    }
}

pub open spec fn args_view(v: Seq<FunctionArgument>) -> Seq<ArgumentView> {
    v.map_values(|a: FunctionArgument| a@)
}

pub open spec fn outs_view(v: Seq<FunctionOutput>) -> Seq<OutputView> {
    v.map_values(|o: FunctionOutput| o@)
}

impl View for FunctionDefinition {
    type V = FunctionView;

    open spec fn view(&self) -> FunctionView {
        FunctionView {
            required_inputs: args_view(self.required_inputs@),
            optional_inputs: args_view(self.optional_inputs@),
            outputs: outs_view(self.outputs@),
        }
    }
}

impl View for BindingType {
    type V = BindingTypeView;

    open spec fn view(&self) -> BindingTypeView {
        match self {
            BindingType::Const(c) => BindingTypeView::Const { value: opt_str(c.value) },
            BindingType::Function(f) => BindingTypeView::Function(f@),
            BindingType::IndexMacro(m) => BindingTypeView::IndexMacro {
                arguments: m.arguments,
                named_signature: opt_sig(m.named_signature),
            },
            BindingType::CodeMacro(m) => BindingTypeView::CodeMacro {
                named_signature: opt_sig(m.named_signature),
            },
        }
    }
}

impl View for BindingDefinition {
    type V = BindingView;

    open spec fn view(&self) -> BindingView {
        BindingView {
            name: self.name@,
            code: self.code@,
            public: self.public,
            comment: opt_str(self.comment),
            kind: self.kind@,
        }
    }
}

pub open spec fn item_view(item: ItemContent) -> ItemView
    decreases item,
{
    match item {
        ItemContent::Words { code } => ItemView::Words { code: code@ },
        ItemContent::Binding(b) => ItemView::Binding(b@),
        ItemContent::Module(m) => ItemView::Module(module_view(m)),
        ItemContent::Data(d) => ItemView::Data {
            name: opt_str(d.name),
            comment: opt_str(d.comment),
            definition: opt_def(d.definition),
        },
        ItemContent::Variant(v) => ItemView::Variant {
            name: v.name@,
            comment: opt_str(v.comment),
            definition: opt_def(v.definition),
        },
        ItemContent::Import(i) => ItemView::Import { path: i.path@ },
    }
}

pub open spec fn module_view(m: ModuleDefinition) -> ModuleView
    decreases m,
{
    ModuleView {
        name: m.name@,
        comment: opt_str(m.comment),
        items: Seq::new(
            m.items@.len(),
            |k: int|
                if 0 <= k < m.items@.len() {
                    item_view(m.items[k])
                } else {
                    ItemView::Words { code: Seq::empty() }
                },
        ),
    }
}

impl View for ItemContent {
    type V = ItemView;

    open spec fn view(&self) -> ItemView {
        item_view(*self)
    }
}

impl View for ModuleDefinition {
    type V = ModuleView;

    open spec fn view(&self) -> ModuleView {
        module_view(*self)
    }
}

pub open spec fn items_view(v: Seq<ItemContent>) -> Seq<ItemView> {
    v.map_values(|i: ItemContent| i@)
}

// ---------------------------------------------------------------------------
// Visibility
// ---------------------------------------------------------------------------

/// Whether an item counts as public content when a module is displayed:
/// public bindings, data and variant definitions, and modules that
/// themselves hold public content.
pub open spec fn shows_publicly(item: ItemView) -> bool
    decreases item,
{
    match item {
        ItemView::Binding(b) => b.public,
        ItemView::Module(m) => exists|k: int|
            0 <= k < m.items.len() && shows_publicly(#[trigger] m.items[k]),
        ItemView::Data { .. } => true,
        ItemView::Variant { .. } => true,
        _ => false,
    }
}

/// Whether a module holds public content, recursively.
pub open spec fn has_public_content(m: ModuleView) -> bool {
    exists|k: int| 0 <= k < m.items.len() && shows_publicly(#[trigger] m.items[k])
}

impl ModuleDefinition {
    pub fn has_public_items(&self) -> (r: bool)
        ensures
            r == has_public_content(self@),
        decreases self,
    {
        proof {
            lemma_module_items(*self);
        }
        let mut i: usize = 0;
        while i < self.items.len()
            invariant
                0 <= i <= self.items@.len(),
                forall|k: int| 0 <= k < i ==> !shows_publicly(#[trigger] self@.items[k]),
            decreases self.items@.len() - i,
        {
            let found = item_shows_publicly(&self.items[i]);
            if found {
                assert(shows_publicly(self@.items[i as int]));
                return true;
            }
            i += 1;
        }
        false
    }
}

/// The view of a module lists the views of its items.
pub proof fn lemma_module_items(m: ModuleDefinition)
    ensures
        m@.items.len() == m.items@.len(),
        forall|k: int| 0 <= k < m.items@.len() ==> m@.items[k] == #[trigger] m.items@[k]@,
{
}

/// Executable form of `shows_publicly`.
pub fn item_shows_publicly(item: &ItemContent) -> (r: bool)
    ensures
        r == shows_publicly(item@),
    decreases item,
{
    match item {
        ItemContent::Binding(b) => b.public,
        ItemContent::Module(m) => m.has_public_items(),
        ItemContent::Data(_) => true,
        ItemContent::Variant(_) => true,
        _ => false,
    }
}

pub open spec fn opt_str_ref(o: Option<&str>) -> Option<Seq<char>> {
    match o {
        Some(s) => Some(s@),
        None => None,
    }
}

fn comment_of(c: &Option<String>) -> (r: Option<&str>)
    ensures
        opt_str_ref(r) == opt_str(*c),
{
    match c {
        Some(s) => Some(s.as_str()),
        None => None,
    }
}

impl Documented for BindingDefinition {
    fn comment(&self) -> (r: Option<&str>)
        ensures
            opt_str_ref(r) == opt_str(self.comment),
    {
        comment_of(&self.comment)
    }
}

impl Documented for ModuleDefinition {
    fn comment(&self) -> (r: Option<&str>)
        ensures
            opt_str_ref(r) == opt_str(self.comment),
    {
        comment_of(&self.comment)
    }
}

impl Documented for DataDefinition {
    fn comment(&self) -> (r: Option<&str>)
        ensures
            opt_str_ref(r) == opt_str(self.comment),
    {
        comment_of(&self.comment)
    }
}

impl Documented for VariantDefinition {
    fn comment(&self) -> (r: Option<&str>)
        ensures
            opt_str_ref(r) == opt_str(self.comment),
    {
        comment_of(&self.comment)
    }
}

/// Highlighting class of a function by its number of inputs.
pub open spec fn function_class(inputs: usize) -> Seq<char> {
    if inputs == 0 {
        "noadic-function"@
    } else if inputs == 1 {
        "monadic-function"@
    } else if inputs == 2 {
        "dyadic-function"@
    } else if inputs == 3 {
        "triadic-function"@
    } else if inputs == 4 {
        "tetradic-function"@
    } else {
        ""@
    }
}

/// Highlighting class of an index macro by its number of arguments.
pub open spec fn index_macro_class(arguments: usize) -> Seq<char> {
    if arguments <= 1 {
        "monadic-modifier"@
    } else if arguments == 2 {
        "dyadic-modifier"@
    } else {
        "triadic-modifier"@
    }
}

impl Colored for SignatureInfo {
    fn color_class(&self) -> (r: &'static str)
        ensures
            r@ == function_class(self.inputs),
    {
        match self.inputs {
            0 => "noadic-function",
            1 => "monadic-function",
            2 => "dyadic-function",
            3 => "triadic-function",
            4 => "tetradic-function",
            _ => "",
        }
    }
}

impl Colored for IndexMacroDefinition {
    fn color_class(&self) -> (r: &'static str)
        ensures
            r@ == index_macro_class(self.arguments),
    {
        match self.arguments {
            0 | 1 => "monadic-modifier",
            2 => "dyadic-modifier",
            _ => "triadic-modifier",
        }
    }
}

impl SignatureInfo {
    /// The signature as written in documentation: `|i` when there is one
    /// output, `|i.o` otherwise.
    pub fn to_display_string(&self) -> (r: String)
        ensures
            self.outputs == 1 ==> r@ == "|"@ + decimal(self.inputs as nat),
            self.outputs != 1 ==> r@ == "|"@ + decimal(self.inputs as nat) + "."@ + decimal(
                self.outputs as nat,
            ),
    {
        let mut s = String::from_str("|");
        let i = decimal_string(self.inputs);
        s.append(i.as_str());
        if self.outputs != 1 {
            s.append(".");
            let o = decimal_string(self.outputs);
            s.append(o.as_str());
        }
        s
    }
}

impl FunctionDefinition {
    /// The arity of the function: its required inputs and its outputs.
    pub fn signature(&self) -> (r: SignatureInfo)
        ensures
            r.inputs == self.required_inputs@.len(),
            r.outputs == self.outputs@.len(),
    {
        SignatureInfo { inputs: self.required_inputs.len(), outputs: self.outputs.len() }
    }

    /// All inputs: the required ones, then the optional ones.
    pub fn inputs(&self) -> (r: Vec<FunctionArgument>)
        ensures
            args_view(r@) == self@.required_inputs + self@.optional_inputs,
    {
        let mut inputs: Vec<FunctionArgument> = Vec::new();
        append_arguments(&mut inputs, &self.required_inputs);
        let ghost mid = inputs@;
        append_arguments(&mut inputs, &self.optional_inputs);
        let ghost req = self.required_inputs@;
        let ghost opt = self.optional_inputs@;
        assert forall|k: int| 0 <= k < inputs@.len() implies #[trigger] args_view(inputs@)[k] == (
        self@.required_inputs + self@.optional_inputs)[k] by {
            if k < req.len() {
                assert(inputs@[k] == mid[k]);
                assert(mid[0 + k]@ == req[k]@);
            } else {
                assert(inputs@[req.len() + (k - req.len())]@ == opt[k - req.len()]@);
            }
        }
        assert(args_view(inputs@) =~= self@.required_inputs + self@.optional_inputs);
        inputs
    }
}

impl Default for NamedSignature {
    fn default() -> (r: Self)
        ensures
            r@.inputs.len() == 0,
            r@.outputs.len() == 0,
    {
        NamedSignature { inputs: Vec::new(), outputs: Vec::new() }
    }
}

} // verus!
