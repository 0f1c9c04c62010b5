//! What the extractor reads of a parsed program: the top-level items of a
//! source file, and the registry of binding metadata that the compiler keeps,
//! both as plain values.
use crate::model::{NamedSignature, SignatureInfo};
use vstd::prelude::*;

verus! {

/// A range of source text: the file it lies in, its first and last
/// character positions (end exclusive), and the lines it starts and ends on.
#[derive(Debug, Clone, Copy, PartialEq, Eq, Structural)]
pub struct CodeSpan {
    pub file: usize,
    pub start: usize,
    pub end: usize,
    pub start_line: usize,
    pub end_line: usize,
}

/// A documentation comment: its text, and the signature it declares, if any.
#[derive(Debug, Clone)]
pub struct DocComment {
    pub text: String,
    pub sig: Option<NamedSignature>,
}

/// A name that a module binds, with the registry index of its binding.
#[derive(Debug, Clone)]
pub struct ModuleName {
    pub name: String,
    pub index: usize,
}

/// What a binding is, as far as the documentation is concerned.
#[derive(Debug, Clone)]
pub enum BindingKind {
    /// A constant, with its value shown, if it is known.
    Const(Option<String>),
    Func(SignatureInfo),
    /// An index macro, with its number of function arguments.
    IndexMacro(usize),
    CodeMacro,
    /// A module, with the names it binds.
    Module(Vec<ModuleName>),
    Import,
    Scope,
    Error,
}

/// The compiler's metadata for one binding, keyed by the span of its name.
#[derive(Debug, Clone)]
pub struct BindingInfo {
    pub span: CodeSpan,
    pub public: bool,
    pub comment: Option<DocComment>,
    pub kind: BindingKind,
}

/// A name as written in the source, and where.
#[derive(Debug, Clone)]
pub struct SourceName {
    pub value: String,
    pub span: CodeSpan,
}

#[derive(Debug, Clone)]
pub struct SourceBinding {
    pub name: SourceName,
    /// The span of the whole binding.
    pub span: CodeSpan,
}

#[derive(Debug, Clone)]
pub enum ModuleKind {
    Named(SourceName),
    Test,
}

#[derive(Debug)]
pub struct SourceModule {
    pub kind: ModuleKind,
    pub items: Vec<SourceItem>,
}

#[derive(Debug, Clone)]
pub struct SourceField {
    pub name: String,
    /// The spans of the words of the field's validator, if it has one.
    pub validator: Option<Vec<CodeSpan>>,
    /// Whether the field has a default value.
    pub has_default: bool,
}

#[derive(Debug, Clone)]
pub struct SourceFields {
    pub boxed: bool,
    pub fields: Vec<SourceField>,
}

/// One data definition.
#[derive(Debug, Clone)]
pub struct DataDef {
    pub name: Option<SourceName>,
    pub span: CodeSpan,
    pub variant: bool,
    pub public: bool,
    pub fields: Option<SourceFields>,
    /// Whether the definition carries a callable constructor.
    pub has_constructor: bool,
}

/// A top-level item of a parsed source file.
#[derive(Debug)]
pub enum SourceItem {
    /// Plain code: the spans of its words, in order.
    Words(Vec<CodeSpan>),
    Binding(SourceBinding),
    Module(SourceModule),
    /// A data item, which may expand to several definitions.
    Data(Vec<DataDef>),
    /// An import, with its path.
    Import(String),
}

} // verus!
