use uiua_docs::extract::{handle_ast_items, ExtractError};
use uiua_docs::model::{BindingType, ItemContent, NamedSignature, SignatureInfo};
use uiua_docs::source::{
    BindingInfo, BindingKind, CodeSpan, DataDef, DocComment, ModuleKind, ModuleName, SourceBinding,
    SourceField, SourceFields, SourceItem, SourceModule, SourceName,
};

fn span(start: usize, end: usize, start_line: usize, end_line: usize) -> CodeSpan {
    CodeSpan { file: 0, start, end, start_line, end_line }
}

fn codes(items: &[ItemContent]) -> Vec<String> {
    items
        .iter()
        .map(|i| match i {
            ItemContent::Words { code } => code.clone(),
            _ => panic!("expected plain code"),
        })
        .collect()
}

#[test]
fn adjacent_code_merges() {
    let source = "aa\nbb";
    let items = vec![
        SourceItem::Words(vec![span(0, 2, 5, 5)]),
        SourceItem::Words(vec![span(3, 5, 6, 6)]),
    ];
    let out = handle_ast_items(&items, source, &vec![]).unwrap();
    assert_eq!(codes(&out), vec!["aa\nbb".to_string()]);
}

#[test]
fn code_after_a_gap_does_not_merge() {
    let source = "aa\n\n\nbb";
    let items = vec![
        SourceItem::Words(vec![span(0, 2, 5, 5)]),
        SourceItem::Words(vec![span(5, 7, 8, 8)]),
    ];
    let out = handle_ast_items(&items, source, &vec![]).unwrap();
    assert_eq!(codes(&out), vec!["aa".to_string(), "bb".to_string()]);
}

#[test]
fn blank_line_splits_a_chunk() {
    let source = "aa\n\nbb";
    let items = vec![SourceItem::Words(vec![span(0, 2, 1, 1), span(4, 6, 3, 3)])];
    let out = handle_ast_items(&items, source, &vec![]).unwrap();
    assert_eq!(codes(&out), vec!["aa".to_string(), "bb".to_string()]);
}

#[test]
fn carriage_returns_are_normalized() {
    let source = "aa\r\nbb";
    let items = vec![SourceItem::Words(vec![span(0, 2, 1, 1), span(4, 6, 2, 2)])];
    let out = handle_ast_items(&items, source, &vec![]).unwrap();
    assert_eq!(codes(&out), vec!["aa\nbb".to_string()]);
}

#[test]
fn empty_input_gives_nothing() {
    let out = handle_ast_items(&vec![], "", &vec![]).unwrap();
    assert!(out.is_empty());
}

fn function_info(name_span: CodeSpan, public: bool, inputs: usize, comment: Option<DocComment>) -> BindingInfo {
    BindingInfo {
        span: name_span,
        public,
        comment,
        kind: BindingKind::Func(SignatureInfo { inputs, outputs: 1 }),
    }
}

#[test]
fn binding_becomes_function_with_comment_names() {
    let source = "Add ← +";
    let name = SourceName { value: "Add".to_string(), span: span(0, 3, 1, 1) };
    let comment = DocComment {
        text: "Adds".to_string(),
        sig: Some(NamedSignature { inputs: vec!["a".to_string(), "b".to_string()], outputs: vec!["s".to_string()] }),
    };
    let registry = vec![function_info(span(0, 3, 1, 1), true, 2, Some(comment))];
    let items = vec![SourceItem::Binding(SourceBinding { name, span: span(0, 7, 1, 1) })];
    let out = handle_ast_items(&items, source, &registry).unwrap();
    assert_eq!(out.len(), 1);
    match &out[0] {
        ItemContent::Binding(b) => {
            assert_eq!(b.name, "Add");
            assert_eq!(b.code, "Add ← +");
            assert!(b.public);
            assert_eq!(b.comment.as_deref(), Some("Adds"));
            match &b.kind {
                BindingType::Function(f) => {
                    assert_eq!(f.required_inputs[0].name, "a");
                    assert_eq!(f.required_inputs[1].name, "b");
                    assert_eq!(f.outputs[0].name, "s");
                }
                _ => panic!("expected a function"),
            }
        }
        _ => panic!("expected a binding"),
    }
}

#[test]
fn binding_without_metadata_is_skipped() {
    let name = SourceName { value: "X".to_string(), span: span(0, 1, 1, 1) };
    let items = vec![SourceItem::Binding(SourceBinding { name, span: span(0, 5, 1, 1) })];
    let out = handle_ast_items(&items, "X ← 1", &vec![]).unwrap();
    assert!(out.is_empty());
}

#[test]
fn code_before_a_binding_is_emitted_first() {
    let source = "aa\nX ← 1";
    let name = SourceName { value: "X".to_string(), span: span(3, 4, 2, 2) };
    let registry = vec![BindingInfo {
        span: span(3, 4, 2, 2),
        public: true,
        comment: None,
        kind: BindingKind::Const(Some("1".to_string())),
    }];
    let items = vec![
        SourceItem::Words(vec![span(0, 2, 1, 1)]),
        SourceItem::Binding(SourceBinding { name, span: span(3, 8, 2, 2) }),
    ];
    let out = handle_ast_items(&items, source, &registry).unwrap();
    assert_eq!(out.len(), 2);
    assert!(matches!(&out[0], ItemContent::Words { code } if code == "aa"));
    match &out[1] {
        ItemContent::Binding(b) => match &b.kind {
            BindingType::Const(c) => assert_eq!(c.value.as_deref(), Some("1")),
            _ => panic!("expected a constant"),
        },
        _ => panic!("expected a binding"),
    }
}

#[test]
fn test_modules_are_dropped_and_named_modules_kept() {
    let source = "M ~ { }";
    let name = SourceName { value: "M".to_string(), span: span(0, 1, 1, 1) };
    let registry = vec![BindingInfo {
        span: span(0, 1, 1, 1),
        public: true,
        comment: Some(DocComment { text: "A module".to_string(), sig: None }),
        kind: BindingKind::Module(vec![]),
    }];
    let items = vec![
        SourceItem::Module(SourceModule { kind: ModuleKind::Test, items: vec![] }),
        SourceItem::Module(SourceModule {
            kind: ModuleKind::Named(name),
            items: vec![SourceItem::Import("lib.ua".to_string())],
        }),
    ];
    let out = handle_ast_items(&items, source, &registry).unwrap();
    assert_eq!(out.len(), 1);
    match &out[0] {
        ItemContent::Module(m) => {
            assert_eq!(m.name, "M");
            assert_eq!(m.comment.as_deref(), Some("A module"));
            assert_eq!(m.items.len(), 1);
            assert!(matches!(&m.items[0], ItemContent::Import(i) if i.path == "lib.ua"));
        }
        _ => panic!("expected a module"),
    }
}

fn data_def(name: Option<SourceName>, variant: bool, fields: Option<SourceFields>, has_constructor: bool) -> DataDef {
    DataDef { name, span: span(0, 10, 1, 1), variant, public: true, fields, has_constructor }
}

#[test]
fn named_data_without_metadata_is_an_error() {
    let name = SourceName { value: "P".to_string(), span: span(1, 2, 1, 1) };
    let items = vec![SourceItem::Data(vec![data_def(Some(name), false, None, false)])];
    match handle_ast_items(&items, "~P {x y}  ", &vec![]) {
        Err(ExtractError::MissingBindingInfo(n)) => assert_eq!(n, "P"),
        _ => panic!("expected a missing binding error"),
    }
}

#[test]
fn unnamed_data_needs_no_metadata() {
    let fields = SourceFields {
        boxed: true,
        fields: vec![SourceField { name: "x".to_string(), validator: Some(vec![span(5, 6, 1, 1)]), has_default: false }],
    };
    let items = vec![SourceItem::Data(vec![data_def(None, false, Some(fields), false)])];
    let out = handle_ast_items(&items, "~{x: n}   ", &vec![]).unwrap();
    match &out[0] {
        ItemContent::Data(d) => {
            assert!(d.name.is_none());
            let def = d.definition.as_ref().unwrap();
            assert!(def.boxed);
            assert_eq!(def.fields[0].name, "x");
            assert_eq!(def.fields[0].validator.as_deref(), Some("n"));
        }
        _ => panic!("expected data"),
    }
}

#[test]
fn variant_is_documented() {
    let name = SourceName { value: "V".to_string(), span: span(1, 2, 1, 1) };
    let registry = vec![BindingInfo { span: span(1, 2, 1, 1), public: true, comment: None, kind: BindingKind::Module(vec![]) }];
    let items = vec![SourceItem::Data(vec![data_def(Some(name), true, None, false)])];
    let out = handle_ast_items(&items, "|V       ", &registry).unwrap();
    assert!(matches!(&out[0], ItemContent::Variant(v) if v.name == "V"));
}

#[test]
fn data_constructor_becomes_function() {
    let name = SourceName { value: "P".to_string(), span: span(1, 2, 1, 1) };
    let registry = vec![
        BindingInfo {
            span: span(1, 2, 1, 1),
            public: true,
            comment: None,
            kind: BindingKind::Module(vec![ModuleName { name: "Call".to_string(), index: 1 }]),
        },
        function_info(span(20, 21, 1, 1), true, 1, None),
    ];
    let fields = SourceFields {
        boxed: false,
        fields: vec![
            SourceField { name: "x".to_string(), validator: None, has_default: false },
            SourceField { name: "y".to_string(), validator: None, has_default: true },
        ],
    };
    let items = vec![SourceItem::Data(vec![data_def(Some(name), false, Some(fields), true)])];
    let out = handle_ast_items(&items, "~P {x y←0}", &registry).unwrap();
    match &out[0] {
        ItemContent::Binding(b) => {
            assert_eq!(b.name, "P");
            assert_eq!(b.code, "~P {x y←0}");
            match &b.kind {
                BindingType::Function(f) => {
                    assert_eq!(f.required_inputs.len(), 1);
                    assert_eq!(f.required_inputs[0].name, "x");
                    assert_eq!(f.optional_inputs.len(), 1);
                    assert_eq!(f.optional_inputs[0].name, "y");
                    assert!(f.optional_inputs[0].optional);
                }
                _ => panic!("expected a function"),
            }
        }
        _ => panic!("expected a binding"),
    }
}

#[test]
fn data_constructor_without_call_is_malformed() {
    let name = SourceName { value: "P".to_string(), span: span(1, 2, 1, 1) };
    let registry = vec![BindingInfo { span: span(1, 2, 1, 1), public: true, comment: None, kind: BindingKind::Module(vec![]) }];
    let fields = SourceFields { boxed: false, fields: vec![] };
    let items = vec![SourceItem::Data(vec![data_def(Some(name), false, Some(fields), true)])];
    match handle_ast_items(&items, "~P {}     ", &registry) {
        Err(ExtractError::MalformedDataFunction(n)) => assert_eq!(n, "P"),
        _ => panic!("expected a malformed data function"),
    }
}

#[test]
fn unnamed_constructor_and_variant_are_errors() {
    let items = vec![SourceItem::Data(vec![data_def(None, false, None, true)])];
    assert!(matches!(handle_ast_items(&items, "          ", &vec![]), Err(ExtractError::UnnamedDataFunction)));
    let items = vec![SourceItem::Data(vec![data_def(None, true, None, false)])];
    assert!(matches!(handle_ast_items(&items, "          ", &vec![]), Err(ExtractError::UnnamedVariant)));
}
