use uiua_docs::model::{
    BindingDefinition, BindingType, CodeMacroDefinition, ConstantDefinition, DataDefinition, FileContent,
    IndexMacroDefinition, ItemContent, ModuleDefinition, SignatureInfo, VariantDefinition,
};
use uiua_docs::reconcile::reconsiliate_function_definition;
use uiua_docs::summary::{
    summarize_bindings, summarize_code_macros, summarize_constants, summarize_content, summarize_data,
    summarize_functions, summarize_index_macros, summarize_modules, RenderingContent, RenderingItem, SectionType,
};

fn binding(name: &str, public: bool, kind: BindingType) -> ItemContent {
    ItemContent::Binding(BindingDefinition {
        name: name.to_string(),
        code: String::new(),
        public,
        comment: None,
        kind,
    })
}

fn function(name: &str, public: bool, inputs: usize) -> ItemContent {
    binding(name, public, BindingType::Function(reconsiliate_function_definition(SignatureInfo { inputs, outputs: 1 }, None, None)))
}

fn constant(name: &str, public: bool) -> ItemContent {
    binding(name, public, BindingType::Const(ConstantDefinition { value: None }))
}

fn module(name: &str, items: Vec<ItemContent>) -> ItemContent {
    ItemContent::Module(ModuleDefinition { name: name.to_string(), comment: None, items })
}

fn name_of(item: &ItemContent) -> String {
    match item {
        ItemContent::Binding(b) => b.name.clone(),
        ItemContent::Module(m) => m.name.clone(),
        ItemContent::Data(d) => d.name.clone().unwrap_or_default(),
        ItemContent::Variant(v) => v.name.clone(),
        _ => String::new(),
    }
}

fn group_title(item: &RenderingItem) -> String {
    match &item.content {
        RenderingContent::Items(c) => c.title.title.clone(),
        _ => String::new(),
    }
}

#[test]
fn private_module_is_hidden() {
    let items = vec![module("Hidden", vec![constant("a", false), function("f", false, 1)])];
    assert!(summarize_modules(&items).is_none());
}

#[test]
fn public_module_is_shown_without_private_items() {
    let items = vec![module("Shown", vec![constant("a", true), function("f", false, 1), constant("b", false)])];
    let shown = summarize_modules(&items).unwrap();
    assert_eq!(shown.len(), 1);
    match &shown[0] {
        ItemContent::Module(m) => {
            assert_eq!(m.name, "Shown");
            assert_eq!(m.items.len(), 1);
            assert_eq!(name_of(&m.items[0]), "a");
        }
        _ => panic!("expected a module"),
    }
}

#[test]
fn data_counts_as_public_content() {
    let data = ItemContent::Data(DataDefinition { name: Some("D".to_string()), comment: None, definition: None });
    let items = vec![module("Outer", vec![module("Inner", vec![data]), constant("p", false)])];
    let shown = summarize_modules(&items).unwrap();
    match &shown[0] {
        ItemContent::Module(m) => {
            assert_eq!(m.items.len(), 1);
            assert_eq!(name_of(&m.items[0]), "Inner");
        }
        _ => panic!("expected a module"),
    }
}

#[test]
fn category_summaries_pick_public_items() {
    let items = vec![
        constant("c", true),
        constant("hidden", false),
        function("f", true, 2),
        function("g", true, 1),
        function("h", false, 2),
        binding("im", true, BindingType::IndexMacro(IndexMacroDefinition { arguments: 1, named_signature: None })),
        binding("cm", true, BindingType::CodeMacro(CodeMacroDefinition { named_signature: None })),
        ItemContent::Variant(VariantDefinition { name: "V".to_string(), comment: None, definition: None }),
    ];
    let constants = summarize_constants(&items).unwrap();
    assert_eq!(group_title(&constants), "Constants");
    match &constants.content {
        RenderingContent::Items(c) => {
            assert_eq!(c.title.link_id, "__constants");
            assert_eq!(c.items.len(), 1);
            assert_eq!(name_of(&c.items[0]), "c");
        }
        _ => panic!("expected items"),
    }
    let dyadic = summarize_functions(&items, 2).unwrap();
    assert_eq!(dyadic.len(), 1);
    assert_eq!(name_of(&dyadic[0]), "f");
    assert!(summarize_functions(&items, 3).is_none());
    assert_eq!(name_of(&summarize_index_macros(&items).unwrap()[0]), "im");
    assert_eq!(name_of(&summarize_code_macros(&items).unwrap()[0]), "cm");
    assert_eq!(name_of(&summarize_data(&items).unwrap()[0]), "V");
}

#[test]
fn binding_groups_come_in_fixed_order() {
    let items = vec![
        function("h", true, 6),
        function("f", true, 0),
        constant("c", true),
        ItemContent::Data(DataDefinition { name: None, comment: None, definition: None }),
        function("big", true, 7),
    ];
    let groups = summarize_bindings(&items).unwrap();
    let titles: Vec<String> = groups.iter().map(group_title).collect();
    assert_eq!(titles, vec!["Constants", "Data types", "Noadic functions", "Hexadic functions"]);
}

#[test]
fn no_bindings_gives_no_group() {
    assert!(summarize_bindings(&vec![constant("c", false)]).is_none());
}

#[test]
fn sections_keep_order_and_skip_empty_ones() {
    let content = FileContent {
        main: true,
        file: "lib.ua".to_string(),
        items: vec![function("f", true, 1), module("M", vec![constant("a", true)])],
    };
    let summary = summarize_content(&content, "Lib".to_string(), vec![]);
    assert_eq!(summary.title, "Lib");
    let kinds: Vec<SectionType> = summary.sections.iter().map(|s| s.section_type).collect();
    assert_eq!(kinds, vec![SectionType::Modules, SectionType::Bindings]);
    assert_eq!(summary.sections[0].title, "Modules");
    assert_eq!(group_title(&summary.sections[0].content[0]), "M");
    assert_eq!(group_title(&summary.sections[1].content[0]), "Monadic functions");
}

#[test]
fn documentation_section_comes_first() {
    let content = FileContent {
        main: true,
        file: "lib.ua".to_string(),
        items: vec![ItemContent::Words { code: "# !doc x".to_string() }],
    };
    let doc = RenderingItem { links: vec![], content: RenderingContent::RenderedDocumentation("<p>x</p>".to_string()) };
    let summary = summarize_content(&content, "Lib".to_string(), vec![doc]);
    assert_eq!(summary.sections.len(), 1);
    assert_eq!(summary.sections[0].section_type, SectionType::Documentation);
    assert_eq!(summary.sections[0].title, "Documentation");
}

#[test]
fn empty_file_has_no_sections() {
    let content = FileContent { main: true, file: "lib.ua".to_string(), items: vec![] };
    assert!(summarize_content(&content, "Lib".to_string(), vec![]).sections.is_empty());
}

#[test]
fn module_visibility_is_recursive() {
    let public = module("P", vec![module("Q", vec![constant("x", true)])]);
    let private = module("R", vec![module("S", vec![constant("x", false)])]);
    if let (ItemContent::Module(p), ItemContent::Module(r)) = (&public, &private) {
        assert!(p.has_public_items());
        assert!(!r.has_public_items());
    }
}
