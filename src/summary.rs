//! The documentation summary: the items of the main file grouped into titled
//! sections, in a fixed order, leaving out every section that would be empty.
use crate::model::{
    has_public_content, items_view, lemma_module_items, shows_publicly,
    BindingType, FileContent, ItemContent, ItemView, ModuleDefinition, ModuleView,
};
use crate::docs::doc_comments;
use crate::text::copy_opt;
use vstd::prelude::*;

verus! {

#[derive(Debug, Clone)]
pub struct Title {
    pub title: String,
    pub link_id: String,
}

#[derive(Debug)]
pub struct ContentItems {
    pub title: Title,
    pub items: Vec<ItemContent>,
}

#[derive(Debug)]
pub enum RenderingContent {
    RenderedDocumentation(String),
    Items(ContentItems),
}

#[derive(Debug, Clone)]
pub struct ItemLink {
    pub title: String,
    pub url: String,
}

#[derive(Debug)]
pub struct RenderingItem {
    pub links: Vec<ItemLink>,
    pub content: RenderingContent,
}

#[derive(Debug, Clone, Copy, PartialEq, Eq, Structural)]
pub enum SectionType {
    Documentation,
    Modules,
    Bindings,
}

#[derive(Debug)]
pub struct DocumentationSection {
    pub title: String,
    pub section_type: SectionType,
    pub content: Vec<RenderingItem>,
}

#[derive(Debug)]
pub struct DocumentationSummary {
    pub title: String,
    pub sections: Vec<DocumentationSection>,
}

/// A group of bindings shown together under one heading.
#[derive(Debug, Clone, Copy, PartialEq, Eq, Structural)]
pub enum Category {
    Constants,
    DataTypes,
    CodeMacros,
    IndexMacros,
    /// Functions with the given number of required inputs.
    Functions(usize),
}

// ---------------------------------------------------------------------------
// Views
// ---------------------------------------------------------------------------

pub ghost struct LinkView {
    pub title: Seq<char>,
    pub url: Seq<char>,
}

pub ghost enum ContentView {
    Documentation(Seq<char>),
    Items { title: Seq<char>, link_id: Seq<char>, items: Seq<ItemView> },
}

pub ghost struct RenderingItemView {
    pub links: Seq<LinkView>,
    pub content: ContentView,
}

pub ghost struct SectionView {
    pub title: Seq<char>,
    pub section_type: SectionType,
    pub content: Seq<RenderingItemView>,
}

pub ghost struct SummaryView {
    pub title: Seq<char>,
    pub sections: Seq<SectionView>,
}

impl View for ItemLink {
    type V = LinkView;

    open spec fn view(&self) -> LinkView {
        LinkView { title: self.title@, url: self.url@ }
    }
}

impl View for RenderingItem {
    type V = RenderingItemView;

    open spec fn view(&self) -> RenderingItemView {
        RenderingItemView {
            links: self.links@.map_values(|l: ItemLink| l@),
            content: match self.content {
                RenderingContent::RenderedDocumentation(html) => ContentView::Documentation(html@),
                RenderingContent::Items(c) => ContentView::Items {
                    title: c.title.title@,
                    link_id: c.title.link_id@,
                    items: items_view(c.items@),
                },
            },
        }
    }
}

pub open spec fn rendering_view(v: Seq<RenderingItem>) -> Seq<RenderingItemView> {
    v.map_values(|r: RenderingItem| r@)
}

impl View for DocumentationSection {
    type V = SectionView;

    open spec fn view(&self) -> SectionView {
        SectionView {
            title: self.title@,
            section_type: self.section_type,
            content: rendering_view(self.content@),
        }
    }
}

impl View for DocumentationSummary {
    type V = SummaryView;

    open spec fn view(&self) -> SummaryView {
        SummaryView {
            title: self.title@,
            sections: self.sections@.map_values(|s: DocumentationSection| s@),
        }
    }
}

// ---------------------------------------------------------------------------
// Selection
// ---------------------------------------------------------------------------

pub open spec fn in_category(item: ItemView, c: Category) -> bool {
    match c {
        Category::DataTypes => item is Data || item is Variant,
        _ => match item {
            ItemView::Binding(b) => b.public && match (c, b.kind) {
                (Category::Constants, crate::model::BindingTypeView::Const { .. }) => true,
                (Category::CodeMacros, crate::model::BindingTypeView::CodeMacro { .. }) => true,
                (Category::IndexMacros, crate::model::BindingTypeView::IndexMacro { .. }) => true,
                (Category::Functions(n), crate::model::BindingTypeView::Function(f)) => f.required_inputs.len()
                    == n,
                _ => false,
            },
            _ => false,
        },
    }
}

/// The items of `c`, in order.
pub open spec fn keep(items: Seq<ItemView>, c: Category) -> Seq<ItemView>
    decreases items.len(),
{
    if items.len() == 0 {
        Seq::empty()
    } else {
        let rest = keep(items.drop_last(), c);
        if in_category(items.last(), c) {
            rest.push(items.last())
        } else {
            rest
        }
    }
}

pub open spec fn category_title(c: Category) -> Seq<char> {
    match c {
        Category::Constants => "Constants"@,
        Category::DataTypes => "Data types"@,
        Category::CodeMacros => "Code macros"@,
        Category::IndexMacros => "Index macros"@,
        Category::Functions(n) => if n == 0 {
            "Noadic functions"@
        } else if n == 1 {
            "Monadic functions"@
        } else if n == 2 {
            "Dyadic functions"@
        } else if n == 3 {
            "Triadic functions"@
        } else if n == 4 {
            "Tetradic functions"@
        } else if n == 5 {
            "Pentadic functions"@
        } else {
            "Hexadic functions"@
        },
    }
}

pub open spec fn category_link(c: Category) -> Seq<char> {
    match c {
        Category::Constants => "__constants"@,
        Category::DataTypes => "__data"@,
        Category::CodeMacros => "__code_macros"@,
        Category::IndexMacros => "__index_macros"@,
        Category::Functions(n) => if n == 0 {
            "__noadic_functions"@
        } else if n == 1 {
            "__monadic_functions"@
        } else if n == 2 {
            "__dyadic_functions"@
        } else if n == 3 {
            "__triadic_functions"@
        } else if n == 4 {
            "__tetradic_functions"@
        } else if n == 5 {
            "__pentadic_functions"@
        } else {
            "__hexadic_functions"@
        },
    }
}

/// The group shown for `c`, if `c` has any items.
pub open spec fn category_group(items: Seq<ItemView>, c: Category) -> Option<RenderingItemView> {
    let selected = keep(items, c);
    if selected.len() == 0 {
        None
    } else {
        Some(
            RenderingItemView {
                links: Seq::empty(),
                content: ContentView::Items {
                    title: category_title(c),
                    link_id: category_link(c),
                    items: selected,
                },
            },
        )
    }
}

/// The order of the binding groups: constants, data types, code macros,
/// index macros, then functions by arity from 0 to 6.
pub open spec fn binding_category(k: nat) -> Category {
    if k == 0 {
        Category::Constants
    } else if k == 1 {
        Category::DataTypes
    } else if k == 2 {
        Category::CodeMacros
    } else if k == 3 {
        Category::IndexMacros
    } else {
        Category::Functions((k - 4) as usize)
    }
}

pub open spec fn opt_seq<T>(o: Option<T>) -> Seq<T> {
    match o {
        Some(x) => seq![x],
        None => Seq::empty(),
    }
}

/// The non-empty groups among the first `n` categories, in order.
pub open spec fn groups_upto(items: Seq<ItemView>, n: nat) -> Seq<RenderingItemView>
    decreases n,
{
    if n == 0 {
        Seq::empty()
    } else {
        groups_upto(items, (n - 1) as nat) + opt_seq(
            category_group(items, binding_category((n - 1) as nat)),
        )
    }
}

pub open spec fn binding_groups(items: Seq<ItemView>) -> Seq<RenderingItemView> {
    groups_upto(items, 11)
}

fn item_in_category(item: &ItemContent, c: Category) -> (r: bool)
    ensures
        r == in_category(item@, c),
{
    match c {
        Category::DataTypes => match item {
            ItemContent::Data(_) => true,
            ItemContent::Variant(_) => true,
            _ => false,
        },
        _ => match item {
            ItemContent::Binding(b) => {
                if !b.public {
                    false
                } else {
                    match (c, &b.kind) {
                        (Category::Constants, BindingType::Const(_)) => true,
                        (Category::CodeMacros, BindingType::CodeMacro(_)) => true,
                        (Category::IndexMacros, BindingType::IndexMacro(_)) => true,
                        (Category::Functions(n), BindingType::Function(f)) => f.signature().inputs
                            == n,
                        _ => false,
                    }
                }
            },
            _ => false,
        },
    }
}

proof fn lemma_prefix_view(items: Seq<ItemContent>, i: int)
    requires
        0 <= i < items.len(),
    ensures
        items_view(items.subrange(0, i + 1)).drop_last() == items_view(items.subrange(0, i)),
        items_view(items.subrange(0, i + 1)).last() == items[i]@,
        items_view(items.subrange(0, i + 1)).len() == i + 1,
{
    assert(items_view(items.subrange(0, i + 1)).drop_last() =~= items_view(items.subrange(0, i)));
}

/// Copies the items of `c`, in order.
fn select(items: &[ItemContent], c: Category) -> (r: Vec<ItemContent>)
    ensures
        items_view(r@) == keep(items_view(items@), c),
{
    let mut r: Vec<ItemContent> = Vec::new();
    let mut i: usize = 0;
    while i < items.len()
        invariant
            0 <= i <= items@.len(),
            items_view(r@) == keep(items_view(items@.subrange(0, i as int)), c),
        decreases items@.len() - i,
    {
        proof {
            lemma_prefix_view(items@, i as int);
        }
        if item_in_category(&items[i], c) {
            let ghost before = r@;
            r.push(items[i].duplicate());
            assert(items_view(r@) =~= items_view(before).push(items@[i as int]@));
        }
        i += 1;
    }
    assert(items@.subrange(0, items@.len() as int) =~= items@);
    r
}

fn nonempty(v: Vec<ItemContent>) -> (r: Option<Vec<ItemContent>>)
    ensures
        v@.len() == 0 ==> r is None,
        v@.len() != 0 ==> r == Some(v),
{
    if v.len() == 0 {
        None
    } else {
        Some(v)
    }
}

pub open spec fn opt_items(r: Option<Vec<ItemContent>>) -> Option<Seq<ItemView>> {
    match r {
        Some(v) => Some(items_view(v@)),
        None => None,
    }
}

pub open spec fn nonempty_seq(s: Seq<ItemView>) -> Option<Seq<ItemView>> {
    if s.len() == 0 {
        None
    } else {
        Some(s)
    }
}

/// The public functions with `num_inputs` required inputs, if there are any.
pub fn summarize_functions(items: &[ItemContent], num_inputs: usize) -> (r: Option<
    Vec<ItemContent>,
>)
    ensures
        opt_items(r) == nonempty_seq(keep(items_view(items@), Category::Functions(num_inputs))),
{
    nonempty(select(items, Category::Functions(num_inputs)))
}

/// The public index macros, if there are any.
pub fn summarize_index_macros(items: &[ItemContent]) -> (r: Option<Vec<ItemContent>>)
    ensures
        opt_items(r) == nonempty_seq(keep(items_view(items@), Category::IndexMacros)),
{
    nonempty(select(items, Category::IndexMacros))
}

/// The public code macros, if there are any.
pub fn summarize_code_macros(items: &[ItemContent]) -> (r: Option<Vec<ItemContent>>)
    ensures
        opt_items(r) == nonempty_seq(keep(items_view(items@), Category::CodeMacros)),
{
    nonempty(select(items, Category::CodeMacros))
}

/// The data and variant definitions, public or not, if there are any.
pub fn summarize_data(items: &[ItemContent]) -> (r: Option<Vec<ItemContent>>)
    ensures
        opt_items(r) == nonempty_seq(keep(items_view(items@), Category::DataTypes)),
{
    nonempty(select(items, Category::DataTypes))
}

fn category_names(c: Category) -> (r: (&'static str, &'static str))
    requires
        c matches Category::Functions(n) ==> n <= 6,
    ensures
        r.0@ == category_title(c),
        r.1@ == category_link(c),
{
    match c {
        Category::Constants => ("Constants", "__constants"),
        Category::DataTypes => ("Data types", "__data"),
        Category::CodeMacros => ("Code macros", "__code_macros"),
        Category::IndexMacros => ("Index macros", "__index_macros"),
        Category::Functions(n) => {
            if n == 0 {
                ("Noadic functions", "__noadic_functions")
            } else if n == 1 {
                ("Monadic functions", "__monadic_functions")
            } else if n == 2 {
                ("Dyadic functions", "__dyadic_functions")
            } else if n == 3 {
                ("Triadic functions", "__triadic_functions")
            } else if n == 4 {
                ("Tetradic functions", "__tetradic_functions")
            } else if n == 5 {
                ("Pentadic functions", "__pentadic_functions")
            } else {
                ("Hexadic functions", "__hexadic_functions")
            }
        },
    }
}

/// A titled group of items.
fn titled_group(title: &str, link_id: &str, items: Vec<ItemContent>) -> (r: RenderingItem)
    ensures
        r@ == (RenderingItemView {
            links: Seq::empty(),
            content: ContentView::Items { title: title@, link_id: link_id@, items: items_view(items@) },
        }),
{
    let r = RenderingItem {
        links: Vec::new(),
        content: RenderingContent::Items(
            ContentItems {
                title: Title { title: String::from_str(title), link_id: String::from_str(link_id) },
                items,
            },
        ),
    };
    assert(r@.links =~= Seq::<LinkView>::empty());
    r
}

/// The group of public constants, if there are any.
pub fn summarize_constants(items: &[ItemContent]) -> (r: Option<RenderingItem>)
    ensures
        opt_group(r) == category_group(items_view(items@), Category::Constants),
{
    let constants = select(items, Category::Constants);
    if constants.len() == 0 {
        None
    } else {
        let (title, link) = category_names(Category::Constants);
        Some(titled_group(title, link, constants))
    }
}

pub open spec fn opt_group(r: Option<RenderingItem>) -> Option<RenderingItemView> {
    match r {
        Some(g) => Some(g@),
        None => None,
    }
}

/// The group of category `c`, through the summary function of that category.
fn summarize_category(items: &[ItemContent], c: Category) -> (r: Option<RenderingItem>)
    requires
        c matches Category::Functions(n) ==> n <= 6,
    ensures
        opt_group(r) == category_group(items_view(items@), c),
{
    let found = match c {
        Category::Constants => {
            return summarize_constants(items);
        },
        Category::DataTypes => summarize_data(items),
        Category::CodeMacros => summarize_code_macros(items),
        Category::IndexMacros => summarize_index_macros(items),
        Category::Functions(n) => summarize_functions(items, n),
    };
    match found {
        Some(v) => {
            let (title, link) = category_names(c);
            Some(titled_group(title, link, v))
        },
        None => None,
    }
}

fn binding_category_exec(k: usize) -> (r: Category)
    requires
        k < 11,
    ensures
        r == binding_category(k as nat),
        r matches Category::Functions(n) ==> n <= 6,
{
    if k == 0 {
        Category::Constants
    } else if k == 1 {
        Category::DataTypes
    } else if k == 2 {
        Category::CodeMacros
    } else if k == 3 {
        Category::IndexMacros
    } else {
        Category::Functions(k - 4)
    }
}

/// The binding groups in their fixed order, leaving out the empty ones;
/// `None` when every group is empty.
pub fn summarize_bindings(items: &[ItemContent]) -> (r: Option<Vec<RenderingItem>>)
    ensures
        binding_groups(items_view(items@)).len() == 0 ==> r is None,
        binding_groups(items_view(items@)).len() != 0 ==> r is Some && rendering_view(r->0@)
            == binding_groups(items_view(items@)),
{
    let ghost iv = items_view(items@);
    let mut results: Vec<RenderingItem> = Vec::new();
    let mut k: usize = 0;
    while k < 11
        invariant
            0 <= k <= 11,
            iv == items_view(items@),
            rendering_view(results@) == groups_upto(iv, k as nat),
        decreases 11 - k,
    {
        let c = binding_category_exec(k);
        let ghost before = results@;
        match summarize_category(items, c) {
            Some(g) => {
                results.push(g);
                assert(rendering_view(results@) =~= rendering_view(before) + opt_seq(
                    category_group(iv, c),
                ));
            },
            None => {
                assert(rendering_view(results@) =~= rendering_view(before) + opt_seq(
                    category_group(iv, c),
                ));
            },
        }
        k += 1;
    }
    if results.len() == 0 {
        None
    } else {
        Some(results)
    }
}

// ---------------------------------------------------------------------------
// Modules
// ---------------------------------------------------------------------------

/// The items of a module that are displayed: those that show publicly.
pub open spec fn public_items(items: Seq<ItemView>) -> Seq<ItemView>
    decreases items.len(),
{
    if items.len() == 0 {
        Seq::empty()
    } else {
        let rest = public_items(items.drop_last());
        if shows_publicly(items.last()) {
            rest.push(items.last())
        } else {
            rest
        }
    }
}

/// The modules with public content, each reduced to its displayed items.
pub open spec fn displayed_modules(items: Seq<ItemView>) -> Seq<ItemView>
    decreases items.len(),
{
    if items.len() == 0 {
        Seq::empty()
    } else {
        let rest = displayed_modules(items.drop_last());
        match items.last() {
            ItemView::Module(m) => if has_public_content(m) {
                rest.push(
                    ItemView::Module(
                        ModuleView { name: m.name, comment: m.comment, items: public_items(m.items) },
                    ),
                )
            } else {
                rest
            },
            _ => rest,
        }
    }
}

fn displayed_module(m: &ModuleDefinition) -> (r: ModuleDefinition)
    ensures
        r@ == (ModuleView { name: m@.name, comment: m@.comment, items: public_items(m@.items) }),
{
    proof {
        lemma_module_items(*m);
    }
    let mut items: Vec<ItemContent> = Vec::new();
    let mut i: usize = 0;
    while i < m.items.len()
        invariant
            0 <= i <= m.items@.len(),
            m@.items.len() == m.items@.len(),
            forall|k: int| 0 <= k < m.items@.len() ==> m@.items[k] == #[trigger] m.items@[k]@,
            items_view(items@) == public_items(m@.items.subrange(0, i as int)),
        decreases m.items@.len() - i,
    {
        assert(m@.items.subrange(0, i as int + 1).drop_last() =~= m@.items.subrange(0, i as int));
        let ghost before = items@;
        if crate::model::item_shows_publicly(&m.items[i]) {
            items.push(m.items[i].duplicate());
            assert(items_view(items@) =~= items_view(before).push(m.items@[i as int]@));
        }
        i += 1;
    }
    assert(m@.items.subrange(0, m@.items.len() as int) =~= m@.items);
    let r = ModuleDefinition { name: m.name.clone(), comment: copy_opt(&m.comment), items };
    proof {
        lemma_module_items(r);
    }
    assert(r@.items =~= items_view(items@));
    r
}

/// The modules that hold public content, each with its private items left
/// out, if there are any.
pub fn summarize_modules(items: &[ItemContent]) -> (r: Option<Vec<ItemContent>>)
    ensures
        opt_items(r) == nonempty_seq(displayed_modules(items_view(items@))),
{
    let mut r: Vec<ItemContent> = Vec::new();
    let mut i: usize = 0;
    while i < items.len()
        invariant
            0 <= i <= items@.len(),
            items_view(r@) == displayed_modules(items_view(items@.subrange(0, i as int))),
        decreases items@.len() - i,
    {
        proof {
            lemma_prefix_view(items@, i as int);
        }
        match &items[i] {
            ItemContent::Module(m) => {
                if m.has_public_items() {
                    let ghost before = r@;
                    r.push(ItemContent::Module(displayed_module(m)));
                    assert(items_view(r@) =~= items_view(before).push(
                        ItemView::Module(
                            ModuleView {
                                name: m@.name,
                                comment: m@.comment,
                                items: public_items(m@.items),
                            },
                        ),
                    ));
                }
            },
            _ => {},
        }
        i += 1;
    }
    assert(items@.subrange(0, items@.len() as int) =~= items@);
    nonempty(r)
}

// ---------------------------------------------------------------------------
// Sections
// ---------------------------------------------------------------------------

pub open spec fn item_name(v: ItemView) -> Seq<char> {
    match v {
        ItemView::Module(m) => m.name,
        _ => Seq::empty(),
    }
}

/// A module shown under its own heading, linked by its name.
pub open spec fn module_entry(v: ItemView) -> RenderingItemView {
    RenderingItemView {
        links: Seq::empty(),
        content: ContentView::Items { title: item_name(v), link_id: item_name(v), items: seq![v] },
    }
}

pub open spec fn section(title: Seq<char>, t: SectionType, content: Seq<RenderingItemView>) -> Seq<
    SectionView,
> {
    if content.len() == 0 {
        Seq::empty()
    } else {
        seq![SectionView { title: title, section_type: t, content: content }]
    }
}

/// The sections of a summary: documentation, modules, bindings, each only
/// when it has content.
pub open spec fn summary_sections(docs: Seq<RenderingItemView>, items: Seq<ItemView>) -> Seq<
    SectionView,
> {
    section("Documentation"@, SectionType::Documentation, docs) + section(
        "Modules"@,
        SectionType::Modules,
        displayed_modules(items).map_values(|v: ItemView| module_entry(v)),
    ) + section("Bindings"@, SectionType::Bindings, binding_groups(items))
}

fn push_section(
    sections: &mut Vec<DocumentationSection>,
    title: &str,
    t: SectionType,
    content: Vec<RenderingItem>,
)
    ensures
        final(sections)@.map_values(|s: DocumentationSection| s@) == old(sections)@.map_values(
            |s: DocumentationSection| s@,
        ) + section(title@, t, rendering_view(content@)),
{
    let ghost before = sections@;
    if content.len() != 0 {
        sections.push(DocumentationSection { title: String::from_str(title), section_type: t, content });
    }
    assert(sections@.map_values(|s: DocumentationSection| s@) =~= before.map_values(
        |s: DocumentationSection| s@,
    ) + section(title@, t, rendering_view(content@)));
}

/// Groups the items of a file into the sections of its summary.
/// `documentation` holds the rendered documentation comments of the file.
pub fn summarize_content(
    content: &FileContent,
    title: String,
    documentation: Vec<RenderingItem>,
) -> (r: DocumentationSummary)
    requires
        documentation@.len() == doc_comments(items_view(content.items@)).len(),
    ensures
        r@ == (SummaryView {
            title: title@,
            sections: summary_sections(rendering_view(documentation@), items_view(content.items@)),
        }),
        (r@.sections.len() > 0 && r@.sections[0].section_type == SectionType::Documentation)
            <==> doc_comments(items_view(content.items@)).len() > 0,
        forall|i: int, j: int|
            0 <= i < j < r@.sections.len() ==> crate::laws::section_rank(
                #[trigger] r@.sections[i].section_type,
            ) < crate::laws::section_rank(#[trigger] r@.sections[j].section_type),
        forall|i: int| 0 <= i < r@.sections.len() ==> (#[trigger] r@.sections[i]).content.len() > 0,
        (exists|i: int|
            0 <= i < r@.sections.len() && (#[trigger] r@.sections[i]).section_type
                == SectionType::Bindings) <==> binding_groups(items_view(content.items@)).len() > 0,
{
    proof {
        crate::laws::law_sections_ordered(rendering_view(documentation@), items_view(content.items@));
    }
    let mut sections: Vec<DocumentationSection> = Vec::new();
    let ghost docs = rendering_view(documentation@);
    let ghost iv = items_view(content.items@);
    push_section(&mut sections, "Documentation", SectionType::Documentation, documentation);

    let mut modules: Vec<RenderingItem> = Vec::new();
    let ghost shown = displayed_modules(iv);
    match summarize_modules(content.items.as_slice()) {
        Some(found) => {
            let mut i: usize = 0;
            while i < found.len()
                invariant
                    0 <= i <= found@.len(),
                    items_view(found@) == shown,
                    rendering_view(modules@) == shown.subrange(0, i as int).map_values(
                        |v: ItemView| module_entry(v),
                    ),
                decreases found@.len() - i,
            {
                let name = match &found[i] {
                    ItemContent::Module(m) => m.name.clone(),
                    _ => String::new(),
                };
                let mut entry: Vec<ItemContent> = Vec::new();
                entry.push(found[i].duplicate());
                let link = name.clone();
                let ghost before = modules@;
                modules.push(
                    RenderingItem {
                        links: Vec::new(),
                        content: RenderingContent::Items(
                            ContentItems { title: Title { title: name, link_id: link }, items: entry },
                        ),
                    },
                );
                assert(items_view(entry@) =~= seq![found@[i as int]@]);
                assert(modules@.last()@.links =~= Seq::<LinkView>::empty());
                assert(shown[i as int] == found@[i as int]@);
                assert(name@ == item_name(found@[i as int]@));
                assert(modules@.last()@ == module_entry(shown[i as int]));
                assert(rendering_view(modules@) =~= rendering_view(before).push(modules@.last()@));
                assert(shown.subrange(0, i as int + 1).map_values(|v: ItemView| module_entry(v))
                    =~= shown.subrange(0, i as int).map_values(|v: ItemView| module_entry(v)).push(
                    module_entry(shown[i as int]),
                ));
                assert(rendering_view(modules@) =~= shown.subrange(0, i as int + 1).map_values(
                    |v: ItemView| module_entry(v),
                ));
                i += 1;
            }
            assert(shown.subrange(0, shown.len() as int) =~= shown);
        },
        None => {
            assert(shown.map_values(|v: ItemView| module_entry(v)) =~= Seq::<RenderingItemView>::empty());
        },
    }
    push_section(&mut sections, "Modules", SectionType::Modules, modules);

    let bindings = match summarize_bindings(content.items.as_slice()) {
        Some(b) => b,
        None => Vec::new(),
    };
    push_section(&mut sections, "Bindings", SectionType::Bindings, bindings);
    let r = DocumentationSummary { title, sections };
    assert(r@.sections =~= summary_sections(docs, iv));
    proof {
        let a = section("Documentation"@, SectionType::Documentation, docs);
        let b = section(
            "Modules"@,
            SectionType::Modules,
            displayed_modules(iv).map_values(|v: ItemView| module_entry(v)),
        );
        let c = section("Bindings"@, SectionType::Bindings, binding_groups(iv));
        let all = summary_sections(docs, iv);
        assert(all == a + b + c);
        if a.len() == 0 && all.len() > 0 {
            if b.len() > 0 {
                assert(all[0] == b[0]);
            } else {
                assert(all[0] == c[0]);
            }
        } else if a.len() > 0 {
            assert(all[0] == a[0]);
        }
        if c.len() > 0 {
            let w = a.len() + b.len();
            assert(all[w as int] == c[0]);
        }
        assert forall|i: int|
            0 <= i < all.len() && (#[trigger] all[i]).section_type == SectionType::Bindings implies c.len()
            > 0 by {
            if i < a.len() {
                assert(all[i] == a[i]);
            } else if i < a.len() + b.len() {
                assert(all[i] == b[i - a.len()]);
            }
        }
    }
    r
}

/// Why a documentation site could not be written.
#[derive(Debug)]
pub enum GenerationError {
    Io(String),
}

} // verus!
