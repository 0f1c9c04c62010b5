use uiua_docs::docs::extract_doc_comments;
use uiua_docs::headings::{heading_slug, promote_headings, promote_level, strip_document_wrapper, Heading};
use uiua_docs::model::ItemContent;

#[test]
fn doc_chunks_are_cleaned() {
    let items = vec![
        ItemContent::Words { code: "# !doc Title\n# Some text\n#   more  ".to_string() },
        ItemContent::Words { code: "# plain comment".to_string() },
        ItemContent::Words { code: "# !doc ## Section".to_string() },
    ];
    let docs = extract_doc_comments(&items);
    assert_eq!(docs, vec!["Title\nSome text\nmore".to_string(), "## Section".to_string()]);
}

#[test]
fn no_doc_chunks() {
    let items = vec![ItemContent::Words { code: "x ← 1".to_string() }];
    assert!(extract_doc_comments(&items).is_empty());
}

#[test]
fn heading_levels_go_down_by_one() {
    assert_eq!(promote_level(1), 2);
    assert_eq!(promote_level(4), 5);
    assert_eq!(promote_level(5), 6);
    assert_eq!(promote_level(6), 6);
}

#[test]
fn first_level_heading_gets_anchor() {
    let headings = vec![
        Heading { level: 1, text: "Hello World".to_string() },
        Heading { level: 6, text: "Deep".to_string() },
        Heading { level: 2, text: "Sub".to_string() },
    ];
    let (promoted, links) = promote_headings(&headings);
    assert_eq!(promoted[0].level, 2);
    assert_eq!(promoted[0].id.as_deref(), Some("hello-world"));
    assert_eq!(promoted[1].level, 6);
    assert!(promoted[1].id.is_none());
    assert_eq!(promoted[2].level, 3);
    assert!(promoted[2].id.is_none());
    assert_eq!(links.len(), 1);
    assert_eq!(links[0].title, "Hello World");
    assert_eq!(links[0].url, "#hello-world");
}

#[test]
fn slug_lowercases_and_hyphenates() {
    assert_eq!(heading_slug("Getting Started Now"), "getting-started-now");
}

#[test]
fn document_wrapper_is_removed() {
    let html = "<html><head></head><body><h2 id=\"a\">A</h2><p>x</p></body></html>";
    assert_eq!(strip_document_wrapper(html), "<h2 id=\"a\">A</h2><p>x</p>");
}
