use completion::documentation::{
    doc_area, markdowned, side_space, MenuEdges, Placement, Space, MAX_HEIGHT,
};
use completion::edits::Transaction;
use completion::items::{
    CompletionItem, CompletionProvider, Documentation, LspCompletionItem, LspItem, MarkupKind,
    OtherItem,
};

fn lsp(detail: Option<&str>, documentation: Option<Documentation>) -> CompletionItem {
    CompletionItem::Lsp(LspCompletionItem {
        item: LspItem {
            label: "label".to_string(),
            kind: None,
            tags: None,
            detail: detail.map(|detail| detail.to_string()),
            documentation,
            deprecated: None,
            preselect: None,
            filter_text: None,
            insert_text: None,
            insert_text_format: None,
            text_edit: None,
            additional_text_edits: None,
            rest: String::new(),
        },
        provider: 1,
        resolved: true,
        provider_priority: 0,
    })
}

fn path(documentation: Option<&str>) -> CompletionItem {
    CompletionItem::Other(OtherItem {
        transaction: Transaction { changes: Vec::new() },
        label: "path".to_string(),
        kind: "file".to_string(),
        documentation: documentation.map(|text| text.to_string()),
        provider: CompletionProvider::Path,
        provider_priority: 1,
    })
}

#[test]
fn details_become_code_blocks() {
    let detail = "fn f()".to_string();
    let doc = "Does it.".to_string();
    assert_eq!(markdowned("rust", Some(&detail), Some(&doc)), "```rust\nfn f()\n```\nDoes it.");
    assert_eq!(markdowned("rust", Some(&detail), None), "```rust\nfn f()\n```");
    assert_eq!(markdowned("rust", None, Some(&doc)), "Does it.");
    assert_eq!(markdowned("rust", None, None), "");
}

#[test]
fn documentation_of_server_items() {
    let text = || Some(Documentation::Text("doc".to_string()));
    let markup = |kind: MarkupKind| Some(Documentation::Markup { kind, value: "doc".to_string() });
    let both = Some("```c\nd\n```\ndoc".to_string());
    assert_eq!(lsp(Some("d"), text()).markdown("c"), both);
    assert_eq!(lsp(Some("d"), markup(MarkupKind::PlainText)).markdown("c"), both);
    assert_eq!(lsp(Some("d"), markup(MarkupKind::Markdown)).markdown("c"), both);
    assert_eq!(lsp(None, text()).markdown("c"), Some("doc".to_string()));
    assert_eq!(lsp(Some("d"), None).markdown("c"), Some("```c\nd\n```".to_string()));
    assert_eq!(lsp(None, None).markdown("c"), None);
}

#[test]
fn documentation_of_other_items() {
    assert_eq!(path(Some("type: file")).markdown("rust"), Some("type: file".to_string()));
    assert_eq!(path(None).markdown("rust"), None);
}

fn menu(top: u16, bottom: u16, right: u16) -> MenuEdges {
    MenuEdges { top, bottom, right }
}

#[test]
fn more_than_thirty_columns_are_enough_beside_the_menu() {
    let area = Space { width: 80, height: 24 };
    assert_eq!(side_space(area, menu(5, 10, 50)), None);
    assert_eq!(side_space(area, menu(5, 10, 49)), Some(Space { width: 31, height: 19 }));
    assert_eq!(side_space(area, menu(5, 10, 90)), None);
    assert_eq!(side_space(area, menu(30, 40, 10)), Some(Space { width: 70, height: 0 }));
}

#[test]
fn beside_the_menu_the_text_takes_what_it_requires() {
    let area = Space { width: 80, height: 24 };
    let beside = |required: Option<(u16, u16)>| doc_area(area, menu(5, 10, 40), 4, required);
    let placed = |width: u16, height: u16| Some(Placement { x: 40, y: 5, width, height });
    assert_eq!(beside(None), placed(40, 19));
    assert_eq!(beside(Some((20, 3))), placed(20, 3));
    assert_eq!(beside(Some((100, 100))), placed(40, 19));
}

#[test]
fn below_the_menu_one_row_is_left_free() {
    let area = Space { width: 80, height: 24 };
    let placed = doc_area(area, menu(5, 10, 60), 4, Some((1, 1)));
    assert_eq!(placed, Some(Placement { x: 0, y: 11, width: 80, height: 13 }));
}

#[test]
fn above_the_menu_one_row_is_left_free() {
    let area = Space { width: 80, height: 24 };
    let placed = doc_area(area, menu(14, 20, 60), 13, None);
    assert_eq!(placed, Some(Placement { x: 0, y: 0, width: 80, height: 12 }));
    let placed = doc_area(area, menu(12, 18, 60), 18, None);
    assert_eq!(placed, Some(Placement { x: 0, y: 0, width: 80, height: 11 }));
}

#[test]
fn documentation_takes_few_rows() {
    let placed = doc_area(Space { width: 40, height: 100 }, menu(5, 10, 30), 4, None);
    assert_eq!(placed.unwrap().height, MAX_HEIGHT);
    assert_eq!(MAX_HEIGHT, 15);
}

#[test]
fn one_row_is_not_enough() {
    assert_eq!(doc_area(Space { width: 40, height: 12 }, menu(2, 10, 30), 1, None), None);
    let placed = doc_area(Space { width: 40, height: 13 }, menu(2, 10, 30), 1, None);
    assert_eq!(placed, Some(Placement { x: 0, y: 11, width: 40, height: 2 }));
}
