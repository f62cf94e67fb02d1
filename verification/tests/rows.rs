use std::sync::Arc;

use completion::edits::Transaction;
use completion::items::{
    CompletionItem, CompletionItemKind, CompletionItemTag, CompletionProvider, Documentation,
    InsertTextFormat, LspCompletionItem, LspItem, MarkupKind, OtherItem,
};
use completion::rows::{
    completion_item_kind_name, Cell, Color, CompletionData, CompletionItemKindStyle, StringHashMap,
    Style, CROSSED_OUT,
};

fn item(kind: Option<CompletionItemKind>) -> LspItem {
    LspItem {
        label: "label".to_string(),
        kind,
        tags: None,
        detail: None,
        documentation: None,
        deprecated: None,
        preselect: None,
        filter_text: None,
        insert_text: None,
        insert_text_format: None,
        text_edit: None,
        additional_text_edits: None,
        rest: String::new(),
    }
}

fn lsp(item: LspItem) -> CompletionItem {
    CompletionItem::Lsp(LspCompletionItem {
        item,
        provider: 1,
        resolved: false,
        provider_priority: 0,
    })
}

fn path(kind: &str) -> CompletionItem {
    CompletionItem::Other(OtherItem {
        transaction: Transaction { changes: Vec::new() },
        label: "path".to_string(),
        kind: kind.to_string(),
        documentation: None,
        provider: CompletionProvider::Path,
        provider_priority: 1,
    })
}

fn red() -> Style {
    Style { fg: Some(Color::Red), ..Style::default() }
}

fn blue() -> Style {
    Style { fg: Some(Color::Blue), ..Style::default() }
}

fn data(unix: bool) -> CompletionData {
    let mut kinds = StringHashMap::new();
    let wish = |text: Option<&str>, style: Option<Style>| CompletionItemKindStyle {
        text: text.map(|text| text.to_string()),
        style,
    };
    kinds.insert("function".to_string(), wish(Some("fn"), Some(blue())));
    kinds.insert("method".to_string(), wish(Some("me"), None));
    kinds.insert("file".to_string(), wish(None, Some(blue())));
    CompletionData::new(Arc::new(kinds), red(), unix)
}

fn spans(cell: &Cell) -> Vec<(&str, Style)> {
    cell.spans.iter().map(|span| (span.content.as_str(), span.style)).collect()
}

#[test]
fn every_known_kind_has_a_name() {
    let names = [
        (CompletionItemKind::Text, "text"),
        (CompletionItemKind::Method, "method"),
        (CompletionItemKind::Function, "function"),
        (CompletionItemKind::Constructor, "constructor"),
        (CompletionItemKind::Field, "field"),
        (CompletionItemKind::Variable, "variable"),
        (CompletionItemKind::Class, "class"),
        (CompletionItemKind::Interface, "interface"),
        (CompletionItemKind::Module, "module"),
        (CompletionItemKind::Property, "property"),
        (CompletionItemKind::Unit, "unit"),
        (CompletionItemKind::Value, "value"),
        (CompletionItemKind::Enum, "enum"),
        (CompletionItemKind::Keyword, "keyword"),
        (CompletionItemKind::Snippet, "snippet"),
        (CompletionItemKind::Color, "color"),
        (CompletionItemKind::File, "file"),
        (CompletionItemKind::Reference, "reference"),
        (CompletionItemKind::Folder, "folder"),
        (CompletionItemKind::EnumMember, "enum-member"),
        (CompletionItemKind::Constant, "constant"),
        (CompletionItemKind::Struct, "struct"),
        (CompletionItemKind::Event, "event"),
        (CompletionItemKind::Operator, "operator"),
        (CompletionItemKind::TypeParameter, "type-parameter"),
    ];
    for (kind, name) in names {
        assert_eq!(completion_item_kind_name(Some(kind)), Some(name));
    }
    assert_eq!(completion_item_kind_name(Some(CompletionItemKind::Unknown(26))), None);
    assert_eq!(completion_item_kind_name(None), None);
}

#[test]
fn labels_of_deprecated_items_are_crossed_out() {
    let style = |item: LspItem| {
        let row = lsp(item).format(&data(true), None);
        assert_eq!(row.label.spans.len(), 1);
        assert_eq!(row.label.spans[0].content, "label");
        row.label.spans[0].style
    };
    let crossed_out = Style { add_modifier: CROSSED_OUT, ..Style::default() };
    assert_eq!(style(item(None)), Style::default());
    let mut flagged = item(None);
    flagged.deprecated = Some(true);
    assert_eq!(style(flagged), crossed_out);
    let mut tagged = item(None);
    tagged.deprecated = Some(false);
    tagged.tags = Some(vec![CompletionItemTag::Unknown(7), CompletionItemTag::Deprecated]);
    assert_eq!(style(tagged), crossed_out);
    let mut other = item(None);
    other.tags = Some(vec![CompletionItemTag::Unknown(7)]);
    assert_eq!(style(other), Style::default());
}

#[test]
fn kinds_are_drawn_as_the_user_wants() {
    let kind = |kind: CompletionItemKind| lsp(item(Some(kind))).format(&data(true), None).kind;
    assert_eq!(spans(&kind(CompletionItemKind::Function)), [("fn", blue())]);
    assert_eq!(spans(&kind(CompletionItemKind::Method)), [("me", red())]);
    assert_eq!(spans(&kind(CompletionItemKind::File)), [("file", blue())]);
    assert_eq!(spans(&kind(CompletionItemKind::EnumMember)), [("enum-member", red())]);
    assert_eq!(spans(&kind(CompletionItemKind::Unknown(99))), [("", red())]);
    assert_eq!(spans(&lsp(item(None)).format(&data(true), None).kind), [("", red())]);
}

#[test]
fn colors_are_previewed() {
    let mut color = item(Some(CompletionItemKind::Color));
    let rgb = Color::Rgb(255, 0, 16);
    let without = lsp(item(Some(CompletionItemKind::Color)));
    assert_eq!(without.color_text(), None);
    assert_eq!(spans(&without.format(&data(true), None).kind), [("color", Style::default())]);
    color.documentation = Some(Documentation::Text("#ff0010".to_string()));
    let color = lsp(color);
    assert_eq!(color.color_text(), Some(&"#ff0010".to_string()));
    assert_eq!(spans(&color.format(&data(true), None).kind), [("color", Style::default())]);
    assert_eq!(
        spans(&color.format(&data(true), Some(rgb)).kind),
        [("color ", Style::default()), ("■", Style { fg: Some(rgb), ..Style::default() })],
    );
}

#[test]
fn only_items_that_are_colors_name_one() {
    let mut text = item(Some(CompletionItemKind::Text));
    text.documentation = Some(Documentation::Text("#ff0010".to_string()));
    assert_eq!(lsp(text).color_text(), None);
    let mut markup = item(Some(CompletionItemKind::Color));
    markup.documentation =
        Some(Documentation::Markup { kind: MarkupKind::Markdown, value: "#123456".to_string() });
    assert_eq!(lsp(markup).color_text(), Some(&"#123456".to_string()));
    assert_eq!(path("color").color_text(), None);
}

#[test]
fn special_files_are_files_on_unix() {
    for kind in ["block", "socket", "char_device", "fifo"] {
        assert_eq!(spans(&path(kind).format(&data(true), None).kind), [("file", blue())]);
        assert_eq!(spans(&path(kind).format(&data(false), None).kind), [(kind, red())]);
    }
    let row = path("folder").format(&data(true), None);
    assert_eq!(spans(&row.kind), [("folder", red())]);
    assert_eq!(spans(&row.label), [("path", Style::default())]);
}

#[test]
fn numbers_of_the_protocol_have_one_meaning() {
    assert_eq!(CompletionItemKind::from_number(1), CompletionItemKind::Text);
    assert_eq!(CompletionItemKind::from_number(15), CompletionItemKind::Snippet);
    assert_eq!(CompletionItemKind::from_number(16), CompletionItemKind::Color);
    assert_eq!(CompletionItemKind::from_number(25), CompletionItemKind::TypeParameter);
    assert_eq!(CompletionItemKind::from_number(0), CompletionItemKind::Unknown(0));
    assert_eq!(CompletionItemKind::from_number(26), CompletionItemKind::Unknown(26));
    let names: Vec<&str> = (1..=25)
        .filter_map(|n| completion_item_kind_name(Some(CompletionItemKind::from_number(n))))
        .collect();
    assert_eq!(names.len(), 25);
    assert_eq!(names[19], "enum-member");
    assert_eq!(CompletionItemTag::from_number(1), CompletionItemTag::Deprecated);
    assert_eq!(CompletionItemTag::from_number(2), CompletionItemTag::Unknown(2));
    assert_eq!(InsertTextFormat::from_number(1), InsertTextFormat::PlainText);
    assert_eq!(InsertTextFormat::from_number(2), InsertTextFormat::Snippet);
    assert_eq!(InsertTextFormat::from_number(3), InsertTextFormat::Unknown(3));
}
