//! How an item is drawn in the menu: its label and its kind.
use std::sync::Arc;

pub use vstd::hash_map::StringHashMap;
use vstd::prelude::*;

use crate::edits::opt_text;
use crate::items::{
    CompletionItem, CompletionItemKind, CompletionItemView,
};
use crate::text::same_text;

verus! {

/// A colour of the terminal.
#[derive(Clone, Copy, Debug, PartialEq, Eq, Structural)]
pub enum Color {
    Reset,
    Black,
    Red,
    Green,
    Yellow,
    Blue,
    Magenta,
    Cyan,
    Gray,
    LightRed,
    LightGreen,
    LightYellow,
    LightBlue,
    LightMagenta,
    LightCyan,
    LightGray,
    White,
    Rgb(u8, u8, u8),
    Indexed(u8),
}

/// How a text is underlined.
#[derive(Clone, Copy, Debug, PartialEq, Eq, Structural)]
pub enum UnderlineStyle {
    Reset,
    Line,
    Curl,
    Dotted,
    Dashed,
    DoubleLine,
}

/// The modifier of a text that is struck through, as a bit.
pub const CROSSED_OUT: u16 = 0x100;

/// The style of a text. What is `None` is left as it is; the modifiers are sets
/// of bits that are switched on and off.
#[derive(Clone, Copy, Debug, PartialEq, Eq, Structural)]
pub struct Style {
    pub fg: Option<Color>,
    pub bg: Option<Color>,
    pub underline_color: Option<Color>,
    pub underline_style: Option<UnderlineStyle>,
    pub add_modifier: u16,
    pub sub_modifier: u16,
}

impl Style {
    /// The style that changes nothing.
    pub open spec fn plain_spec() -> Style {
        Style {
            fg: None,
            bg: None,
            underline_color: None,
            underline_style: None,
            add_modifier: 0,
            sub_modifier: 0,
        }
    }

    /// The style that changes nothing.
    #[verifier::when_used_as_spec(plain_spec)]
    pub fn plain() -> (r: Style)
        ensures
            r == Style::plain_spec(),
    {
        Style {
            fg: None,
            bg: None,
            underline_color: None,
            underline_style: None,
            add_modifier: 0,
            sub_modifier: 0,
        }
    }
}

impl Default for Style {
    fn default() -> (r: Style)
        ensures
            r == Style::plain(),
    {
        Style::plain()
    }
}

/// The style of a struck through text.
pub open spec fn crossed_out() -> Style {
    Style { add_modifier: CROSSED_OUT, ..Style::plain() }
}

/// The style that sets the colour of the text.
pub open spec fn colored(color: Color) -> Style {
    Style { fg: Some(color), ..Style::plain() }
}

/// A text with its style.
#[derive(Debug)]
pub struct Span {
    pub content: String,
    pub style: Style,
}

/// What a `Span` holds.
pub struct SpanView {
    pub content: Seq<char>,
    pub style: Style,
}

impl View for Span {
    type V = SpanView;

    open spec fn view(&self) -> SpanView {
        SpanView { content: self.content@, style: self.style }
    }
}

/// A cell of a row.
#[derive(Debug)]
pub struct Cell {
    pub spans: Vec<Span>,
}

impl View for Cell {
    type V = Seq<SpanView>;

    open spec fn view(&self) -> Seq<SpanView> {
        self.spans@.map_values(|s: Span| s@)
    }
}

impl Cell {
    /// A cell that holds one text.
    fn of(content: String, style: Style) -> (r: Cell)
        ensures
            r@ == one_span(content@, style),
    {
        let mut spans: Vec<Span> = Vec::new();
        spans.push(Span { content, style });
        let r = Cell { spans };
        assert(r@ =~= one_span(content@, style));
        r
    }
}

/// One text with its style.
pub open spec fn one_span(content: Seq<char>, style: Style) -> Seq<SpanView> {
    seq![SpanView { content, style }]
}

/// A row of the menu.
#[derive(Debug)]
pub struct Row {
    pub label: Cell,
    pub kind: Cell,
}

/// What a `Row` holds.
pub struct RowView {
    pub label: Seq<SpanView>,
    pub kind: Seq<SpanView>,
}

impl View for Row {
    type V = RowView;

    open spec fn view(&self) -> RowView {
        RowView { label: self.label@, kind: self.kind@ }
    }
}

/// What the user wants to see of a kind: another text, another style, or both.
#[derive(Debug)]
pub struct CompletionItemKindStyle {
    pub text: Option<String>,
    pub style: Option<Style>,
}

/// The settings by which rows are drawn.
pub struct CompletionData {
    completion_item_kinds: Arc<StringHashMap<CompletionItemKindStyle>>,
    default_style: Style,
    /// Whether devices, sockets and pipes are files like any other.
    unix: bool,
}

/// What a `CompletionData` holds.
pub struct CompletionDataView {
    pub kinds: Map<Seq<char>, CompletionItemKindStyle>,
    pub default_style: Style,
    pub unix: bool,
}

impl View for CompletionData {
    type V = CompletionDataView;

    closed spec fn view(&self) -> CompletionDataView {
        CompletionDataView {
            kinds: self.completion_item_kinds@,
            default_style: self.default_style,
            unix: self.unix,
        }
    }
}

impl CompletionDataView {
    /// The cell for a kind of this name: the user's text for it, else the name
    /// itself; in the user's style for it, else in the style for all kinds.
    pub open spec fn kind_cell(self, name: Seq<char>) -> Seq<SpanView> {
        if self.kinds.contains_key(name) {
            let wanted = self.kinds[name];
            one_span(
                match opt_text(wanted.text) {
                    Some(text) => text,
                    None => name,
                },
                match wanted.style {
                    Some(style) => style,
                    None => self.default_style,
                },
            )
        } else {
            one_span(name, self.default_style)
        }
    }
}

/// The name of a kind; there is none for a kind that the protocol does not know.
pub open spec fn kind_name(kind: Option<CompletionItemKind>) -> Option<Seq<char>> {
    match kind {
        Some(CompletionItemKind::Text) => Some("text"@),
        Some(CompletionItemKind::Method) => Some("method"@),
        Some(CompletionItemKind::Function) => Some("function"@),
        Some(CompletionItemKind::Constructor) => Some("constructor"@),
        Some(CompletionItemKind::Field) => Some("field"@),
        Some(CompletionItemKind::Variable) => Some("variable"@),
        Some(CompletionItemKind::Class) => Some("class"@),
        Some(CompletionItemKind::Interface) => Some("interface"@),
        Some(CompletionItemKind::Module) => Some("module"@),
        Some(CompletionItemKind::Property) => Some("property"@),
        Some(CompletionItemKind::Unit) => Some("unit"@),
        Some(CompletionItemKind::Value) => Some("value"@),
        Some(CompletionItemKind::Enum) => Some("enum"@),
        Some(CompletionItemKind::Keyword) => Some("keyword"@),
        Some(CompletionItemKind::Snippet) => Some("snippet"@),
        Some(CompletionItemKind::Color) => Some("color"@),
        Some(CompletionItemKind::File) => Some("file"@),
        Some(CompletionItemKind::Reference) => Some("reference"@),
        Some(CompletionItemKind::Folder) => Some("folder"@),
        Some(CompletionItemKind::EnumMember) => Some("enum-member"@),
        Some(CompletionItemKind::Constant) => Some("constant"@),
        Some(CompletionItemKind::Struct) => Some("struct"@),
        Some(CompletionItemKind::Event) => Some("event"@),
        Some(CompletionItemKind::Operator) => Some("operator"@),
        Some(CompletionItemKind::TypeParameter) => Some("type-parameter"@),
        Some(CompletionItemKind::Unknown(_)) | None => None,
    }
}

/// The name of a kind, by which the user's settings find it.
pub fn completion_item_kind_name(kind: Option<CompletionItemKind>) -> (r: Option<&'static str>)
    ensures
        match r {
            Some(name) => kind_name(kind) == Some(name@),
            None => kind_name(kind) is None,
        },
{
    match kind {
        Some(CompletionItemKind::Text) => Some("text"),
        Some(CompletionItemKind::Method) => Some("method"),
        Some(CompletionItemKind::Function) => Some("function"),
        Some(CompletionItemKind::Constructor) => Some("constructor"),
        Some(CompletionItemKind::Field) => Some("field"),
        Some(CompletionItemKind::Variable) => Some("variable"),
        Some(CompletionItemKind::Class) => Some("class"),
        Some(CompletionItemKind::Interface) => Some("interface"),
        Some(CompletionItemKind::Module) => Some("module"),
        Some(CompletionItemKind::Property) => Some("property"),
        Some(CompletionItemKind::Unit) => Some("unit"),
        Some(CompletionItemKind::Value) => Some("value"),
        Some(CompletionItemKind::Enum) => Some("enum"),
        Some(CompletionItemKind::Keyword) => Some("keyword"),
        Some(CompletionItemKind::Snippet) => Some("snippet"),
        Some(CompletionItemKind::Color) => Some("color"),
        Some(CompletionItemKind::File) => Some("file"),
        Some(CompletionItemKind::Reference) => Some("reference"),
        Some(CompletionItemKind::Folder) => Some("folder"),
        Some(CompletionItemKind::EnumMember) => Some("enum-member"),
        Some(CompletionItemKind::Constant) => Some("constant"),
        Some(CompletionItemKind::Struct) => Some("struct"),
        Some(CompletionItemKind::Event) => Some("event"),
        Some(CompletionItemKind::Operator) => Some("operator"),
        Some(CompletionItemKind::TypeParameter) => Some("type-parameter"),
        Some(CompletionItemKind::Unknown(_)) | None => None,
    }
}

/// The kind under which a path is shown: on Unix, devices, sockets and pipes
/// are files.
pub open spec fn shown_kind(unix: bool, kind: Seq<char>) -> Seq<char> {
    if unix && (kind == "block"@ || kind == "socket"@ || kind == "char_device"@ || kind
        == "fifo"@) {
        "file"@
    } else {
        kind
    }
}

/// The cell for the kind of an item that names a colour: the word alone, or with
/// a square in that colour.
pub open spec fn color_cell(color: Option<Color>) -> Seq<SpanView> {
    match color {
        Some(color) => seq![
            SpanView { content: "color "@, style: Style::plain() },
            SpanView { content: "■"@, style: colored(color) },
        ],
        None => one_span("color"@, Style::plain()),
    }
}

impl CompletionItemView {
    /// The text that should name a colour: the documentation of an item whose
    /// kind is a colour.
    pub open spec fn color_text(self) -> Option<Seq<char>> {
        match self {
            CompletionItemView::Lsp(item) if item.item.kind == Some(CompletionItemKind::Color) => {
                match item.item.documentation {
                    Some(documentation) => Some(documentation.text()),
                    None => None,
                }
            },
            _ => None,
        }
    }

    /// The row in which the item is shown, where `color` is the colour that its
    /// documentation names.
    pub open spec fn row(self, data: CompletionDataView, color: Option<Color>) -> RowView {
        RowView {
            label: match self {
                CompletionItemView::Lsp(item) => one_span(
                    item.item.label,
                    if item.item.is_deprecated() {
                        crossed_out()
                    } else {
                        Style::plain()
                    },
                ),
                CompletionItemView::Other(item) => one_span(item.label, Style::plain()),
            },
            kind: match self {
                CompletionItemView::Lsp(item) if item.item.kind == Some(
                    CompletionItemKind::Color,
                ) => color_cell(
                    if item.item.documentation is Some {
                        color
                    } else {
                        None
                    },
                ),
                CompletionItemView::Lsp(item) => data.kind_cell(
                    match kind_name(item.item.kind) {
                        Some(name) => name,
                        None => ""@,
                    },
                ),
                CompletionItemView::Other(item) => data.kind_cell(
                    shown_kind(data.unix, item.kind),
                ),
            },
        }
    }
}

impl CompletionData {
    /// Settings made of the user's wishes for the kinds, the style for kinds
    /// without one, and whether the system is a Unix.
    pub fn new(
        completion_item_kinds: Arc<StringHashMap<CompletionItemKindStyle>>,
        default_style: Style,
        unix: bool,
    ) -> (r: CompletionData)
        ensures
            r@ == (CompletionDataView { kinds: completion_item_kinds@, default_style, unix }),
    {
        CompletionData { completion_item_kinds, default_style, unix }
    }

    /// The cell for a kind of this name.
    fn kind_cell(&self, name: &str) -> (r: Cell)
        ensures
            r@ == self@.kind_cell(name@),
    {
        match self.completion_item_kinds.get(name) {
            Some(wanted) => {
                let style = match wanted.style {
                    Some(style) => style,
                    None => self.default_style,
                };
                match &wanted.text {
                    Some(text) => Cell::of(text.clone(), style),
                    None => Cell::of(name.to_owned(), style),
                }
            },
            None => Cell::of(name.to_owned(), self.default_style),
        }
    }
}

/// Draws the kind of an item that names a colour.
fn format_color(color: Option<Color>) -> (r: Cell)
    ensures
        r@ == color_cell(color),
{
    match color {
        Some(color) => {
            let mut spans: Vec<Span> = Vec::new();
            spans.push(Span { content: "color ".to_owned(), style: Style::plain() });
            let mut style = Style::plain();
            style.fg = Some(color);
            spans.push(Span { content: "■".to_owned(), style });
            let r = Cell { spans };
            assert(r@ =~= color_cell(Some(color)));
            r
        },
        None => Cell::of("color".to_owned(), Style::plain()),
    }
}

impl CompletionItem {
    /// The text to read a colour from, for an item whose kind is a colour.
    pub fn color_text(&self) -> (r: Option<&String>)
        ensures
            match r {
                Some(text) => self@.color_text() == Some(text@),
                None => self@.color_text() is None,
            },
    {
        match self {
            CompletionItem::Lsp(item) => {
                if item.item.kind == Some(CompletionItemKind::Color) {
                    match &item.item.documentation {
                        Some(documentation) => Some(documentation.text()),
                        None => None,
                    }
                } else {
                    None
                }
            },
            CompletionItem::Other(_) => None,
        }
    }

    /// The row in which the item is shown. `color` is the colour that was read
    /// from its `color_text`.
    pub fn format(&self, data: &CompletionData, color: Option<Color>) -> (r: Row)
        ensures
            r@ == self@.row(data@, color),
    {
        match self {
            CompletionItem::Lsp(item) => {
                let item = &item.item;
                let mut style = Style::plain();
                if item.is_deprecated() {
                    style.add_modifier = CROSSED_OUT;
                }
                let label = Cell::of(item.label.clone(), style);
                let kind = if item.kind == Some(CompletionItemKind::Color) {
                    format_color(
                        if item.documentation.is_some() {
                            color
                        } else {
                            None
                        },
                    )
                } else {
                    match completion_item_kind_name(item.kind) {
                        Some(name) => data.kind_cell(name),
                        None => data.kind_cell(""),
                    }
                };
                Row { label, kind }
            },
            CompletionItem::Other(item) => {
                let label = Cell::of(item.label.clone(), Style::plain());
                let name = item.kind.as_str();
                let kind = if data.unix && (same_text(name, "block") || same_text(name, "socket")
                    || same_text(name, "char_device") || same_text(name, "fifo")) {
                    data.kind_cell("file")
                } else {
                    data.kind_cell(name)
                };
                Row { label, kind }
            },
        }
    }
}

} // verus!
