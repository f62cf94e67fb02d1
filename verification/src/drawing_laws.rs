//! What holds of what is drawn: the rows of the menu, and the documentation beside
//! it.
use vstd::prelude::*;

use crate::documentation::{markdown_of, placement, space_beside, MenuEdges, Placement, Space};
use crate::items::{
    CompletionItem, CompletionItemKind, CompletionItemTag, LspCompletionItem, OtherItem,
};
use crate::rows::{kind_name, Cell, Color, CompletionDataView, Row, Span, SpanView, Style};

verus! {

/// The views of rows hold what is drawn, in its order.
pub proof fn row_views_hold_what_is_drawn(row: Row, cell: Cell, span: Span)
    ensures
        row@.label == row.label@,
        row@.kind == row.kind@,
        cell@.len() == cell.spans@.len(),
        forall|i: int| 0 <= i < cell.spans@.len() ==> #[trigger] cell@[i] == cell.spans@[i]@,
        span@.content == span.content@,
        span@.style == span.style,
{
}

/// The style that leaves everything as it is.
pub proof fn plain_style_changes_nothing()
    ensures
        Style::plain().fg is None,
        Style::plain().bg is None,
        Style::plain().underline_color is None,
        Style::plain().underline_style is None,
        Style::plain().add_modifier == 0,
        Style::plain().sub_modifier == 0,
{
}

/// The label of an item of a server is shown as it is, struck through exactly
/// where the item is deprecated, and otherwise in no style of its own.
pub proof fn labels_are_struck_through_if_deprecated(
    item: LspCompletionItem,
    data: CompletionDataView,
    color: Option<Color>,
)
    ensures
        ({
            let label = CompletionItem::Lsp(item)@.row(data, color).label;
            let deprecated = item.item.deprecated == Some(true) || (item.item.tags is Some
                && exists|i: int|
                0 <= i < item.item.tags->0@.len() && #[trigger] item.item.tags->0@[i]
                    == CompletionItemTag::Deprecated);
            &&& label.len() == 1
            &&& label[0].content == item.item.label@
            &&& label[0].style.add_modifier == if deprecated {
                0x100u16
            } else {
                0u16
            }
            &&& label[0].style.sub_modifier == 0
            &&& label[0].style.fg is None && label[0].style.bg is None
            &&& label[0].style.underline_color is None && label[0].style.underline_style is None
        }),
{
}

/// The label of an item of the editor is shown as it is, in no style of its own.
pub proof fn labels_of_other_items_are_plain(
    item: OtherItem,
    data: CompletionDataView,
    color: Option<Color>,
)
    ensures
        ({
            let label = CompletionItem::Other(item)@.row(data, color).label;
            &&& label.len() == 1
            &&& label[0].content == item.label@
            &&& label[0].style == (Style {
                fg: None,
                bg: None,
                underline_color: None,
                underline_style: None,
                add_modifier: 0,
                sub_modifier: 0,
            })
        }),
{
}

/// The names of the kinds, in the order of their numbers in the protocol.
pub open spec fn names_of_kinds() -> Seq<Seq<char>> {
    seq![
        "text"@,
        "method"@,
        "function"@,
        "constructor"@,
        "field"@,
        "variable"@,
        "class"@,
        "interface"@,
        "module"@,
        "property"@,
        "unit"@,
        "value"@,
        "enum"@,
        "keyword"@,
        "snippet"@,
        "color"@,
        "file"@,
        "reference"@,
        "folder"@,
        "enum-member"@,
        "constant"@,
        "struct"@,
        "event"@,
        "operator"@,
        "type-parameter"@,
    ]
}

/// Every kind that the protocol knows has its name, by its number, and nothing
/// else has one.
pub proof fn kinds_are_named_by_their_numbers(kind: CompletionItemKind)
    ensures
        kind is Unknown ==> kind_name(Some(kind)) is None,
        !(kind is Unknown) ==> 1 <= kind.number() <= 25 && kind_name(Some(kind)) == Some(
            names_of_kinds()[kind.number() - 1],
        ),
        kind_name(None) is None,
{
}

/// Whether the cell shows the name, unless the user wants another text for it, in
/// the style that the user wants for it, else in the style for all kinds.
pub open spec fn shows_kind(
    cell: Seq<SpanView>,
    data: CompletionDataView,
    name: Seq<char>,
) -> bool {
    &&& cell.len() == 1
    &&& !data.kinds.contains_key(name) ==> cell[0].content == name && cell[0].style
        == data.default_style
    &&& data.kinds.contains_key(name) ==> {
        &&& data.kinds[name].text is None ==> cell[0].content == name
        &&& data.kinds[name].text matches Some(text) ==> cell[0].content == text@
        &&& data.kinds[name].style is None ==> cell[0].style == data.default_style
        &&& data.kinds[name].style matches Some(style) ==> cell[0].style == style
    }
}

/// The kind of an item of a server is shown by its name, and as the empty name
/// where it has none. What the user wants for a kind is what is shown. Only a
/// colour is shown otherwise.
pub proof fn kinds_are_shown_as_the_user_wants(
    item: LspCompletionItem,
    data: CompletionDataView,
    color: Option<Color>,
)
    requires
        item.item.kind != Some(CompletionItemKind::Color),
    ensures
        shows_kind(
            CompletionItem::Lsp(item)@.row(data, color).kind,
            data,
            match item.item.kind {
                Some(CompletionItemKind::Unknown(_)) | None => ""@,
                Some(kind) => names_of_kinds()[kind.number() - 1],
            },
        ),
{
    if item.item.kind is Some {
        kinds_are_named_by_their_numbers(item.item.kind->0);
    }
}

/// The kind of an item of the editor is shown as the item names it, except that on
/// Unix the special files are shown as files.
pub proof fn special_files_are_files_on_unix(
    item: OtherItem,
    data: CompletionDataView,
    color: Option<Color>,
)
    ensures
        data.unix && (item.kind@ == "block"@ || item.kind@ == "socket"@ || item.kind@
            == "char_device"@ || item.kind@ == "fifo"@) ==> shows_kind(
            CompletionItem::Other(item)@.row(data, color).kind,
            data,
            "file"@,
        ),
        !data.unix || !(item.kind@ == "block"@ || item.kind@ == "socket"@ || item.kind@
            == "char_device"@ || item.kind@ == "fifo"@) ==> shows_kind(
            CompletionItem::Other(item)@.row(data, color).kind,
            data,
            item.kind@,
        ),
{
}

/// A colour is shown by the word, and by a square in that colour where the
/// documentation names one. The user's settings for kinds do not matter.
pub proof fn colors_are_previewed(
    item: LspCompletionItem,
    data: CompletionDataView,
    color: Option<Color>,
)
    requires
        item.item.kind == Some(CompletionItemKind::Color),
    ensures
        ({
            let kind = CompletionItem::Lsp(item)@.row(data, color).kind;
            let plain = Style {
                fg: None,
                bg: None,
                underline_color: None,
                underline_style: None,
                add_modifier: 0,
                sub_modifier: 0,
            };
            if item.item.documentation is Some && color is Some {
                &&& kind.len() == 2
                &&& kind[0].content == "color "@ && kind[0].style == plain
                &&& kind[1].content == "■"@
                &&& kind[1].style == (Style { fg: color, ..plain })
            } else {
                &&& kind.len() == 1
                &&& kind[0].content == "color"@ && kind[0].style == plain
            }
        }),
{
}

/// A colour is read from the documentation of an item whose kind is a colour, and
/// from nothing else.
pub proof fn colors_are_read_from_the_documentation(item: LspCompletionItem, other: OtherItem)
    ensures
        item.item.kind == Some(CompletionItemKind::Color) && item.item.documentation is Some
            ==> CompletionItem::Lsp(item)@.color_text() == Some(
            item.item.documentation->0@.text(),
        ),
        item.item.kind != Some(CompletionItemKind::Color) || item.item.documentation is None
            ==> CompletionItem::Lsp(item)@.color_text() is None,
        CompletionItem::Other(other)@.color_text() is None,
{
}

/// The detail comes first, as a block of code in the language of the document, and
/// the documentation follows on a line of its own; each alone stands for itself.
pub proof fn detail_is_code_above_the_documentation(
    language: Seq<char>,
    detail: Seq<char>,
    doc: Seq<char>,
)
    ensures
        markdown_of(language, Some(detail), Some(doc)) == "```"@ + language + "\n"@ + detail
            + "\n```\n"@ + doc,
        markdown_of(language, Some(detail), None) == "```"@ + language + "\n"@ + detail
            + "\n```"@,
        markdown_of(language, None, Some(doc)) == doc,
        markdown_of(language, None, None).len() == 0,
{
}

/// There is something to read about an item of a server exactly if it has a
/// documentation or a detail, and then both are shown.
pub proof fn documentation_and_detail_are_shown(item: LspCompletionItem, language: Seq<char>)
    ensures
        ({
            let shown = CompletionItem::Lsp(item)@.markdown(language);
            let code = "```"@ + language + "\n"@;
            match (item.item.detail, item.item.documentation) {
                (Some(detail), Some(doc)) => shown == Some(
                    code + detail@ + "\n```\n"@ + doc@.text(),
                ),
                (Some(detail), None) => shown == Some(code + detail@ + "\n```"@),
                (None, Some(doc)) => shown == Some(doc@.text()),
                (None, None) => shown is None,
            }
        }),
{
}

/// There is something to read about an item of the editor exactly if it has a
/// documentation, which is shown as it is.
pub proof fn documentation_of_other_items_is_shown(item: OtherItem, language: Seq<char>)
    ensures
        item.documentation is None ==> CompletionItem::Other(item)@.markdown(language) is None,
        item.documentation matches Some(doc) ==> CompletionItem::Other(item)@.markdown(language)
            == Some(doc@),
{
}

/// Space beside the menu is offered exactly where more than thirty columns are
/// left; it reaches from the menu to the edges of the screen.
pub proof fn space_beside_reaches_to_the_edges(area: Space, menu: MenuEdges)
    ensures
        space_beside(area, menu) is Some <==> area.width - menu.right > 30,
        space_beside(area, menu) matches Some(space) ==> {
            &&& menu.right + space.width == area.width
            &&& menu.top <= area.height ==> menu.top + space.height == area.height
            &&& menu.top > area.height ==> space.height == 0
        },
{
}

/// Beside the menu, the documentation begins where the menu ends and at its first
/// row. It is as wide and as high as its text requires, each on its own, as far as
/// the screen allows; a text without a size of its own takes all there is.
pub proof fn documentation_beside_takes_what_it_requires(
    area: Space,
    menu: MenuEdges,
    cursor_row: u16,
    required: Option<(u16, u16)>,
)
    requires
        area.width - menu.right > 30,
    ensures
        placement(area, menu, cursor_row, required) is Some,
        ({
            let p = placement(area, menu, cursor_row, required)->0;
            let columns = area.width - menu.right;
            let rows: int = if area.height >= menu.top {
                area.height - menu.top
            } else {
                0
            };
            &&& p.x == menu.right
            &&& p.y == menu.top
            &&& p.width <= columns
            &&& p.height <= rows
            &&& required is None ==> p.width == columns && p.height == rows
            &&& required matches Some((width, height)) ==> {
                &&& p.width <= width
                &&& p.height <= height
                &&& p.width < width ==> p.width == columns
                &&& p.height < height ==> p.height == rows
            }
        }),
{
}

/// Above or below the menu, the documentation takes the whole width, on the side
/// of the menu and the cursor where more rows are free, below where as many are. It
/// takes at most fifteen rows, and is not shown where fewer than two are free. What
/// its text requires does not matter.
pub proof fn documentation_goes_where_more_rows_are_free(
    area: Space,
    menu: MenuEdges,
    cursor_row: u16,
    required: Option<(u16, u16)>,
    above: int,
    below: int,
)
    requires
        area.width - menu.right <= 30,
        above >= 0,
        below >= 0,
        // A row between the text and the menu or the cursor stays free.
        above + 1 == menu.top && menu.top <= cursor_row || above + 1 == cursor_row && cursor_row
            <= menu.top || above == 0 && (menu.top == 0 || cursor_row == 0),
        below == area.height - 1 - menu.bottom && cursor_row <= menu.bottom || below == area.height
            - 1 - cursor_row && menu.bottom <= cursor_row || below == 0 && (menu.bottom
            >= area.height || cursor_row >= area.height),
    ensures
        ({
            let p = placement(area, menu, cursor_row, required);
            let rows = if below >= above {
                below
            } else {
                above
            };
            &&& p is None <==> rows < 2
            &&& p matches Some(p) ==> {
                &&& p.x == 0
                &&& p.width == area.width
                &&& p.height <= rows && p.height <= 15
                &&& p.height == rows || p.height == 15
                &&& p.y == if below >= above {
                    area.height - below
                } else {
                    0
                }
            }
        }),
{
}

/// Two texts of different sizes are drawn at the same place, and the one that
/// requires more in one direction is never drawn smaller in it.
pub proof fn larger_documentation_is_not_drawn_smaller(
    area: Space,
    menu: MenuEdges,
    cursor_row: u16,
    small: (u16, u16),
    large: (u16, u16),
    p: Placement,
    q: Placement,
)
    requires
        placement(area, menu, cursor_row, Some(small)) == Some(p),
        placement(area, menu, cursor_row, Some(large)) == Some(q),
    ensures
        p.x == q.x && p.y == q.y,
        small.0 <= large.0 ==> p.width <= q.width,
        small.1 <= large.1 ==> p.height <= q.height,
{
}

} // verus!
