//! The documentation of the selected item: its text, and where it is drawn.
use vstd::prelude::*;

use crate::edits::opt_text;
use crate::items::{CompletionItem, CompletionItemView};

verus! {

/// The detail as a block of code in the language of the document, and the
/// documentation below it.
pub open spec fn markdown_of(
    language: Seq<char>,
    detail: Option<Seq<char>>,
    doc: Option<Seq<char>>,
) -> Seq<char> {
    match (detail, doc) {
        (Some(detail), Some(doc)) => "```"@ + language + "\n"@ + detail + "\n```\n"@ + doc,
        (Some(detail), None) => "```"@ + language + "\n"@ + detail + "\n```"@,
        (None, Some(doc)) => doc,
        (None, None) => Seq::empty(),
    }
}

/// Writes the detail as a block of code and the documentation below it.
pub fn markdowned(language: &str, detail: Option<&String>, doc: Option<&String>) -> (r: String)
    ensures
        r@ == markdown_of(
            language@,
            match detail {
                Some(detail) => Some(detail@),
                None => None,
            },
            match doc {
                Some(doc) => Some(doc@),
                None => None,
            },
        ),
{
    let mut r = String::new();
    match detail {
        Some(detail) => {
            r.append("```");
            r.append(language);
            r.append("\n");
            r.append(detail.as_str());
            match doc {
                Some(doc) => {
                    r.append("\n```\n");
                    r.append(doc.as_str());
                    assert(r@ =~= "```"@ + language@ + "\n"@ + detail@ + "\n```\n"@ + doc@);
                },
                None => {
                    r.append("\n```");
                    assert(r@ =~= "```"@ + language@ + "\n"@ + detail@ + "\n```"@);
                },
            }
        },
        None => {
            match doc {
                Some(doc) => {
                    r.append(doc.as_str());
                    assert(r@ =~= doc@);
                },
                None => {},
            }
        },
    }
    r
}

impl CompletionItemView {
    /// What is shown of the selected item beside the menu, or `None` where there
    /// is nothing to show.
    pub open spec fn markdown(self, language: Seq<char>) -> Option<Seq<char>> {
        match self {
            CompletionItemView::Lsp(item) => match item.item.documentation {
                Some(documentation) => Some(
                    markdown_of(language, item.item.detail, Some(documentation.text())),
                ),
                None if item.item.detail is Some => Some(
                    markdown_of(language, item.item.detail, None),
                ),
                None => None,
            },
            CompletionItemView::Other(item) => match item.documentation {
                Some(doc) => Some(markdown_of(language, None, Some(doc))),
                None => None,
            },
        }
    }
}

impl CompletionItem {
    /// What is shown of the selected item beside the menu.
    pub fn markdown(&self, language: &str) -> (r: Option<String>)
        ensures
            opt_text(r) == self@.markdown(language@),
    {
        match self {
            CompletionItem::Lsp(item) => {
                let detail = item.item.detail.as_ref();
                match &item.item.documentation {
                    Some(documentation) => Some(
                        markdowned(language, detail, Some(documentation.text())),
                    ),
                    None => {
                        if detail.is_some() {
                            Some(markdowned(language, detail, None))
                        } else {
                            None
                        }
                    },
                }
            },
            CompletionItem::Other(item) => match &item.documentation {
                Some(doc) => Some(markdowned(language, None, Some(doc))),
                None => None,
            },
        }
    }
}

/// The size of the space that can be drawn on.
#[derive(Clone, Copy, Debug, PartialEq, Eq, Structural)]
pub struct Space {
    pub width: u16,
    pub height: u16,
}

/// Where the menu is drawn: its first row, and the row below it and the column
/// to the right of it.
#[derive(Clone, Copy, Debug, PartialEq, Eq, Structural)]
pub struct MenuEdges {
    pub top: u16,
    pub bottom: u16,
    pub right: u16,
}

/// Where the documentation is drawn.
#[derive(Clone, Copy, Debug, PartialEq, Eq, Structural)]
pub struct Placement {
    pub x: u16,
    pub y: u16,
    pub width: u16,
    pub height: u16,
}

/// Documentation is drawn to the right of the menu only where more columns than
/// these are left.
pub const MIN_SIDE_WIDTH: u16 = 30;

/// The most rows that documentation above or below the menu takes.
pub const MAX_HEIGHT: u16 = 15;

/// `a - b`, or zero where `b` is the larger.
pub open spec fn left_over(a: u16, b: int) -> u16 {
    if a >= b {
        (a - b) as u16
    } else {
        0
    }
}

/// The smaller of two numbers.
pub open spec fn smaller(a: u16, b: u16) -> u16 {
    if a <= b {
        a
    } else {
        b
    }
}

/// The larger of two numbers.
pub open spec fn larger(a: u16, b: u16) -> u16 {
    if a >= b {
        a
    } else {
        b
    }
}

/// The space to the right of the menu, where there is enough of it.
pub open spec fn space_beside(area: Space, menu: MenuEdges) -> Option<Space> {
    let width = left_over(area.width, menu.right as int);
    if width > MIN_SIDE_WIDTH {
        Some(Space { width, height: left_over(area.height, menu.top as int) })
    } else {
        None
    }
}

/// The rows that are free above the menu and the cursor.
pub open spec fn rows_above(menu: MenuEdges, cursor_row: u16) -> u16 {
    left_over(smaller(cursor_row, menu.top), 1)
}

/// The rows that are free below the menu and the cursor.
pub open spec fn rows_below(area: Space, menu: MenuEdges, cursor_row: u16) -> u16 {
    left_over(area.height, larger(cursor_row, menu.bottom) + 1)
}

/// Where the documentation is drawn: to the right of the menu, no larger than
/// the text requires; else below or above the menu, where there are more free
/// rows, and nowhere unless there are at least two.
pub open spec fn placement(
    area: Space,
    menu: MenuEdges,
    cursor_row: u16,
    required: Option<(u16, u16)>,
) -> Option<Placement> {
    match space_beside(area, menu) {
        Some(space) => Some(
            Placement {
                x: menu.right,
                y: menu.top,
                width: match required {
                    Some((width, _)) => smaller(width, space.width),
                    None => space.width,
                },
                height: match required {
                    Some((_, height)) => smaller(height, space.height),
                    None => space.height,
                },
            },
        ),
        None => {
            let above = rows_above(menu, cursor_row);
            let below = rows_below(area, menu, cursor_row);
            let (y, height) = if below >= above {
                (left_over(area.height, below as int), below)
            } else {
                (0, above)
            };
            if height <= 1 {
                None
            } else {
                Some(Placement { x: 0, y, width: area.width, height: smaller(height, MAX_HEIGHT) })
            }
        },
    }
}

/// The space that is offered to the documentation to the right of the menu.
pub fn side_space(area: Space, menu: MenuEdges) -> (r: Option<Space>)
    ensures
        r == space_beside(area, menu),
{
    let width: u16 = area.width.saturating_sub(menu.right);
    if width > MIN_SIDE_WIDTH {
        Some(Space { width, height: area.height.saturating_sub(menu.top) })
    } else {
        None
    }
}

/// Decides where the documentation is drawn. `required` is the size that the
/// text requires of the space that `side_space` offers it; it does not matter
/// where none is offered.
pub fn doc_area(
    area: Space,
    menu: MenuEdges,
    cursor_row: u16,
    required: Option<(u16, u16)>,
) -> (r: Option<Placement>)
    requires
        space_beside(area, menu) is None ==> larger(cursor_row, menu.bottom) < u16::MAX,
    ensures
        r == placement(area, menu, cursor_row, required),
{
    if let Some(space) = side_space(area, menu) {
        let mut width: u16 = space.width;
        let mut height: u16 = space.height;
        if let Some((required_width, required_height)) = required {
            if required_width < width {
                width = required_width;
            }
            if required_height < height {
                height = required_height;
            }
        }
        return Some(Placement { x: menu.right, y: menu.top, width, height });
    }
    let upper: u16 = if cursor_row <= menu.top {
        cursor_row
    } else {
        menu.top
    };
    let lower: u16 = if cursor_row >= menu.bottom {
        cursor_row
    } else {
        menu.bottom
    };
    let above: u16 = upper.saturating_sub(1);
    let below: u16 = area.height.saturating_sub(lower + 1);
    let y: u16 = if below >= above {
        area.height.saturating_sub(below)
    } else {
        0
    };
    let height: u16 = if below >= above {
        below
    } else {
        above
    };
    if height <= 1 {
        return None;
    }
    let height: u16 = if height <= MAX_HEIGHT {
        height
    } else {
        MAX_HEIGHT
    };
    Some(Placement { x: 0, y, width: area.width, height })
}

/// Documentation covers neither the menu nor, where it is drawn above or below
/// the menu, the row of the cursor.
pub proof fn documentation_covers_nothing(
    area: Space,
    menu: MenuEdges,
    cursor_row: u16,
    required: Option<(u16, u16)>,
    p: Placement,
)
    requires
        placement(area, menu, cursor_row, required) == Some(p),
    ensures
        space_beside(area, menu) is Some ==> p.x >= menu.right,
        space_beside(area, menu) is None ==> {
            ||| p.y + p.height <= menu.top && p.y + p.height <= cursor_row
            ||| p.y >= menu.bottom && p.y > cursor_row
        },
{
}

/// Documentation stays inside the space that can be drawn on, if the menu does
/// not begin below it.
pub proof fn documentation_fits(
    area: Space,
    menu: MenuEdges,
    cursor_row: u16,
    required: Option<(u16, u16)>,
    p: Placement,
)
    requires
        placement(area, menu, cursor_row, required) == Some(p),
        menu.top <= area.height,
    ensures
        p.x + p.width <= area.width,
        p.y + p.height <= area.height,
{
}

} // verus!
