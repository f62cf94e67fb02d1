//! What holds of items and edits: what they hold, what they are matched by, and
//! when two of them are the same.
use vstd::prelude::*;
use vstd::std_specs::cmp::PartialEqSpec;

use crate::completion::{option_score, uncased};
use crate::edits::{
    change_view, changes_view, edits_view, touches, Change, CompletionTextEdit,
    CompletionTextEditView, TextEdit, Transaction,
};
use crate::fuzzy::fuzzy_score;
use crate::items::{
    CompletionItem, CompletionItemKind, CompletionItemTag, CompletionItemView, CompletionProvider,
    Documentation, DocumentationView, InsertTextFormat, LspCompletionItem, LspItem, OtherItem,
};

verus! {

/// The view of an item of a server holds each of its fields under its own name.
pub proof fn lsp_item_view_holds_its_fields(item: LspItem)
    ensures
        item@.label == item.label@,
        item@.kind == item.kind,
        item.tags is None ==> item@.tags is None,
        item.tags matches Some(tags) ==> item@.tags == Some(tags@),
        item.detail is None ==> item@.detail is None,
        item.detail matches Some(text) ==> item@.detail == Some(text@),
        item.documentation is None ==> item@.documentation is None,
        item.documentation matches Some(text) ==> item@.documentation == Some(text@),
        item@.deprecated == item.deprecated,
        item@.preselect == item.preselect,
        item.filter_text is None ==> item@.filter_text is None,
        item.filter_text matches Some(text) ==> item@.filter_text == Some(text@),
        item.insert_text is None ==> item@.insert_text is None,
        item.insert_text matches Some(text) ==> item@.insert_text == Some(text@),
        item@.insert_text_format == item.insert_text_format,
        item.text_edit is None ==> item@.text_edit is None,
        item.text_edit matches Some(edit) ==> item@.text_edit == Some(edit@),
        item.additional_text_edits is None ==> item@.additional_text_edits is None,
        item.additional_text_edits matches Some(edits) ==> item@.additional_text_edits == Some(
            edits_view(edits@),
        ),
        item@.rest == item.rest@,
{
}

/// The views of items with what the editor knows of them hold each of their
/// fields under its own name.
pub proof fn item_views_hold_their_fields(item: LspCompletionItem, other: OtherItem)
    ensures
        CompletionItem::Lsp(item)@ == CompletionItemView::Lsp(item@),
        item@.item == item.item@,
        item@.provider == item.provider,
        item@.resolved == item.resolved,
        item@.provider_priority == item.provider_priority,
        CompletionItem::Other(other)@ == CompletionItemView::Other(other@),
        other@.transaction == other.transaction@,
        other@.label == other.label@,
        other@.kind == other.kind@,
        other.documentation is None ==> other@.documentation is None,
        other.documentation matches Some(text) ==> other@.documentation == Some(text@),
        other@.provider == other.provider,
        other@.provider_priority == other.provider_priority,
{
}

/// The views of documentations and edits hold what these hold, and lists of edits
/// and changes keep their order.
pub proof fn edit_views_hold_their_fields(
    documentation: Documentation,
    edit: TextEdit,
    chosen: CompletionTextEdit,
    edits: Seq<TextEdit>,
    change: Change,
    transaction: Transaction,
)
    ensures
        documentation matches Documentation::Text(text) ==> documentation@
            == DocumentationView::Text(text@),
        documentation matches Documentation::Markup { kind, value } ==> documentation@ == (
        DocumentationView::Markup { kind, value: value@ }),
        edit@.range == edit.range,
        edit@.new_text == edit.new_text@,
        chosen matches CompletionTextEdit::Edit(edit) ==> chosen@ == CompletionTextEditView::Edit(
            edit@,
        ),
        chosen matches CompletionTextEdit::InsertAndReplace { new_text, insert, replace }
            ==> chosen@ == (CompletionTextEditView::InsertAndReplace {
            new_text: new_text@,
            insert,
            replace,
        }),
        edits_view(edits).len() == edits.len(),
        forall|i: int| 0 <= i < edits.len() ==> #[trigger] edits_view(edits)[i] == edits[i]@,
        change_view(change).0 == change.0,
        change_view(change).1 == change.1,
        change.2 is None ==> change_view(change).2 is None,
        change.2 matches Some(text) ==> change_view(change).2 == Some(text@),
        transaction@ == changes_view(transaction.changes@),
        transaction@.len() == transaction.changes@.len(),
        forall|i: int|
            0 <= i < transaction.changes@.len() ==> #[trigger] transaction@[i] == change_view(
                transaction.changes@[i],
            ),
{
}

/// An item of a server is matched by its filter text where it has one and by its
/// label where it has none; any other item is matched by its label.
pub proof fn matched_by_filter_text_or_label(item: LspCompletionItem, other: OtherItem)
    ensures
        item.item.filter_text matches Some(text) ==> CompletionItem::Lsp(item)@.match_text()
            == text@,
        item.item.filter_text is None ==> CompletionItem::Lsp(item)@.match_text()
            == item.item.label@,
        CompletionItem::Other(other)@.match_text() == other.label@,
{
}

/// Two items of servers that agree in their filter text, or have none and agree
/// in their label, get the same score for every filter, whatever else they hold.
pub proof fn only_filter_text_and_label_are_scored(
    filter: Seq<char>,
    one: LspCompletionItem,
    another: LspCompletionItem,
)
    requires
        match (one.item.filter_text, another.item.filter_text) {
            (Some(a), Some(b)) => a@ == b@,
            (None, None) => one.item.label@ == another.item.label@,
            _ => false,
        },
    ensures
        option_score(filter, CompletionItem::Lsp(one)) == option_score(
            filter,
            CompletionItem::Lsp(another),
        ),
{
}

/// An option gets the score of the matcher, with the case ignored, accents
/// normalised and prefixes preferred. `needle` is the filter with its ASCII
/// capitals in lower case, where the filter is ASCII, and else the filter itself.
pub proof fn scores_come_from_the_matcher(
    filter: Seq<char>,
    needle: Seq<char>,
    item: LspCompletionItem,
    other: OtherItem,
)
    requires
        needle.len() == filter.len(),
        (forall|i: int| 0 <= i < filter.len() ==> #[trigger] filter[i] <= '\x7f') ==> forall|i: int|
            0 <= i < filter.len() ==> #[trigger] needle[i] == if 'A' <= filter[i] <= 'Z' {
                (filter[i] as int + 32) as char
            } else {
                filter[i]
            },
        (exists|i: int| 0 <= i < filter.len() && #[trigger] filter[i] > '\x7f') ==> needle
            == filter,
    ensures
        option_score(filter, CompletionItem::Lsp(item)) == fuzzy_score(
            needle,
            true,
            true,
            true,
            match item.item.filter_text {
                Some(text) => text@,
                None => item.item.label@,
            },
        ),
        option_score(filter, CompletionItem::Other(other)) == fuzzy_score(
            needle,
            true,
            true,
            true,
            other.label@,
        ),
{
    assert(uncased(filter) =~= needle);
}

/// Only a server can want an item at the top, and does so by its flag.
pub proof fn preselected_by_the_flag(item: LspCompletionItem, other: OtherItem)
    ensures
        CompletionItem::Lsp(item)@.is_preselected() <==> item.item.preselect == Some(true),
        !CompletionItem::Other(other)@.is_preselected(),
{
}

/// An item comes from the server it names, or from the source it names, and has
/// the priority that was noted on it.
pub proof fn source_and_priority_are_those_of_the_item(item: LspCompletionItem, other: OtherItem)
    ensures
        CompletionItem::Lsp(item)@.source() == CompletionProvider::Lsp(item.provider),
        CompletionItem::Lsp(item)@.priority() == item.provider_priority,
        CompletionItem::Other(other)@.source() == other.provider,
        CompletionItem::Other(other)@.priority() == other.provider_priority,
{
}

/// An item is deprecated if its flag says so or if one of its tags does, and not
/// otherwise.
pub proof fn deprecated_by_flag_or_tag(item: LspItem)
    ensures
        item@.is_deprecated() <==> item.deprecated == Some(true) || (item.tags is Some && exists|
            i: int,
        |
            0 <= i < item.tags->0@.len() && #[trigger] item.tags->0@[i]
                == CompletionItemTag::Deprecated),
{
}

/// The text of an item is a snippet if its kind says so or if its format does, and
/// not otherwise.
pub proof fn snippet_by_kind_or_format(item: LspItem)
    ensures
        item@.is_snippet() <==> item.kind == Some(CompletionItemKind::Snippet)
            || item.insert_text_format == Some(InsertTextFormat::Snippet),
{
}

/// The edits that go with an item are all those that it brings besides its own.
pub proof fn extra_edits_are_all_additional_edits(item: LspItem)
    ensures
        item.additional_text_edits is None ==> item@.extra_edits().len() == 0,
        item.additional_text_edits matches Some(edits) ==> {
            &&& item@.extra_edits().len() == edits@.len()
            &&& forall|i: int|
                0 <= i < edits@.len() ==> #[trigger] item@.extra_edits()[i] == edits@[i]@
        },
{
}

/// A documentation is read as its text, however it is marked up.
pub proof fn documentation_is_its_text(documentation: Documentation)
    ensures
        documentation matches Documentation::Text(text) ==> documentation@.text() == text@,
        documentation matches Documentation::Markup { value, .. } ==> documentation@.text()
            == value@,
{
}

/// Of the two ranges of an edit, the one for replacing is chosen where the editor
/// replaces, and else the one for inserting; the text is the same.
pub proof fn mode_chooses_the_range(edit: CompletionTextEdit, replace_mode: bool)
    ensures
        edit matches CompletionTextEdit::Edit(one) ==> {
            &&& edit@.chosen(replace_mode).range == one.range
            &&& edit@.chosen(replace_mode).new_text == one.new_text@
        },
        edit matches CompletionTextEdit::InsertAndReplace { new_text, insert, replace } ==> {
            &&& edit@.chosen(true).range == replace
            &&& edit@.chosen(false).range == insert
            &&& edit@.chosen(replace_mode).new_text == new_text@
        },
{
}

/// A change reaches over a place from its start to its end, both included.
pub proof fn changes_reach_from_start_to_end(
    start: usize,
    end: usize,
    text: Option<Seq<char>>,
    offset: usize,
)
    ensures
        touches((start, end, text), offset) <==> start <= offset && offset <= end,
{
}

/// Two items of servers are equal exactly if they agree in everything that the
/// server sent and in everything that the editor knows of them.
pub proof fn equal_items_agree_in_everything(a: LspCompletionItem, b: LspCompletionItem)
    ensures
        a.eq_spec(&CompletionItem::Lsp(b)) == CompletionItem::Lsp(a).eq_spec(
            &CompletionItem::Lsp(b),
        ),
        a.eq_spec(&CompletionItem::Lsp(b)) <==> {
            &&& a.provider == b.provider
            &&& a.resolved == b.resolved
            &&& a.provider_priority == b.provider_priority
            &&& a.item.label@ == b.item.label@
            &&& a.item.kind == b.item.kind
            &&& match (a.item.tags, b.item.tags) {
                (Some(x), Some(y)) => x@ == y@,
                (None, None) => true,
                _ => false,
            }
            &&& same_option(a.item.detail, b.item.detail)
            &&& match (a.item.documentation, b.item.documentation) {
                (Some(x), Some(y)) => x@ == y@,
                (None, None) => true,
                _ => false,
            }
            &&& a.item.deprecated == b.item.deprecated
            &&& a.item.preselect == b.item.preselect
            &&& same_option(a.item.filter_text, b.item.filter_text)
            &&& same_option(a.item.insert_text, b.item.insert_text)
            &&& a.item.insert_text_format == b.item.insert_text_format
            &&& match (a.item.text_edit, b.item.text_edit) {
                (Some(x), Some(y)) => x@ == y@,
                (None, None) => true,
                _ => false,
            }
            &&& match (a.item.additional_text_edits, b.item.additional_text_edits) {
                (Some(x), Some(y)) => edits_view(x@) == edits_view(y@),
                (None, None) => true,
                _ => false,
            }
            &&& a.item.rest@ == b.item.rest@
        },
{
}

/// Whether both strings are missing, or both hold the same characters.
pub open spec fn same_option(a: Option<String>, b: Option<String>) -> bool {
    match (a, b) {
        (Some(a), Some(b)) => a@ == b@,
        (None, None) => true,
        _ => false,
    }
}

/// Two items that the editor made are equal exactly if they agree in everything,
/// and no such item is equal to one of a server.
pub proof fn equal_other_items_agree_in_everything(
    a: OtherItem,
    b: OtherItem,
    item: LspCompletionItem,
)
    ensures
        CompletionItem::Other(a).eq_spec(&CompletionItem::Other(b)) <==> {
            &&& a.transaction@ == b.transaction@
            &&& a.label@ == b.label@
            &&& a.kind@ == b.kind@
            &&& same_option(a.documentation, b.documentation)
            &&& a.provider == b.provider
            &&& a.provider_priority == b.provider_priority
        },
        !item.eq_spec(&CompletionItem::Other(a)),
        !CompletionItem::Lsp(item).eq_spec(&CompletionItem::Other(a)),
        !CompletionItem::Other(a).eq_spec(&CompletionItem::Lsp(item)),
{
}

/// The numbers of the kinds, as the protocol gives them.
pub proof fn kinds_have_the_numbers_of_the_protocol()
    ensures
        CompletionItemKind::Text.number() == 1,
        CompletionItemKind::Method.number() == 2,
        CompletionItemKind::Function.number() == 3,
        CompletionItemKind::Constructor.number() == 4,
        CompletionItemKind::Field.number() == 5,
        CompletionItemKind::Variable.number() == 6,
        CompletionItemKind::Class.number() == 7,
        CompletionItemKind::Interface.number() == 8,
        CompletionItemKind::Module.number() == 9,
        CompletionItemKind::Property.number() == 10,
        CompletionItemKind::Unit.number() == 11,
        CompletionItemKind::Value.number() == 12,
        CompletionItemKind::Enum.number() == 13,
        CompletionItemKind::Keyword.number() == 14,
        CompletionItemKind::Snippet.number() == 15,
        CompletionItemKind::Color.number() == 16,
        CompletionItemKind::File.number() == 17,
        CompletionItemKind::Reference.number() == 18,
        CompletionItemKind::Folder.number() == 19,
        CompletionItemKind::EnumMember.number() == 20,
        CompletionItemKind::Constant.number() == 21,
        CompletionItemKind::Struct.number() == 22,
        CompletionItemKind::Event.number() == 23,
        CompletionItemKind::Operator.number() == 24,
        CompletionItemKind::TypeParameter.number() == 25,
        forall|n: i32| #[trigger] CompletionItemKind::Unknown(n).number() == n,
        CompletionItemTag::Deprecated.number() == 1,
        forall|n: i32| #[trigger] CompletionItemTag::Unknown(n).number() == n,
        InsertTextFormat::PlainText.number() == 1,
        InsertTextFormat::Snippet.number() == 2,
        forall|n: i32| #[trigger] InsertTextFormat::Unknown(n).number() == n,
{
}

} // verus!
