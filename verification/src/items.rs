//! The items of a completion menu and where they come from.
use vstd::prelude::*;

use crate::edits::{
    copy_edits, edits_view, opt_text, same_edits, same_opt_text, ChangeView, CompletionTextEdit,
    CompletionTextEditView, TextEdit, TextEditView, Transaction,
};
use crate::text::same_text;

verus! {

/// The kind of thing that an item of a language server names.
#[derive(Clone, Copy, Debug, PartialEq, Eq, Structural)]
pub enum CompletionItemKind {
    Text,
    Method,
    Function,
    Constructor,
    Field,
    Variable,
    Class,
    Interface,
    Module,
    Property,
    Unit,
    Value,
    Enum,
    Keyword,
    Snippet,
    Color,
    File,
    Reference,
    Folder,
    EnumMember,
    Constant,
    Struct,
    Event,
    Operator,
    TypeParameter,
    /// A number that the protocol gives no meaning.
    Unknown(i32),
}

impl CompletionItemKind {
    /// The number by which the protocol means this kind.
    pub open spec fn number(self) -> i32 {
        match self {
            CompletionItemKind::Text => 1,
            CompletionItemKind::Method => 2,
            CompletionItemKind::Function => 3,
            CompletionItemKind::Constructor => 4,
            CompletionItemKind::Field => 5,
            CompletionItemKind::Variable => 6,
            CompletionItemKind::Class => 7,
            CompletionItemKind::Interface => 8,
            CompletionItemKind::Module => 9,
            CompletionItemKind::Property => 10,
            CompletionItemKind::Unit => 11,
            CompletionItemKind::Value => 12,
            CompletionItemKind::Enum => 13,
            CompletionItemKind::Keyword => 14,
            CompletionItemKind::Snippet => 15,
            CompletionItemKind::Color => 16,
            CompletionItemKind::File => 17,
            CompletionItemKind::Reference => 18,
            CompletionItemKind::Folder => 19,
            CompletionItemKind::EnumMember => 20,
            CompletionItemKind::Constant => 21,
            CompletionItemKind::Struct => 22,
            CompletionItemKind::Event => 23,
            CompletionItemKind::Operator => 24,
            CompletionItemKind::TypeParameter => 25,
            CompletionItemKind::Unknown(number) => number,
        }
    }

    /// Whether a number with a meaning is not kept as one without.
    pub open spec fn is_proper(self) -> bool {
        self matches CompletionItemKind::Unknown(number) ==> !(1 <= number <= 25)
    }

    /// The kind that the protocol means by a number.
    pub fn from_number(number: i32) -> (r: CompletionItemKind)
        ensures
            r.number() == number,
            r.is_proper(),
    {
        match number {
            1 => CompletionItemKind::Text,
            2 => CompletionItemKind::Method,
            3 => CompletionItemKind::Function,
            4 => CompletionItemKind::Constructor,
            5 => CompletionItemKind::Field,
            6 => CompletionItemKind::Variable,
            7 => CompletionItemKind::Class,
            8 => CompletionItemKind::Interface,
            9 => CompletionItemKind::Module,
            10 => CompletionItemKind::Property,
            11 => CompletionItemKind::Unit,
            12 => CompletionItemKind::Value,
            13 => CompletionItemKind::Enum,
            14 => CompletionItemKind::Keyword,
            15 => CompletionItemKind::Snippet,
            16 => CompletionItemKind::Color,
            17 => CompletionItemKind::File,
            18 => CompletionItemKind::Reference,
            19 => CompletionItemKind::Folder,
            20 => CompletionItemKind::EnumMember,
            21 => CompletionItemKind::Constant,
            22 => CompletionItemKind::Struct,
            23 => CompletionItemKind::Event,
            24 => CompletionItemKind::Operator,
            25 => CompletionItemKind::TypeParameter,
            _ => CompletionItemKind::Unknown(number),
        }
    }
}

/// A mark on an item of a language server.
#[derive(Clone, Copy, Debug, PartialEq, Eq, Structural)]
pub enum CompletionItemTag {
    Deprecated,
    /// A number that the protocol gives no meaning.
    Unknown(i32),
}

impl CompletionItemTag {
    /// The number by which the protocol means this mark.
    pub open spec fn number(self) -> i32 {
        match self {
            CompletionItemTag::Deprecated => 1,
            CompletionItemTag::Unknown(number) => number,
        }
    }

    /// Whether a number with a meaning is not kept as one without.
    pub open spec fn is_proper(self) -> bool {
        self matches CompletionItemTag::Unknown(number) ==> !(number == 1)
    }

    /// The mark that the protocol means by a number.
    pub fn from_number(number: i32) -> (r: CompletionItemTag)
        ensures
            r.number() == number,
            r.is_proper(),
    {
        match number {
            1 => CompletionItemTag::Deprecated,
            _ => CompletionItemTag::Unknown(number),
        }
    }
}

/// How the text of an item is to be read.
#[derive(Clone, Copy, Debug, PartialEq, Eq, Structural)]
pub enum InsertTextFormat {
    PlainText,
    Snippet,
    /// A number that the protocol gives no meaning.
    Unknown(i32),
}

impl InsertTextFormat {
    /// The number by which the protocol means this format.
    pub open spec fn number(self) -> i32 {
        match self {
            InsertTextFormat::PlainText => 1,
            InsertTextFormat::Snippet => 2,
            InsertTextFormat::Unknown(number) => number,
        }
    }

    /// Whether a number with a meaning is not kept as one without.
    pub open spec fn is_proper(self) -> bool {
        self matches InsertTextFormat::Unknown(number) ==> !(1 <= number <= 2)
    }

    /// The format that the protocol means by a number.
    pub fn from_number(number: i32) -> (r: InsertTextFormat)
        ensures
            r.number() == number,
            r.is_proper(),
    {
        match number {
            1 => InsertTextFormat::PlainText,
            2 => InsertTextFormat::Snippet,
            _ => InsertTextFormat::Unknown(number),
        }
    }
}

/// Kinds that are made from the protocol's numbers are the same only if the
/// numbers are.
pub proof fn kinds_go_by_number(a: CompletionItemKind, b: CompletionItemKind)
    requires
        a.is_proper(),
        b.is_proper(),
    ensures
        a == b <==> a.number() == b.number(),
{
}

/// Marks that are made from the protocol's numbers are the same only if the
/// numbers are.
pub proof fn tags_go_by_number(a: CompletionItemTag, b: CompletionItemTag)
    requires
        a.is_proper(),
        b.is_proper(),
    ensures
        a == b <==> a.number() == b.number(),
{
}

/// Formats that are made from the protocol's numbers are the same only if the
/// numbers are.
pub proof fn formats_go_by_number(a: InsertTextFormat, b: InsertTextFormat)
    requires
        a.is_proper(),
        b.is_proper(),
    ensures
        a == b <==> a.number() == b.number(),
{
}

/// How a documentation text is marked up.
#[derive(Clone, Copy, Debug, PartialEq, Eq, Structural)]
pub enum MarkupKind {
    PlainText,
    Markdown,
}

/// The documentation that a language server sends with an item.
#[derive(Debug)]
pub enum Documentation {
    Text(String),
    Markup { kind: MarkupKind, value: String },
}

/// What a `Documentation` holds.
pub enum DocumentationView {
    Text(Seq<char>),
    Markup { kind: MarkupKind, value: Seq<char> },
}

impl View for Documentation {
    type V = DocumentationView;

    open spec fn view(&self) -> DocumentationView {
        match *self {
            Documentation::Text(text) => DocumentationView::Text(text@),
            Documentation::Markup { kind, value } => DocumentationView::Markup {
                kind,
                value: value@,
            },
        }
    }
}

impl DocumentationView {
    /// The text, however it is marked up.
    pub open spec fn text(self) -> Seq<char> {
        match self {
            DocumentationView::Text(text) => text,
            DocumentationView::Markup { value, .. } => value,
        }
    }
}

impl Documentation {
    /// The text, however it is marked up.
    pub fn text(&self) -> (r: &String)
        ensures
            r@ == self@.text(),
    {
        match self {
            Documentation::Text(text) => text,
            Documentation::Markup { value, .. } => value,
        }
    }

    /// Whether two documentations are the same.
    pub fn same(&self, other: &Documentation) -> (r: bool)
        ensures
            r == (self@ == other@),
    {
        match (self, other) {
            (Documentation::Text(a), Documentation::Text(b)) => same_text(a.as_str(), b.as_str()),
            (
                Documentation::Markup { kind, value },
                Documentation::Markup { kind: other_kind, value: other_value },
            ) => { *kind == *other_kind && same_text(value.as_str(), other_value.as_str()) },
            _ => false,
        }
    }

    /// A documentation that holds the same.
    pub fn copy(&self) -> (r: Documentation)
        ensures
            r@ == self@,
    {
        match self {
            Documentation::Text(text) => Documentation::Text(text.clone()),
            Documentation::Markup { kind, value } => Documentation::Markup {
                kind: *kind,
                value: value.clone(),
            },
        }
    }
}

/// An item as a language server sends it.
#[derive(Debug)]
pub struct LspItem {
    pub label: String,
    pub kind: Option<CompletionItemKind>,
    pub tags: Option<Vec<CompletionItemTag>>,
    pub detail: Option<String>,
    pub documentation: Option<Documentation>,
    pub deprecated: Option<bool>,
    pub preselect: Option<bool>,
    pub filter_text: Option<String>,
    pub insert_text: Option<String>,
    pub insert_text_format: Option<InsertTextFormat>,
    pub text_edit: Option<CompletionTextEdit>,
    pub additional_text_edits: Option<Vec<TextEdit>>,
    /// Everything else that the server sent, as it was written. It is compared
    /// and handed back, and otherwise left alone.
    pub rest: String,
}

/// What an `LspItem` holds.
pub struct LspItemView {
    pub label: Seq<char>,
    pub kind: Option<CompletionItemKind>,
    pub tags: Option<Seq<CompletionItemTag>>,
    pub detail: Option<Seq<char>>,
    pub documentation: Option<DocumentationView>,
    pub deprecated: Option<bool>,
    pub preselect: Option<bool>,
    pub filter_text: Option<Seq<char>>,
    pub insert_text: Option<Seq<char>>,
    pub insert_text_format: Option<InsertTextFormat>,
    pub text_edit: Option<CompletionTextEditView>,
    pub additional_text_edits: Option<Seq<TextEditView>>,
    pub rest: Seq<char>,
}

impl View for LspItem {
    type V = LspItemView;

    open spec fn view(&self) -> LspItemView {
        LspItemView {
            label: self.label@,
            kind: self.kind,
            tags: match self.tags {
                Some(tags) => Some(tags@),
                None => None,
            },
            detail: opt_text(self.detail),
            documentation: match self.documentation {
                Some(documentation) => Some(documentation@),
                None => None,
            },
            deprecated: self.deprecated,
            preselect: self.preselect,
            filter_text: opt_text(self.filter_text),
            insert_text: opt_text(self.insert_text),
            insert_text_format: self.insert_text_format,
            text_edit: match self.text_edit {
                Some(edit) => Some(edit@),
                None => None,
            },
            additional_text_edits: match self.additional_text_edits {
                Some(edits) => Some(edits_view(edits@)),
                None => None,
            },
            rest: self.rest@,
        }
    }
}

impl LspItemView {
    /// The server marks an item as deprecated by a flag or by a tag.
    pub open spec fn is_deprecated(self) -> bool {
        ||| self.deprecated == Some(true)
        ||| self.tags matches Some(tags) && tags.contains(CompletionItemTag::Deprecated)
    }

    /// What the typed text is matched against.
    pub open spec fn match_text(self) -> Seq<char> {
        match self.filter_text {
            Some(text) => text,
            None => self.label,
        }
    }

    /// Whether the text of the item is a snippet.
    pub open spec fn is_snippet(self) -> bool {
        ||| self.kind == Some(CompletionItemKind::Snippet)
        ||| self.insert_text_format == Some(InsertTextFormat::Snippet)
    }

    /// The edits that go with the item besides its own.
    pub open spec fn extra_edits(self) -> Seq<TextEditView> {
        match self.additional_text_edits {
            Some(edits) => edits,
            None => Seq::empty(),
        }
    }
}

/// Whether two lists of tags are the same.
fn same_tags(a: &Vec<CompletionItemTag>, b: &Vec<CompletionItemTag>) -> (r: bool)
    ensures
        r == (a@ == b@),
{
    if a.len() != b.len() {
        return false;
    }
    let mut i: usize = 0;
    while i < a.len()
        invariant
            i <= a@.len() == b@.len(),
            forall|j: int| 0 <= j < i ==> #[trigger] a@[j] == b@[j],
        decreases a@.len() - i,
    {
        if a[i] != b[i] {
            return false;
        }
        i = i + 1;
    }
    assert(a@ =~= b@);
    true
}

/// A list of the same tags.
fn copy_tags(tags: &Vec<CompletionItemTag>) -> (r: Vec<CompletionItemTag>)
    ensures
        r@ == tags@,
{
    let mut r: Vec<CompletionItemTag> = Vec::new();
    let mut i: usize = 0;
    while i < tags.len()
        invariant
            i <= tags@.len(),
            r@ == tags@.take(i as int),
        decreases tags@.len() - i,
    {
        r.push(tags[i]);
        i = i + 1;
    }
    assert(tags@.take(i as int) =~= tags@);
    r
}

/// An optional string that holds the same.
fn copy_opt_text(s: &Option<String>) -> (r: Option<String>)
    ensures
        opt_text(r) == opt_text(*s),
{
    match s {
        Some(s) => Some(s.clone()),
        None => None,
    }
}

impl LspItem {
    /// Whether two items are the same.
    pub fn same(&self, other: &LspItem) -> (r: bool)
        ensures
            r == (self@ == other@),
    {
        let tags = match (&self.tags, &other.tags) {
            (Some(a), Some(b)) => same_tags(a, b),
            (None, None) => true,
            _ => false,
        };
        let documentation = match (&self.documentation, &other.documentation) {
            (Some(a), Some(b)) => a.same(b),
            (None, None) => true,
            _ => false,
        };
        let text_edit = match (&self.text_edit, &other.text_edit) {
            (Some(a), Some(b)) => a.same(b),
            (None, None) => true,
            _ => false,
        };
        let additional = match (&self.additional_text_edits, &other.additional_text_edits) {
            (Some(a), Some(b)) => same_edits(a, b),
            (None, None) => true,
            _ => false,
        };
        tags && documentation && text_edit && additional && self.kind == other.kind
            && self.deprecated == other.deprecated && self.preselect == other.preselect
            && self.insert_text_format == other.insert_text_format && same_text(
            self.label.as_str(),
            other.label.as_str(),
        ) && same_opt_text(&self.detail, &other.detail) && same_opt_text(
            &self.filter_text,
            &other.filter_text,
        ) && same_opt_text(&self.insert_text, &other.insert_text) && same_text(
            self.rest.as_str(),
            other.rest.as_str(),
        )
    }

    /// An item that holds the same.
    pub fn copy(&self) -> (r: LspItem)
        ensures
            r@ == self@,
    {
        LspItem {
            label: self.label.clone(),
            kind: self.kind,
            tags: match &self.tags {
                Some(tags) => Some(copy_tags(tags)),
                None => None,
            },
            detail: copy_opt_text(&self.detail),
            documentation: match &self.documentation {
                Some(documentation) => Some(documentation.copy()),
                None => None,
            },
            deprecated: self.deprecated,
            preselect: self.preselect,
            filter_text: copy_opt_text(&self.filter_text),
            insert_text: copy_opt_text(&self.insert_text),
            insert_text_format: self.insert_text_format,
            text_edit: match &self.text_edit {
                Some(edit) => Some(edit.copy()),
                None => None,
            },
            additional_text_edits: match &self.additional_text_edits {
                Some(edits) => Some(copy_edits(edits)),
                None => None,
            },
            rest: self.rest.clone(),
        }
    }

    /// Whether the server marks the item as deprecated.
    pub fn is_deprecated(&self) -> (r: bool)
        ensures
            r == self@.is_deprecated(),
    {
        if self.deprecated == Some(true) {
            return true;
        }
        match &self.tags {
            Some(tags) => {
                let mut i: usize = 0;
                while i < tags.len()
                    invariant
                        i <= tags@.len(),
                        self.tags == Some(*tags),
                        forall|j: int|
                            0 <= j < i ==> #[trigger] tags@[j] != CompletionItemTag::Deprecated,
                    decreases tags@.len() - i,
                {
                    if tags[i] == CompletionItemTag::Deprecated {
                        return true;
                    }
                    i = i + 1;
                }
                false
            },
            None => false,
        }
    }

    /// Whether the text of the item is a snippet.
    pub fn is_snippet(&self) -> (r: bool)
        ensures
            r == self@.is_snippet(),
    {
        self.kind == Some(CompletionItemKind::Snippet) || self.insert_text_format == Some(
            InsertTextFormat::Snippet,
        )
    }
}

/// Where an item comes from.
#[derive(Clone, Copy, Debug, PartialEq, Eq, Structural)]
pub enum CompletionProvider {
    /// The language server with this number.
    Lsp(u64),
    /// The paths of the file system.
    Path,
}

/// An item of a language server and what the editor knows of it.
#[derive(Debug)]
pub struct LspCompletionItem {
    pub item: LspItem,
    pub provider: u64,
    /// Whether the server has been asked for the parts it leaves out at first.
    pub resolved: bool,
    pub provider_priority: i8,
}

/// What an `LspCompletionItem` holds.
pub struct LspCompletionItemView {
    pub item: LspItemView,
    pub provider: u64,
    pub resolved: bool,
    pub provider_priority: i8,
}

impl View for LspCompletionItem {
    type V = LspCompletionItemView;

    open spec fn view(&self) -> LspCompletionItemView {
        LspCompletionItemView {
            item: self.item@,
            provider: self.provider,
            resolved: self.resolved,
            provider_priority: self.provider_priority,
        }
    }
}

impl LspCompletionItem {
    /// Whether two items are the same.
    pub fn same(&self, other: &LspCompletionItem) -> (r: bool)
        ensures
            r == (self@ == other@),
    {
        self.provider == other.provider && self.resolved == other.resolved
            && self.provider_priority == other.provider_priority && self.item.same(&other.item)
    }
}

/// An item that the editor makes itself.
#[derive(Debug)]
pub struct OtherItem {
    pub transaction: Transaction,
    pub label: String,
    pub kind: String,
    pub documentation: Option<String>,
    pub provider: CompletionProvider,
    pub provider_priority: i8,
}

/// What an `OtherItem` holds.
pub struct OtherItemView {
    pub transaction: Seq<ChangeView>,
    pub label: Seq<char>,
    pub kind: Seq<char>,
    pub documentation: Option<Seq<char>>,
    pub provider: CompletionProvider,
    pub provider_priority: i8,
}

impl View for OtherItem {
    type V = OtherItemView;

    open spec fn view(&self) -> OtherItemView {
        OtherItemView {
            transaction: self.transaction@,
            label: self.label@,
            kind: self.kind@,
            documentation: opt_text(self.documentation),
            provider: self.provider,
            provider_priority: self.provider_priority,
        }
    }
}

impl OtherItem {
    /// Whether two items are the same.
    pub fn same(&self, other: &OtherItem) -> (r: bool)
        ensures
            r == (self@ == other@),
    {
        self.provider == other.provider && self.provider_priority == other.provider_priority
            && self.transaction.same(&other.transaction) && same_text(
            self.label.as_str(),
            other.label.as_str(),
        ) && same_text(self.kind.as_str(), other.kind.as_str()) && same_opt_text(
            &self.documentation,
            &other.documentation,
        )
    }
}

/// An item of the completion menu.
#[derive(Debug)]
pub enum CompletionItem {
    Lsp(LspCompletionItem),
    Other(OtherItem),
}

/// What a `CompletionItem` holds.
pub enum CompletionItemView {
    Lsp(LspCompletionItemView),
    Other(OtherItemView),
}

impl View for CompletionItem {
    type V = CompletionItemView;

    open spec fn view(&self) -> CompletionItemView {
        match *self {
            CompletionItem::Lsp(item) => CompletionItemView::Lsp(item@),
            CompletionItem::Other(item) => CompletionItemView::Other(item@),
        }
    }
}

impl CompletionItemView {
    /// What the typed text is matched against.
    pub open spec fn match_text(self) -> Seq<char> {
        match self {
            CompletionItemView::Lsp(item) => item.item.match_text(),
            CompletionItemView::Other(item) => item.label,
        }
    }

    /// Whether the server wants the item at the top.
    pub open spec fn is_preselected(self) -> bool {
        self matches CompletionItemView::Lsp(item) && item.item.preselect == Some(true)
    }

    /// Where the item comes from.
    pub open spec fn source(self) -> CompletionProvider {
        match self {
            CompletionItemView::Lsp(item) => CompletionProvider::Lsp(item.provider),
            CompletionItemView::Other(item) => item.provider,
        }
    }

    /// The rank of where it comes from: less is better.
    pub open spec fn priority(self) -> i8 {
        match self {
            CompletionItemView::Lsp(item) => item.provider_priority,
            CompletionItemView::Other(item) => item.provider_priority,
        }
    }
}

impl CompletionItem {
    /// What the typed text is matched against.
    pub fn filter_text(&self) -> (r: &str)
        ensures
            r@ == self@.match_text(),
    {
        match self {
            CompletionItem::Lsp(item) => match &item.item.filter_text {
                Some(text) => text.as_str(),
                None => item.item.label.as_str(),
            },
            CompletionItem::Other(item) => item.label.as_str(),
        }
    }

    /// Whether the server wants the item at the top.
    pub fn preselect(&self) -> (r: bool)
        ensures
            r == self@.is_preselected(),
    {
        match self {
            CompletionItem::Lsp(item) => item.item.preselect == Some(true),
            CompletionItem::Other(_) => false,
        }
    }

    /// Where the item comes from.
    pub fn provider(&self) -> (r: CompletionProvider)
        ensures
            r == self@.source(),
    {
        match self {
            CompletionItem::Lsp(item) => CompletionProvider::Lsp(item.provider),
            CompletionItem::Other(item) => item.provider,
        }
    }

    /// The rank of where it comes from: less is better.
    pub fn provider_priority(&self) -> (r: i8)
        ensures
            r == self@.priority(),
    {
        match self {
            CompletionItem::Lsp(item) => item.provider_priority,
            CompletionItem::Other(item) => item.provider_priority,
        }
    }
}

impl PartialEq for CompletionItem {
    fn eq(&self, other: &CompletionItem) -> (r: bool) {
        match (self, other) {
            (CompletionItem::Lsp(a), CompletionItem::Lsp(b)) => a.same(b),
            (CompletionItem::Other(a), CompletionItem::Other(b)) => a.same(b),
            _ => false,
        }
    }
}

impl vstd::std_specs::cmp::PartialEqSpecImpl for CompletionItem {
    open spec fn obeys_eq_spec() -> bool {
        true
    }

    open spec fn eq_spec(&self, other: &CompletionItem) -> bool {
        self@ == other@
    }
}

impl PartialEq<CompletionItem> for LspCompletionItem {
    fn eq(&self, other: &CompletionItem) -> (r: bool) {
        match other {
            CompletionItem::Lsp(other) => self.same(other),
            CompletionItem::Other(_) => false,
        }
    }
}

impl vstd::std_specs::cmp::PartialEqSpecImpl<CompletionItem> for LspCompletionItem {
    open spec fn obeys_eq_spec() -> bool {
        true
    }

    open spec fn eq_spec(&self, other: &CompletionItem) -> bool {
        other@ == CompletionItemView::Lsp(self@)
    }
}

/// What one source answers to a request for completions.
#[derive(Debug)]
pub struct CompletionResponse {
    pub items: Vec<CompletionItem>,
    pub provider: CompletionProvider,
}

impl CompletionResponse {
    /// Moves the items to the end of `dst`.
    pub fn take_items(&mut self, dst: &mut Vec<CompletionItem>)
        ensures
            final(dst)@ == old(dst)@ + old(self).items@,
            final(self).items@ == Seq::<CompletionItem>::empty(),
            final(self).provider == old(self).provider,
    {
        dst.append(&mut self.items);
    }
}

} // verus!
