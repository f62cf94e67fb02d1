//! Edits of a document: those that a language server describes, and those that
//! the editor makes.
use vstd::prelude::*;

use crate::text::same_text;

verus! {

/// What an optional string holds.
pub open spec fn opt_text(s: Option<String>) -> Option<Seq<char>> {
    match s {
        Some(s) => Some(s@),
        None => None,
    }
}

/// Whether two optional strings hold the same.
pub fn same_opt_text(a: &Option<String>, b: &Option<String>) -> (r: bool)
    ensures
        r == (opt_text(*a) == opt_text(*b)),
{
    match (a, b) {
        (Some(a), Some(b)) => same_text(a.as_str(), b.as_str()),
        (None, None) => true,
        _ => false,
    }
}

/// A place in a document as a language server counts it.
#[derive(Clone, Copy, Debug, PartialEq, Eq, Structural)]
pub struct Position {
    pub line: u32,
    pub character: u32,
}

/// A stretch of a document as a language server counts it.
#[derive(Clone, Copy, Debug, PartialEq, Eq, Structural)]
pub struct Range {
    pub start: Position,
    pub end: Position,
}

/// A stretch of text and what takes its place.
#[derive(Debug)]
pub struct TextEdit {
    pub range: Range,
    pub new_text: String,
}

/// What a `TextEdit` holds.
pub struct TextEditView {
    pub range: Range,
    pub new_text: Seq<char>,
}

impl View for TextEdit {
    type V = TextEditView;

    open spec fn view(&self) -> TextEditView {
        TextEditView { range: self.range, new_text: self.new_text@ }
    }
}

impl TextEdit {
    /// Whether two edits are the same.
    pub fn same(&self, other: &TextEdit) -> (r: bool)
        ensures
            r == (self@ == other@),
    {
        self.range == other.range && same_text(self.new_text.as_str(), other.new_text.as_str())
    }

    /// An edit that holds the same.
    pub fn copy(&self) -> (r: TextEdit)
        ensures
            r@ == self@,
    {
        TextEdit { range: self.range, new_text: self.new_text.clone() }
    }
}

/// What a list of edits holds.
pub open spec fn edits_view(edits: Seq<TextEdit>) -> Seq<TextEditView> {
    edits.map_values(|e: TextEdit| e@)
}

/// Whether two lists of edits are the same.
pub fn same_edits(a: &Vec<TextEdit>, b: &Vec<TextEdit>) -> (r: bool)
    ensures
        r == (edits_view(a@) == edits_view(b@)),
{
    if a.len() != b.len() {
        assert(edits_view(a@).len() != edits_view(b@).len());
        return false;
    }
    let mut i: usize = 0;
    while i < a.len()
        invariant
            i <= a@.len() == b@.len(),
            forall|j: int| 0 <= j < i ==> #[trigger] a@[j]@ == b@[j]@,
        decreases a@.len() - i,
    {
        if !a[i].same(&b[i]) {
            assert(edits_view(a@)[i as int] != edits_view(b@)[i as int]);
            return false;
        }
        i = i + 1;
    }
    assert(edits_view(a@) =~= edits_view(b@));
    true
}

/// A list that holds the same edits.
pub fn copy_edits(edits: &Vec<TextEdit>) -> (r: Vec<TextEdit>)
    ensures
        edits_view(r@) == edits_view(edits@),
{
    let mut r: Vec<TextEdit> = Vec::new();
    let mut i: usize = 0;
    while i < edits.len()
        invariant
            i <= edits@.len(),
            r@.len() == i,
            forall|j: int| 0 <= j < i ==> #[trigger] r@[j]@ == edits@[j]@,
        decreases edits@.len() - i,
    {
        r.push(edits[i].copy());
        i = i + 1;
    }
    assert(edits_view(r@) =~= edits_view(edits@));
    r
}

/// The edit that a completion item stands for: one range, or one range for
/// inserting in front of the text behind the cursor and one for replacing it.
#[derive(Debug)]
pub enum CompletionTextEdit {
    Edit(TextEdit),
    InsertAndReplace { new_text: String, insert: Range, replace: Range },
}

/// What a `CompletionTextEdit` holds.
pub enum CompletionTextEditView {
    Edit(TextEditView),
    InsertAndReplace { new_text: Seq<char>, insert: Range, replace: Range },
}

impl View for CompletionTextEdit {
    type V = CompletionTextEditView;

    open spec fn view(&self) -> CompletionTextEditView {
        match *self {
            CompletionTextEdit::Edit(edit) => CompletionTextEditView::Edit(edit@),
            CompletionTextEdit::InsertAndReplace { new_text, insert, replace } => {
                CompletionTextEditView::InsertAndReplace { new_text: new_text@, insert, replace }
            },
        }
    }
}

impl CompletionTextEditView {
    /// The edit to make: of two ranges, the one to replace where the editor
    /// replaces the text behind the cursor, else the one to insert.
    pub open spec fn chosen(self, replace_mode: bool) -> TextEditView {
        match self {
            CompletionTextEditView::Edit(edit) => edit,
            CompletionTextEditView::InsertAndReplace { new_text, insert, replace } => TextEditView {
                range: if replace_mode {
                    replace
                } else {
                    insert
                },
                new_text,
            },
        }
    }
}

impl CompletionTextEdit {
    /// Whether two edits are the same.
    pub fn same(&self, other: &CompletionTextEdit) -> (r: bool)
        ensures
            r == (self@ == other@),
    {
        match (self, other) {
            (CompletionTextEdit::Edit(a), CompletionTextEdit::Edit(b)) => a.same(b),
            (
                CompletionTextEdit::InsertAndReplace { new_text, insert, replace },
                CompletionTextEdit::InsertAndReplace {
                    new_text: other_text,
                    insert: other_insert,
                    replace: other_replace,
                },
            ) => {
                same_text(new_text.as_str(), other_text.as_str()) && *insert == *other_insert
                    && *replace == *other_replace
            },
            _ => false,
        }
    }

    /// An edit that holds the same.
    pub fn copy(&self) -> (r: CompletionTextEdit)
        ensures
            r@ == self@,
    {
        match self {
            CompletionTextEdit::Edit(edit) => CompletionTextEdit::Edit(edit.copy()),
            CompletionTextEdit::InsertAndReplace { new_text, insert, replace } => {
                CompletionTextEdit::InsertAndReplace {
                    new_text: new_text.clone(),
                    insert: *insert,
                    replace: *replace,
                }
            },
        }
    }

    /// The edit to make.
    pub fn chosen(&self, replace_mode: bool) -> (r: TextEdit)
        ensures
            r@ == self@.chosen(replace_mode),
    {
        match self {
            CompletionTextEdit::Edit(edit) => edit.copy(),
            CompletionTextEdit::InsertAndReplace { new_text, insert, replace } => {
                let range = if replace_mode {
                    *replace
                } else {
                    *insert
                };
                TextEdit { range, new_text: new_text.clone() }
            },
        }
    }
}

/// One change of a document: the characters from the first position up to the
/// second give way to the text, or go without one.
pub type Change = (usize, usize, Option<String>);

/// What a `Change` holds.
pub type ChangeView = (usize, usize, Option<Seq<char>>);

/// What a change holds.
pub open spec fn change_view(change: Change) -> ChangeView {
    (change.0, change.1, opt_text(change.2))
}

/// What a list of changes holds.
pub open spec fn changes_view(changes: Seq<Change>) -> Seq<ChangeView> {
    changes.map_values(|c: Change| change_view(c))
}

/// The changes that are made to a document in one go.
#[derive(Debug)]
pub struct Transaction {
    pub changes: Vec<Change>,
}

impl View for Transaction {
    type V = Seq<ChangeView>;

    open spec fn view(&self) -> Seq<ChangeView> {
        changes_view(self.changes@)
    }
}

/// Whether the change reaches over `offset`, its ends included.
pub open spec fn touches(change: ChangeView, offset: usize) -> bool {
    change.0 <= offset <= change.1
}

impl Transaction {
    /// Whether two transactions are the same.
    pub fn same(&self, other: &Transaction) -> (r: bool)
        ensures
            r == (self@ == other@),
    {
        let a = &self.changes;
        let b = &other.changes;
        if a.len() != b.len() {
            assert(self@.len() != other@.len());
            return false;
        }
        let mut i: usize = 0;
        while i < a.len()
            invariant
                i <= a@.len() == b@.len(),
                *a == self.changes,
                *b == other.changes,
                forall|j: int| 0 <= j < i ==> #[trigger] change_view(a@[j]) == change_view(b@[j]),
            decreases a@.len() - i,
        {
            if a[i].0 != b[i].0 || a[i].1 != b[i].1 || !same_opt_text(&a[i].2, &b[i].2) {
                assert(self@[i as int] != other@[i as int]);
                return false;
            }
            i = i + 1;
        }
        assert(self@ =~= other@);
        true
    }

    /// A transaction that holds the same.
    pub fn copy(&self) -> (r: Transaction)
        ensures
            r@ == self@,
    {
        let mut changes: Vec<Change> = Vec::new();
        let mut i: usize = 0;
        while i < self.changes.len()
            invariant
                i <= self.changes@.len(),
                changes@.len() == i,
                forall|j: int|
                    0 <= j < i ==> #[trigger] change_view(changes@[j]) == change_view(
                        self.changes@[j],
                    ),
            decreases self.changes@.len() - i,
        {
            changes.push(copy_change(&self.changes[i]));
            i = i + 1;
        }
        let r = Transaction { changes };
        assert(r@ =~= self@);
        r
    }
}

/// A change that holds the same.
pub fn copy_change(change: &Change) -> (r: Change)
    ensures
        change_view(r) == change_view(*change),
{
    let text = match &change.2 {
        Some(text) => Some(text.clone()),
        None => None,
    };
    (change.0, change.1, text)
}

/// The changes of `transaction` that reach over the place where the completion
/// was triggered, in their order.
pub fn completion_changes(transaction: &Transaction, trigger_offset: usize) -> (r: Vec<Change>)
    ensures
        changes_view(r@) == transaction@.filter(|c: ChangeView| touches(c, trigger_offset)),
{
    let ghost touching = |c: ChangeView| touches(c, trigger_offset);
    let ghost all = transaction@;
    let mut r: Vec<Change> = Vec::new();
    let mut i: usize = 0;
    assert(changes_view(r@) =~= all.take(0).filter(touching)) by {
        reveal(Seq::filter);
    }
    while i < transaction.changes.len()
        invariant
            i <= transaction.changes@.len() == all.len(),
            all == transaction@,
            touching == (|c: ChangeView| touches(c, trigger_offset)),
            changes_view(r@) == all.take(i as int).filter(touching),
        decreases all.len() - i,
    {
        let change = &transaction.changes[i];
        proof {
            reveal(Seq::filter);
            assert(all.take(i + 1).drop_last() =~= all.take(i as int));
            assert(all.take(i + 1).last() == change_view(*change));
        }
        if change.0 <= trigger_offset && trigger_offset <= change.1 {
            let ghost before = r@;
            r.push(copy_change(change));
            assert(changes_view(r@) =~= changes_view(before).push(change_view(*change)));
        }
        i = i + 1;
    }
    assert(all.take(i as int) =~= all);
    r
}

} // verus!
