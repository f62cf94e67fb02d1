//! What happens to the document when an item is selected or accepted.
//!
//! The menu reports what the user does. What is to be done then depends on what
//! the document and the language servers answer on the way: `start` and `resume`
//! say what to do next, and the editor does it and answers.
//!
//! A selected item is shown in the document before it is accepted. This preview
//! is never told to the language servers, and it has to be gone before anything
//! else is done to the document: their idea of the document would no longer be
//! the one that the next edit starts from.
use vstd::prelude::*;

use crate::edits::{
    changes_view, completion_changes, edits_view, touches, Change, ChangeView, Range, TextEdit,
    TextEditView, Transaction,
};
use crate::items::{
    CompletionItem, CompletionItemView, LspCompletionItem, LspCompletionItemView, LspItem,
    LspItemView,
};

verus! {

/// What the user did in the menu.
#[derive(Clone, Copy, Debug, PartialEq, Eq, Structural)]
pub enum PromptEvent {
    /// Selected another item.
    Update,
    /// Accepted the selected item.
    Validate,
    /// Left the menu.
    Abort,
}

/// How far the completion has come. `S` is what the document hands out to be put
/// back to an earlier state.
#[derive(Debug)]
pub enum CompleteAction<S> {
    Triggered,
    /// An item is shown in the document; the savepoint is from before that.
    Selected { savepoint: S },
    /// An item was accepted.
    Applied { trigger_offset: usize, changes: Vec<Change>, placeholder: bool },
}

/// What a `CompleteAction` holds.
pub enum CompleteActionView<S> {
    Triggered,
    Selected { savepoint: S },
    Applied { trigger_offset: usize, changes: Seq<ChangeView>, placeholder: bool },
}

impl<S> View for CompleteAction<S> {
    type V = CompleteActionView<S>;

    open spec fn view(&self) -> CompleteActionView<S> {
        match *self {
            CompleteAction::Triggered => CompleteActionView::Triggered,
            CompleteAction::Selected { savepoint } => CompleteActionView::Selected { savepoint },
            CompleteAction::Applied { trigger_offset, changes, placeholder } => {
                CompleteActionView::Applied {
                    trigger_offset,
                    changes: changes_view(changes@),
                    placeholder,
                }
            },
        }
    }
}

/// What an optional `CompleteAction` holds.
pub open spec fn action_view<S>(action: Option<CompleteAction<S>>) -> Option<
    CompleteActionView<S>,
> {
    match action {
        Some(action) => Some(action@),
        None => None,
    }
}

/// A text to be put into the document at every cursor.
#[derive(Debug)]
pub struct PlannedText {
    /// The range that gives way, counted from the main cursor; `None` leaves it
    /// to the editor.
    pub edit_offset: Option<(i128, i128)>,
    /// Whether the word behind the cursor gives way too.
    pub replace_mode: bool,
    pub new_text: String,
}

/// What a `PlannedText` holds.
pub struct PlannedTextView {
    pub edit_offset: Option<(i128, i128)>,
    pub replace_mode: bool,
    pub new_text: Seq<char>,
}

impl View for PlannedText {
    type V = PlannedTextView;

    open spec fn view(&self) -> PlannedTextView {
        PlannedTextView {
            edit_offset: self.edit_offset,
            replace_mode: self.replace_mode,
            new_text: self.new_text@,
        }
    }
}

/// An edit of the document.
#[derive(Debug)]
pub enum Edit {
    /// The document stays as it is.
    Unchanged,
    /// The edit that came with the item.
    Given(Transaction),
    Plain(PlannedText),
    /// The text is a snippet with places to be filled in.
    Snippet(PlannedText),
}

/// What an `Edit` holds.
pub enum EditView {
    Unchanged,
    Given(Seq<ChangeView>),
    Plain(PlannedTextView),
    Snippet(PlannedTextView),
}

impl View for Edit {
    type V = EditView;

    open spec fn view(&self) -> EditView {
        match *self {
            Edit::Unchanged => EditView::Unchanged,
            Edit::Given(transaction) => EditView::Given(transaction@),
            Edit::Plain(text) => EditView::Plain(text@),
            Edit::Snippet(text) => EditView::Snippet(text@),
        }
    }
}

impl LspItemView {
    /// The range that has to be found in the document before the item can be
    /// turned into an edit.
    pub open spec fn range_to_locate(self, replace_mode: bool) -> Option<Range> {
        match self.text_edit {
            Some(edit) => Some(edit.chosen(replace_mode).range),
            None => None,
        }
    }

    /// The edit that the item stands for, where the main cursor is at
    /// `primary_cursor` and `range` is what `range_to_locate` is in the
    /// document: nothing where it is not to be found there.
    pub open spec fn planned(
        self,
        primary_cursor: usize,
        range: Option<(usize, usize)>,
        replace_mode: bool,
    ) -> EditView {
        let (edit_offset, new_text) = match self.text_edit {
            Some(edit) => (
                match range {
                    Some((anchor, head)) => Some(
                        ((anchor - primary_cursor) as i128, (head - primary_cursor) as i128),
                    ),
                    None => None,
                },
                edit.chosen(replace_mode).new_text,
            ),
            None => (
                None,
                match self.insert_text {
                    Some(text) => text,
                    None => self.label,
                },
            ),
        };
        let text = PlannedTextView { edit_offset, replace_mode, new_text };
        if self.text_edit is Some && range is None {
            EditView::Unchanged
        } else if self.is_snippet() {
            EditView::Snippet(text)
        } else {
            EditView::Plain(text)
        }
    }
}

/// The range of the item that has to be found in the document.
pub fn range_to_locate(item: &LspItem, replace_mode: bool) -> (r: Option<Range>)
    ensures
        r == item@.range_to_locate(replace_mode),
{
    match &item.text_edit {
        Some(edit) => Some(edit.chosen(replace_mode).range),
        None => None,
    }
}

/// Turns an item of a language server into an edit. `range` is where the range
/// that `range_to_locate` names lies in the document, as the positions of its
/// two ends. An item without a range is only for a cursor that is still where the
/// completion was triggered.
pub fn lsp_item_to_transaction(
    item: &LspItem,
    primary_cursor: usize,
    range: Option<(usize, usize)>,
    trigger_offset: usize,
    replace_mode: bool,
) -> (r: Edit)
    requires
        item@.text_edit is None ==> primary_cursor == trigger_offset,
    ensures
        r@ == item@.planned(primary_cursor, range, replace_mode),
{
    let mut edit_offset: Option<(i128, i128)> = None;
    let new_text = match &item.text_edit {
        Some(edit) => {
            let (anchor, head) = match range {
                Some((anchor, head)) => (anchor, head),
                None => return Edit::Unchanged,
            };
            edit_offset = Some(
                (anchor as i128 - primary_cursor as i128, head as i128 - primary_cursor as i128),
            );
            edit.chosen(replace_mode).new_text
        },
        None => match &item.insert_text {
            Some(text) => text.clone(),
            None => item.label.clone(),
        },
    };
    let text = PlannedText { edit_offset, replace_mode, new_text };
    if item.is_snippet() {
        Edit::Snippet(text)
    } else {
        Edit::Plain(text)
    }
}

/// What the editor is to do.
#[derive(Debug)]
pub enum Command<S> {
    /// Take a savepoint of the document. Answer: `Savepoint`.
    TakeSavepoint,
    /// Note how far the completion has come.
    Record(Option<CompleteAction<S>>),
    /// Put the document back; `notify` says whether to tell the servers.
    Restore { savepoint: S, notify: bool },
    /// End the step that one undo takes back.
    AppendHistory,
    /// Look up the language server with this number. Answer: `Server`.
    FindServer(u64),
    /// Tell the user.
    SetError(&'static str),
    /// Have the server fill in the item. Answer: `Resolved`.
    Resolve(LspItem),
    /// Find the main cursor, and the range in the document. Answer: `Located`.
    Locate(Option<Range>),
    /// Read the text as a snippet. Answer: `Parsed`.
    ParseSnippet(String),
    /// Edit the document without telling the servers.
    ApplyTemporary(Edit),
    /// Edit the document. Answer: `Applied`.
    Apply(Edit),
    /// Visit the places of the snippet that was put in; `nested` says whether
    /// this happens inside another snippet.
    ActivateSnippet { nested: bool },
    /// Make these edits too.
    ApplyEdits(Vec<TextEdit>),
    /// Ask for completions if the text in front of the cursor calls for them.
    TriggerCompletion,
    /// Show the signature of the function around the cursor.
    TriggerSignatureHelp,
}

/// What a `Command` holds.
pub enum CommandView<S> {
    TakeSavepoint,
    Record(Option<CompleteActionView<S>>),
    Restore { savepoint: S, notify: bool },
    AppendHistory,
    FindServer(u64),
    SetError(Seq<char>),
    Resolve(LspItemView),
    Locate(Option<Range>),
    ParseSnippet(Seq<char>),
    ApplyTemporary(EditView),
    Apply(EditView),
    ActivateSnippet { nested: bool },
    ApplyEdits(Seq<TextEditView>),
    TriggerCompletion,
    TriggerSignatureHelp,
}

impl<S> View for Command<S> {
    type V = CommandView<S>;

    open spec fn view(&self) -> CommandView<S> {
        match *self {
            Command::TakeSavepoint => CommandView::TakeSavepoint,
            Command::Record(action) => CommandView::Record(action_view(action)),
            Command::Restore { savepoint, notify } => CommandView::Restore { savepoint, notify },
            Command::AppendHistory => CommandView::AppendHistory,
            Command::FindServer(id) => CommandView::FindServer(id),
            Command::SetError(message) => CommandView::SetError(message@),
            Command::Resolve(item) => CommandView::Resolve(item@),
            Command::Locate(range) => CommandView::Locate(range),
            Command::ParseSnippet(text) => CommandView::ParseSnippet(text@),
            Command::ApplyTemporary(edit) => CommandView::ApplyTemporary(edit@),
            Command::Apply(edit) => CommandView::Apply(edit@),
            Command::ActivateSnippet { nested } => CommandView::ActivateSnippet { nested },
            Command::ApplyEdits(edits) => CommandView::ApplyEdits(edits_view(edits@)),
            Command::TriggerCompletion => CommandView::TriggerCompletion,
            Command::TriggerSignatureHelp => CommandView::TriggerSignatureHelp,
        }
    }
}

/// What a server can do with completion items.
#[derive(Clone, Copy, Debug, PartialEq, Eq, Structural)]
pub struct CompletionOptions {
    pub resolve_provider: Option<bool>,
}

/// What a server can do.
#[derive(Clone, Copy, Debug, PartialEq, Eq, Structural)]
pub struct ServerCapabilities {
    pub completion_provider: Option<CompletionOptions>,
}

impl ServerCapabilities {
    /// Whether the server fills in items on request.
    pub open spec fn resolves(self) -> bool {
        self.completion_provider == Some(CompletionOptions { resolve_provider: Some(true) })
    }

    /// Whether the server fills in items on request.
    pub fn can_resolve(&self) -> (r: bool)
        ensures
            r == self.resolves(),
    {
        match self.completion_provider {
            Some(options) => options.resolve_provider == Some(true),
            None => false,
        }
    }
}

/// What the editor answers.
#[derive(Debug)]
pub enum Reply<S> {
    Savepoint(S),
    /// What the server can do; `None` where it is gone.
    Server(Option<ServerCapabilities>),
    /// The item filled in; `None` where the server failed.
    Resolved(Option<LspItem>),
    /// The main cursor, and the two ends of the range where it was asked for and
    /// lies in the document.
    Located { primary_cursor: usize, range: Option<(usize, usize)> },
    /// Whether the text is a snippet.
    Parsed(bool),
    /// What the edit changed, and whether the places of a snippet are being
    /// visited.
    Applied { transaction: Transaction, snippet_active: bool },
}

/// What a `Reply` holds.
pub enum ReplyView<S> {
    Savepoint(S),
    Server(Option<ServerCapabilities>),
    Resolved(Option<LspItemView>),
    Located { primary_cursor: usize, range: Option<(usize, usize)> },
    Parsed(bool),
    Applied { changes: Seq<ChangeView>, snippet_active: bool },
}

impl<S> View for Reply<S> {
    type V = ReplyView<S>;

    open spec fn view(&self) -> ReplyView<S> {
        match *self {
            Reply::Savepoint(savepoint) => ReplyView::Savepoint(savepoint),
            Reply::Server(capabilities) => ReplyView::Server(capabilities),
            Reply::Resolved(Some(item)) => ReplyView::Resolved(Some(item@)),
            Reply::Resolved(None) => ReplyView::Resolved(None),
            Reply::Located { primary_cursor, range } => ReplyView::Located {
                primary_cursor,
                range,
            },
            Reply::Parsed(is_snippet) => ReplyView::Parsed(is_snippet),
            Reply::Applied { transaction, snippet_active } => ReplyView::Applied {
                changes: transaction@,
                snippet_active,
            },
        }
    }
}

/// Which answer is awaited. `accept` tells an accepted item from one that is
/// only shown.
#[derive(Debug)]
pub enum State<S> {
    Finished,
    AwaitSavepoint { selected: CompletionItem, context: S },
    AwaitServer { accept: bool, entry: LspCompletionItem },
    AwaitResolved { item: LspItem },
    AwaitLocation { accept: bool, item: LspItem },
    AwaitSnippet { accept: bool, extra: Vec<TextEdit>, text: PlannedText },
    AwaitApplied { extra: Vec<TextEdit>, snippet: bool },
}

/// What a `State` holds.
pub enum StateView<S> {
    Finished,
    AwaitSavepoint { selected: CompletionItemView, context: S },
    AwaitServer { accept: bool, entry: LspCompletionItemView },
    AwaitResolved { item: LspItemView },
    AwaitLocation { accept: bool, item: LspItemView },
    AwaitSnippet { accept: bool, extra: Seq<TextEditView>, text: PlannedTextView },
    AwaitApplied { extra: Seq<TextEditView>, snippet: bool },
}

impl<S> View for State<S> {
    type V = StateView<S>;

    open spec fn view(&self) -> StateView<S> {
        match *self {
            State::Finished => StateView::Finished,
            State::AwaitSavepoint { selected: item, context } => StateView::AwaitSavepoint {
                selected: item@,
                context,
            },
            State::AwaitServer { accept, entry: item } => StateView::AwaitServer {
                accept,
                entry: item@,
            },
            State::AwaitResolved { item } => StateView::AwaitResolved { item: item@ },
            State::AwaitLocation { accept, item } => StateView::AwaitLocation {
                accept,
                item: item@,
            },
            State::AwaitSnippet { accept, extra, text } => StateView::AwaitSnippet {
                accept,
                extra: edits_view(extra@),
                text: text@,
            },
            State::AwaitApplied { extra, snippet } => StateView::AwaitApplied {
                extra: edits_view(extra@),
                snippet,
            },
        }
    }
}

/// What to do now, one thing after the other, and which answer to the last of
/// these is awaited.
#[derive(Debug)]
pub struct Step<S> {
    pub commands: Vec<Command<S>>,
    pub state: State<S>,
}

/// What a `Step` holds.
pub struct StepView<S> {
    pub commands: Seq<CommandView<S>>,
    pub state: StateView<S>,
}

/// What a list of commands holds.
pub open spec fn commands_view<S>(commands: Seq<Command<S>>) -> Seq<CommandView<S>> {
    commands.map_values(|c: Command<S>| c@)
}

impl<S> View for Step<S> {
    type V = StepView<S>;

    open spec fn view(&self) -> StepView<S> {
        StepView { commands: commands_view(self.commands@), state: self.state@ }
    }
}

impl<S> StepView<S> {
    /// The step with something to be done before it.
    pub open spec fn after(self, commands: Seq<CommandView<S>>) -> StepView<S> {
        StepView { commands: commands + self.commands, state: self.state }
    }

    /// Nothing is left to do.
    pub open spec fn done() -> StepView<S> {
        StepView { commands: Seq::empty(), state: StateView::Finished }
    }

    /// One thing to do, and then to wait.
    pub open spec fn ask(command: CommandView<S>, state: StateView<S>) -> StepView<S> {
        StepView { commands: seq![command], state }
    }

    /// One last thing to do.
    pub open spec fn last(command: CommandView<S>) -> StepView<S> {
        StepView { commands: seq![command], state: StateView::Finished }
    }
}

/// The settings under which the menu was opened.
#[derive(Clone, Copy, Debug, PartialEq, Eq, Structural)]
pub struct Insertion {
    /// Where in the document the completion was triggered.
    pub trigger_offset: usize,
    /// Whether the word behind the cursor gives way.
    pub replace_mode: bool,
    /// Whether a selected item is shown in the document.
    pub preview_completion_insert: bool,
}

/// What the user is told when the server of an item is gone.
pub open spec fn outdated() -> Seq<char> {
    "completions are outdated"@
}

impl Insertion {
    /// Shows a selected item: first the document goes back to where the item
    /// belongs, untold.
    pub open spec fn show<S>(self, item: CompletionItemView, context: S) -> StepView<S> {
        let back = seq![CommandView::Restore { savepoint: context, notify: false }];
        match item {
            CompletionItemView::Lsp(item) => StepView::ask(
                CommandView::FindServer(item.provider),
                StateView::AwaitServer { accept: false, entry: item },
            ),
            CompletionItemView::Other(item) => StepView::last(
                CommandView::ApplyTemporary(EditView::Given(item.transaction)),
            ),
        }.after(back)
    }

    /// Accepts an item: what was shown of another one is taken back, untold;
    /// then the document goes back to where the item belongs, and the step that
    /// one undo takes back ends there.
    pub open spec fn accept<S>(
        self,
        last: Option<CompleteActionView<S>>,
        item: CompletionItemView,
        context: S,
    ) -> StepView<S> {
        let shown = match last {
            Some(CompleteActionView::Selected { savepoint }) => seq![
                CommandView::Restore { savepoint, notify: false },
            ],
            _ => Seq::empty(),
        };
        let back = seq![
            CommandView::Restore { savepoint: context, notify: true },
            CommandView::AppendHistory,
        ];
        match item {
            CompletionItemView::Lsp(item) => StepView::ask(
                CommandView::FindServer(item.provider),
                StateView::AwaitServer { accept: true, entry: item },
            ),
            CompletionItemView::Other(item) => StepView::ask(
                CommandView::Apply(EditView::Given(item.transaction)),
                StateView::AwaitApplied { extra: Seq::empty(), snippet: false },
            ),
        }.after(seq![CommandView::Record(None)] + shown + back)
    }

    /// What to do first.
    pub open spec fn first<S>(
        self,
        event: PromptEvent,
        last: Option<CompleteActionView<S>>,
        item: Option<CompletionItemView>,
        context: Option<S>,
    ) -> StepView<S> {
        match event {
            PromptEvent::Abort => StepView::last(CommandView::TriggerSignatureHelp),
            PromptEvent::Update => if !self.preview_completion_insert {
                StepView::done()
            } else if last == Some(CompleteActionView::<S>::Triggered) {
                StepView::ask(
                    CommandView::TakeSavepoint,
                    StateView::AwaitSavepoint { selected: item->0, context: context->0 },
                )
            } else {
                self.show(item->0, context->0)
            },
            PromptEvent::Validate => self.accept(last, item->0, context->0),
        }
    }

    /// Turns an item into an edit: its range has to be found first.
    pub open spec fn locate<S>(self, accept: bool, item: LspItemView) -> StepView<S> {
        StepView::ask(
            CommandView::Locate(item.range_to_locate(self.replace_mode)),
            StateView::AwaitLocation { accept, item },
        )
    }

    /// Makes the edit.
    pub open spec fn make<S>(
        self,
        accept: bool,
        extra: Seq<TextEditView>,
        edit: EditView,
    ) -> StepView<S> {
        if accept {
            StepView::ask(
                CommandView::Apply(edit),
                StateView::AwaitApplied { extra, snippet: edit is Snippet },
            )
        } else {
            StepView::last(CommandView::ApplyTemporary(edit))
        }
    }

    /// What remains to be done once the edit of an accepted item is made.
    pub open spec fn conclude<S>(
        self,
        extra: Seq<TextEditView>,
        snippet: bool,
        changes: Seq<ChangeView>,
        snippet_active: bool,
    ) -> StepView<S> {
        let activate = if snippet {
            seq![CommandView::ActivateSnippet { nested: snippet_active }]
        } else {
            Seq::empty()
        };
        let record = seq![
            CommandView::Record(
                Some(
                    CompleteActionView::Applied {
                        trigger_offset: self.trigger_offset,
                        changes: changes.filter(
                            |c: ChangeView| touches(c, self.trigger_offset),
                        ),
                        placeholder: snippet,
                    },
                ),
            ),
        ];
        let edits = if extra.len() > 0 {
            seq![CommandView::ApplyEdits(extra)]
        } else {
            Seq::empty()
        };
        StepView {
            commands: activate + record + edits + seq![
                CommandView::TriggerCompletion,
                CommandView::TriggerSignatureHelp,
            ],
            state: StateView::Finished,
        }
    }

    /// What to do after an answer. One that was not asked for changes nothing.
    pub open spec fn next<S>(self, state: StateView<S>, reply: ReplyView<S>) -> StepView<S> {
        match (state, reply) {
            (
                StateView::AwaitSavepoint { selected: item, context },
                ReplyView::Savepoint(savepoint),
            ) => {
                self.show(item, context).after(
                    seq![CommandView::Record(Some(CompleteActionView::Selected { savepoint }))],
                )
            },
            (StateView::AwaitServer { .. }, ReplyView::Server(None)) => StepView::last(
                CommandView::SetError(outdated()),
            ),
            (
                StateView::AwaitServer { accept, entry: item },
                ReplyView::Server(Some(capabilities)),
            ) => if accept && !item.resolved && capabilities.resolves() {
                StepView::ask(
                    CommandView::Resolve(item.item),
                    StateView::AwaitResolved { item: item.item },
                )
            } else {
                self.locate(accept, item.item)
            },
            (StateView::AwaitResolved { item }, ReplyView::Resolved(resolved)) => self.locate(
                true,
                match resolved {
                    Some(resolved) => resolved,
                    None => item,
                },
            ),
            (
                StateView::AwaitLocation { accept, item },
                ReplyView::Located { primary_cursor, range },
            ) => match item.planned(primary_cursor, range, self.replace_mode) {
                EditView::Snippet(text) => StepView::ask(
                    CommandView::ParseSnippet(text.new_text),
                    StateView::AwaitSnippet { accept, extra: item.extra_edits(), text },
                ),
                edit => self.make(accept, item.extra_edits(), edit),
            },
            (
                StateView::AwaitSnippet { accept, extra, text },
                ReplyView::Parsed(is_snippet),
            ) => self.make(
                accept,
                extra,
                if is_snippet {
                    EditView::Snippet(text)
                } else {
                    EditView::Unchanged
                },
            ),
            (
                StateView::AwaitApplied { extra, snippet },
                ReplyView::Applied { changes, snippet_active },
            ) => self.conclude(extra, snippet, changes, snippet_active),
            _ => StepView { commands: Seq::empty(), state },
        }
    }

    /// Whether the answer can be given: where an item brings no range of its own,
    /// the main cursor is still where the completion was triggered.
    pub open spec fn can_follow<S>(self, state: StateView<S>, reply: ReplyView<S>) -> bool {
        match (state, reply) {
            (StateView::AwaitLocation { item, .. }, ReplyView::Located { primary_cursor, .. }) => {
                item.text_edit is None ==> primary_cursor == self.trigger_offset
            },
            _ => true,
        }
    }

    /// Whether the event needs an item and the savepoint of the source that it
    /// comes from.
    pub open spec fn needs_item(self, event: PromptEvent) -> bool {
        match event {
            PromptEvent::Abort => false,
            PromptEvent::Update => self.preview_completion_insert,
            PromptEvent::Validate => true,
        }
    }
}

/// A step with nothing to do but these commands, for which no answer is awaited.
fn finish<S>(commands: Vec<Command<S>>) -> (r: Step<S>)
    ensures
        r@ == (StepView { commands: commands_view(commands@), state: StateView::<S>::Finished }),
{
    Step { commands, state: State::Finished }
}

/// Adding a command to the end adds it to the end of what the list holds.
proof fn commands_push<S>(commands: Seq<Command<S>>, command: Command<S>)
    ensures
        commands_view(commands.push(command)) == commands_view(commands).push(command@),
{
    assert(commands_view(commands.push(command)) =~= commands_view(commands).push(command@));
}

impl Insertion {
    /// Whether the event needs an item and the savepoint of the source that it
    /// comes from.
    pub fn wants_item(&self, event: PromptEvent) -> (r: bool)
        ensures
            r == self.needs_item(event),
    {
        match event {
            PromptEvent::Abort => false,
            PromptEvent::Update => self.preview_completion_insert,
            PromptEvent::Validate => true,
        }
    }

    /// Shows a selected item, after what is in `commands`.
    fn show_after<S>(&self, commands: Vec<Command<S>>, item: CompletionItem, context: S) -> (r:
        Step<S>)
        ensures
            r@ == self.show(item@, context).after(commands_view(commands@)),
    {
        let mut commands = commands;
        let ghost before = commands_view(commands@);
        let back = Command::Restore { savepoint: context, notify: false };
        proof {
            commands_push(commands@, back);
        }
        commands.push(back);
        match item {
            CompletionItem::Lsp(item) => {
                let find = Command::FindServer(item.provider);
                proof {
                    commands_push(commands@, find);
                }
                commands.push(find);
                let r = Step { commands, state: State::AwaitServer { accept: false, entry: item } };
                assert(r@.commands =~= self.show(
                    CompletionItemView::Lsp(item@),
                    context,
                ).after(before).commands);
                r
            },
            CompletionItem::Other(item) => {
                let apply = Command::ApplyTemporary(Edit::Given(item.transaction));
                proof {
                    commands_push(commands@, apply);
                }
                commands.push(apply);
                let r = finish(commands);
                assert(r@.commands =~= self.show(
                    CompletionItemView::Other(item@),
                    context,
                ).after(before).commands);
                r
            },
        }
    }

    /// Accepts an item.
    fn start_accept<S>(
        &self,
        last: Option<CompleteAction<S>>,
        item: CompletionItem,
        context: S,
    ) -> (r: Step<S>)
        ensures
            r@ == self.accept(action_view(last), item@, context),
    {
        let mut commands: Vec<Command<S>> = Vec::new();
        commands.push(Command::Record(None));
        if let Some(CompleteAction::Selected { savepoint }) = last {
            commands.push(Command::Restore { savepoint, notify: false });
        }
        commands.push(Command::Restore { savepoint: context, notify: true });
        commands.push(Command::AppendHistory);
        match item {
            CompletionItem::Lsp(item) => {
                commands.push(Command::FindServer(item.provider));
                let r = Step { commands, state: State::AwaitServer { accept: true, entry: item } };
                assert(r@.commands =~= self.accept(
                    action_view(last),
                    CompletionItemView::Lsp(item@),
                    context,
                ).commands);
                r
            },
            CompletionItem::Other(item) => {
                commands.push(Command::Apply(Edit::Given(item.transaction)));
                let extra: Vec<TextEdit> = Vec::new();
                let r = Step { commands, state: State::AwaitApplied { extra, snippet: false } };
                assert(edits_view(extra@) =~= Seq::empty());
                assert(r@.commands =~= self.accept(
                    action_view(last),
                    CompletionItemView::Other(item@),
                    context,
                ).commands);
                r
            },
        }
    }

    /// Says what to do when the user has done something in the menu.
    ///
    /// `last` is how far the completion has come, `item` the selected item, and
    /// `context` the savepoint of the document from when the source of the item
    /// was asked.
    pub fn start<S>(
        &self,
        event: PromptEvent,
        last: Option<CompleteAction<S>>,
        item: Option<CompletionItem>,
        context: Option<S>,
    ) -> (r: Step<S>)
        requires
            self.needs_item(event) ==> item is Some && context is Some,
        ensures
            r@ == self.first(
                event,
                action_view(last),
                match item {
                    Some(item) => Some(item@),
                    None => None,
                },
                context,
            ),
    {
        let mut commands: Vec<Command<S>> = Vec::new();
        assert(commands_view(commands@) =~= Seq::empty());
        match event {
            PromptEvent::Abort => {
                commands.push(Command::TriggerSignatureHelp);
                let r = finish(commands);
                assert(r@.commands =~= seq![CommandView::<S>::TriggerSignatureHelp]);
                r
            },
            PromptEvent::Update => {
                if !self.preview_completion_insert {
                    return finish(commands);
                }
                let item = item.unwrap();
                let context = context.unwrap();
                match last {
                    Some(CompleteAction::Triggered) => {
                        commands.push(Command::TakeSavepoint);
                        let r = Step {
                            commands,
                            state: State::AwaitSavepoint { selected: item, context },
                        };
                        assert(r@.commands =~= seq![CommandView::<S>::TakeSavepoint]);
                        r
                    },
                    _ => {
                        let r = self.show_after(commands, item, context);
                        assert(r@.commands =~= self.show(item@, context).commands);
                        r
                    },
                }
            },
            PromptEvent::Validate => self.start_accept(last, item.unwrap(), context.unwrap()),
        }
    }

    /// Asks for the range of an item.
    fn start_locate<S>(&self, accept: bool, item: LspItem) -> (r: Step<S>)
        ensures
            r@ == self.locate::<S>(accept, item@),
    {
        let mut commands: Vec<Command<S>> = Vec::new();
        commands.push(Command::Locate(range_to_locate(&item, self.replace_mode)));
        let r = Step { commands, state: State::AwaitLocation { accept, item } };
        assert(r@.commands =~= self.locate::<S>(accept, item@).commands);
        r
    }

    /// Makes an edit.
    fn start_make<S>(&self, accept: bool, extra: Vec<TextEdit>, edit: Edit) -> (r: Step<S>)
        ensures
            r@ == self.make::<S>(accept, edits_view(extra@), edit@),
    {
        let mut commands: Vec<Command<S>> = Vec::new();
        if accept {
            let snippet = match &edit {
                Edit::Snippet(_) => true,
                _ => false,
            };
            commands.push(Command::Apply(edit));
            let r = Step { commands, state: State::AwaitApplied { extra, snippet } };
            assert(r@.commands =~= seq![CommandView::<S>::Apply(edit@)]);
            r
        } else {
            commands.push(Command::ApplyTemporary(edit));
            let r = finish(commands);
            assert(r@.commands =~= seq![CommandView::<S>::ApplyTemporary(edit@)]);
            r
        }
    }

    /// Does what remains once the edit of an accepted item is made.
    fn start_conclude<S>(
        &self,
        extra: Vec<TextEdit>,
        snippet: bool,
        transaction: Transaction,
        snippet_active: bool,
    ) -> (r: Step<S>)
        ensures
            r@ == self.conclude::<S>(edits_view(extra@), snippet, transaction@, snippet_active),
    {
        let mut commands: Vec<Command<S>> = Vec::new();
        if snippet {
            commands.push(Command::ActivateSnippet { nested: snippet_active });
        }
        commands.push(
            Command::Record(
                Some(
                    CompleteAction::Applied {
                        trigger_offset: self.trigger_offset,
                        changes: completion_changes(&transaction, self.trigger_offset),
                        placeholder: snippet,
                    },
                ),
            ),
        );
        if extra.len() > 0 {
            commands.push(Command::ApplyEdits(extra));
        }
        commands.push(Command::TriggerCompletion);
        commands.push(Command::TriggerSignatureHelp);
        let r = finish(commands);
        assert(r@.commands =~= self.conclude::<S>(
            edits_view(extra@),
            snippet,
            transaction@,
            snippet_active,
        ).commands);
        r
    }

    /// Says what to do after an answer.
    pub fn resume<S>(&self, state: State<S>, reply: Reply<S>) -> (r: Step<S>)
        requires
            self.can_follow(state@, reply@),
        ensures
            r@ == self.next(state@, reply@),
    {
        let mut commands: Vec<Command<S>> = Vec::new();
        assert(commands_view(commands@) =~= Seq::empty());
        match (state, reply) {
            (State::AwaitSavepoint { selected: item, context }, Reply::Savepoint(savepoint)) => {
                let record = Command::Record(Some(CompleteAction::Selected { savepoint }));
                commands.push(record);
                assert(commands_view(commands@) =~= seq![record@]);
                self.show_after(commands, item, context)
            },
            (State::AwaitServer { accept, entry: item }, Reply::Server(capabilities)) => {
                let capabilities = match capabilities {
                    Some(capabilities) => capabilities,
                    None => {
                        commands.push(Command::SetError("completions are outdated"));
                        let r = finish(commands);
                        assert(r@.commands =~= seq![CommandView::<S>::SetError(outdated())]);
                        return r;
                    },
                };
                if accept && !item.resolved && capabilities.can_resolve() {
                    commands.push(Command::Resolve(item.item.copy()));
                    let r = Step { commands, state: State::AwaitResolved { item: item.item } };
                    assert(r@.commands =~= seq![CommandView::<S>::Resolve(item.item@)]);
                    r
                } else {
                    self.start_locate(accept, item.item)
                }
            },
            (State::AwaitResolved { item }, Reply::Resolved(resolved)) => {
                let item = match resolved {
                    Some(resolved) => resolved,
                    None => item,
                };
                self.start_locate(true, item)
            },
            (State::AwaitLocation { accept, item }, Reply::Located { primary_cursor, range }) => {
                let edit = lsp_item_to_transaction(
                    &item,
                    primary_cursor,
                    range,
                    self.trigger_offset,
                    self.replace_mode,
                );
                let extra = match item.additional_text_edits {
                    Some(edits) => edits,
                    None => Vec::new(),
                };
                assert(edits_view(extra@) =~= item@.extra_edits());
                match edit {
                    Edit::Snippet(text) => {
                        commands.push(Command::ParseSnippet(text.new_text.clone()));
                        let r = Step {
                            commands,
                            state: State::AwaitSnippet { accept, extra, text },
                        };
                        assert(r@.commands =~= seq![
                            CommandView::<S>::ParseSnippet(text@.new_text),
                        ]);
                        r
                    },
                    edit => self.start_make(accept, extra, edit),
                }
            },
            (State::AwaitSnippet { accept, extra, text }, Reply::Parsed(is_snippet)) => {
                let edit = if is_snippet {
                    Edit::Snippet(text)
                } else {
                    Edit::Unchanged
                };
                self.start_make(accept, extra, edit)
            },
            (
                State::AwaitApplied { extra, snippet },
                Reply::Applied { transaction, snippet_active },
            ) => self.start_conclude(extra, snippet, transaction, snippet_active),
            (state, _) => Step { commands, state },
        }
    }
}

} // verus!
