//! What is done when an item is selected or accepted, command by command.
use vstd::prelude::*;

use crate::edits::{
    changes_view, edits_view, touches, ChangeView, CompletionTextEdit, TextEditView,
};
use crate::insertion::{
    action_view, commands_view, Command, CommandView, CompleteAction, CompleteActionView,
    Edit, EditView, Insertion, PlannedText, PlannedTextView, PromptEvent, Reply, ReplyView,
    ServerCapabilities, State, StateView, Step, StepView,
};
use crate::items::{
    CompletionItemKind, CompletionItemView, InsertTextFormat, LspCompletionItemView, LspItem,
    LspItemView, OtherItemView,
};
use crate::menu_laws::filter_alike;
use crate::runs::{finished_does_nothing, run, run_prefix, state_after};

verus! {

/// The text that an edit puts into the document.
pub open spec fn text_of(edit: EditView) -> PlannedTextView {
    match edit {
        EditView::Snippet(text) => text,
        _ => edit->Plain_0,
    }
}

/// An item with an edit whose range was found replaces exactly that range, counted
/// from the cursor, by the text of the edit; of two ranges it is the one that the
/// mode asks for. That the text is a snippet changes nothing but the kind of the
/// edit.
pub proof fn found_ranges_give_way(
    item: LspItem,
    edit: CompletionTextEdit,
    primary_cursor: usize,
    anchor: usize,
    head: usize,
    replace_mode: bool,
)
    requires
        item.text_edit == Some(edit),
    ensures
        ({
            let planned = item@.planned(primary_cursor, Some((anchor, head)), replace_mode);
            let text = text_of(planned);
            let snippet = item.kind == Some(CompletionItemKind::Snippet) || item.insert_text_format
                == Some(InsertTextFormat::Snippet);
            &&& snippet ==> planned is Snippet
            &&& !snippet ==> planned is Plain
            &&& text.edit_offset is Some
            &&& (text.edit_offset->0).0 == anchor - primary_cursor
            &&& (text.edit_offset->0).1 == head - primary_cursor
            &&& text.replace_mode == replace_mode
            &&& edit matches CompletionTextEdit::Edit(one) ==> text.new_text == one.new_text@
            &&& edit matches CompletionTextEdit::InsertAndReplace { new_text, .. }
                ==> text.new_text == new_text@
            &&& edit matches CompletionTextEdit::Edit(one) ==> item@.range_to_locate(replace_mode)
                == Some(one.range)
            &&& edit matches CompletionTextEdit::InsertAndReplace { insert, replace, .. }
                ==> item@.range_to_locate(replace_mode) == Some(
                if replace_mode {
                    replace
                } else {
                    insert
                },
            )
        }),
{
}

/// An item with an edit whose range was not found changes nothing.
pub proof fn lost_ranges_change_nothing(item: LspItem, primary_cursor: usize, replace_mode: bool)
    requires
        item.text_edit is Some,
    ensures
        item@.planned(primary_cursor, None, replace_mode) is Unchanged,
{
}

/// An item without an edit puts in its text, or its label where it has none, and
/// leaves it to the editor what gives way.
pub proof fn texts_without_a_range_are_inserted(
    item: LspItem,
    primary_cursor: usize,
    range: Option<(usize, usize)>,
    replace_mode: bool,
)
    requires
        item.text_edit is None,
    ensures
        ({
            let planned = item@.planned(primary_cursor, range, replace_mode);
            let text = text_of(planned);
            let snippet = item.kind == Some(CompletionItemKind::Snippet) || item.insert_text_format
                == Some(InsertTextFormat::Snippet);
            &&& snippet ==> planned is Snippet
            &&& !snippet ==> planned is Plain
            &&& text.edit_offset is None
            &&& text.replace_mode == replace_mode
            &&& item.insert_text matches Some(insert) ==> text.new_text == insert@
            &&& item.insert_text is None ==> text.new_text == item.label@
            &&& item@.range_to_locate(replace_mode) is None
        }),
{
}

/// Whether two items agree in their edit, and in what stands in for it, their text
/// does not change with anything else that they hold.
pub proof fn snippets_change_only_the_kind_of_the_edit(
    one: LspItem,
    another: LspItem,
    primary_cursor: usize,
    range: Option<(usize, usize)>,
    replace_mode: bool,
)
    requires
        one@.text_edit == another@.text_edit,
        one@.insert_text == another@.insert_text,
        one@.label == another@.label,
        one.text_edit is None || range is Some,
    ensures
        text_of(one@.planned(primary_cursor, range, replace_mode)) == text_of(
            another@.planned(primary_cursor, range, replace_mode),
        ),
{
}

/// The views of what is planned hold what is planned.
pub proof fn edit_plan_views_hold_their_fields(text: PlannedText, edit: Edit)
    ensures
        text@.edit_offset == text.edit_offset,
        text@.replace_mode == text.replace_mode,
        text@.new_text == text.new_text@,
        edit is Unchanged ==> edit@ is Unchanged,
        edit matches Edit::Given(transaction) ==> edit@ == EditView::Given(transaction@),
        edit matches Edit::Plain(text) ==> edit@ == EditView::Plain(text@),
        edit matches Edit::Snippet(text) ==> edit@ == EditView::Snippet(text@),
{
}

/// The views of commands, in a step one after the other, say what is commanded.
pub proof fn command_views_say_what_to_do<S>(command: Command<S>, step: Step<S>)
    ensures
        command is TakeSavepoint ==> command@ is TakeSavepoint,
        command matches Command::Record(action) ==> command@ == CommandView::Record(
            action_view(action),
        ),
        command matches Command::Restore { savepoint, notify } ==> command@ == (
        CommandView::Restore { savepoint, notify }),
        command is AppendHistory ==> command@ is AppendHistory,
        command matches Command::FindServer(id) ==> command@ == CommandView::<S>::FindServer(id),
        command matches Command::SetError(message) ==> command@ == CommandView::<S>::SetError(
            message@,
        ),
        command matches Command::Resolve(item) ==> command@ == CommandView::<S>::Resolve(item@),
        command matches Command::Locate(range) ==> command@ == CommandView::<S>::Locate(range),
        command matches Command::ParseSnippet(text) ==> command@
            == CommandView::<S>::ParseSnippet(text@),
        command matches Command::ApplyTemporary(edit) ==> command@
            == CommandView::<S>::ApplyTemporary(edit@),
        command matches Command::Apply(edit) ==> command@ == CommandView::<S>::Apply(edit@),
        command matches Command::ActivateSnippet { nested } ==> command@ == (
        CommandView::<S>::ActivateSnippet { nested }),
        command matches Command::ApplyEdits(edits) ==> command@ == CommandView::<S>::ApplyEdits(
            edits_view(edits@),
        ),
        command is TriggerCompletion ==> command@ is TriggerCompletion,
        command is TriggerSignatureHelp ==> command@ is TriggerSignatureHelp,
        step@.state == step.state@,
        step@.commands == commands_view(step.commands@),
        step@.commands.len() == step.commands@.len(),
        forall|i: int|
            0 <= i < step.commands@.len() ==> #[trigger] step@.commands[i] == step.commands@[i]@,
{
}

/// The views of what is noted and of answers hold what is noted and answered.
pub proof fn action_and_reply_views_hold_their_fields<S>(
    action: CompleteAction<S>,
    reply: Reply<S>,
    state: State<S>,
)
    ensures
        action_view(Some(action)) == Some(action@),
        action_view::<S>(None) is None,
        action is Triggered ==> action@ is Triggered,
        action matches CompleteAction::Selected { savepoint } ==> action@ == (
        CompleteActionView::Selected { savepoint }),
        action matches CompleteAction::Applied { trigger_offset, changes, placeholder } ==> action@
            == (CompleteActionView::<S>::Applied {
            trigger_offset,
            changes: changes_view(changes@),
            placeholder,
        }),
        reply matches Reply::Savepoint(savepoint) ==> reply@ == ReplyView::Savepoint(savepoint),
        reply matches Reply::Server(capabilities) ==> reply@ == ReplyView::<S>::Server(
            capabilities,
        ),
        reply matches Reply::Resolved(None) ==> reply@ == ReplyView::<S>::Resolved(None),
        reply matches Reply::Resolved(Some(item)) ==> reply@ == ReplyView::<S>::Resolved(
            Some(item@),
        ),
        reply matches Reply::Located { primary_cursor, range } ==> reply@ == (
        ReplyView::<S>::Located { primary_cursor, range }),
        reply matches Reply::Parsed(is_snippet) ==> reply@ == ReplyView::<S>::Parsed(is_snippet),
        reply matches Reply::Applied { transaction, snippet_active } ==> reply@ == (
        ReplyView::<S>::Applied { changes: transaction@, snippet_active }),
        state is Finished <==> state@ is Finished,
{
}

/// A server fills in items exactly if it says so in what it can do with
/// completions.
pub proof fn servers_resolve_if_they_say_so(capabilities: ServerCapabilities)
    ensures
        capabilities.resolves() <==> capabilities.completion_provider is Some
            && capabilities.completion_provider->0.resolve_provider == Some(true),
{
}

/// An item is needed to accept one, and to show one where items are shown; leaving
/// the menu needs none.
pub proof fn items_are_needed_to_show_or_accept(insertion: Insertion)
    ensures
        insertion.needs_item(PromptEvent::Validate),
        insertion.needs_item(PromptEvent::Update) == insertion.preview_completion_insert,
        !insertion.needs_item(PromptEvent::Abort),
{
}

/// Every answer can be given, but for a cursor that has left the place where the
/// completion was triggered, where the item brings no range of its own.
pub proof fn only_a_moved_cursor_is_no_answer<S>(
    insertion: Insertion,
    state: StateView<S>,
    reply: ReplyView<S>,
)
    ensures
        insertion.can_follow(state, reply) <==> !(state is AwaitLocation && (
        state->AwaitLocation_item).text_edit is None && reply is Located && reply->primary_cursor
            != insertion.trigger_offset),
{
}

/// Leaving the menu shows the signature, and does nothing else.
pub proof fn leaving_shows_only_the_signature<S>(
    insertion: Insertion,
    last: Option<CompleteActionView<S>>,
    item: Option<CompletionItemView>,
    context: Option<S>,
    replies: Seq<ReplyView<S>>,
)
    ensures
        run(insertion, insertion.first(PromptEvent::Abort, last, item, context), replies) == seq![
            CommandView::<S>::TriggerSignatureHelp,
        ],
{
    finished_does_nothing(insertion, seq![CommandView::<S>::TriggerSignatureHelp], replies);
}

/// The answers from the first one on of a certain sort.
pub open spec fn from_first<S>(
    replies: Seq<ReplyView<S>>,
    awaited: spec_fn(ReplyView<S>) -> bool,
) -> Seq<ReplyView<S>>
    decreases replies.len(),
{
    if replies.len() == 0 || awaited(replies[0]) {
        replies
    } else {
        from_first(replies.drop_first(), awaited)
    }
}

/// A run does what its first step says and then waits for an awaited answer;
/// others change nothing.
proof fn run_waits<S>(
    insertion: Insertion,
    step: StepView<S>,
    replies: Seq<ReplyView<S>>,
    awaited: spec_fn(ReplyView<S>) -> bool,
)
    requires
        forall|r: ReplyView<S>|
            !awaited(r) ==> (#[trigger] insertion.next(step.state, r)) == (StepView {
                commands: Seq::<CommandView<S>>::empty(),
                state: step.state,
            }),
    ensures
        ({
            let rest = from_first(replies, awaited);
            &&& rest.len() > 0 ==> awaited(rest[0])
            &&& rest.len() == 0 ==> run(insertion, step, replies) == step.commands && state_after(
                insertion,
                step.state,
                replies,
            ) == step.state
            &&& rest.len() > 0 ==> run(insertion, step, replies) == step.commands + run(
                insertion,
                insertion.next(step.state, rest[0]),
                rest.drop_first(),
            ) && state_after(insertion, step.state, replies) == state_after(
                insertion,
                insertion.next(step.state, rest[0]).state,
                rest.drop_first(),
            )
        }),
    decreases replies.len(),
{
    if replies.len() > 0 && !awaited(replies[0]) {
        let idle = StepView { commands: Seq::<CommandView<S>>::empty(), state: step.state };
        assert(insertion.next(step.state, replies[0]) == idle);
        run_waits(insertion, idle, replies.drop_first(), awaited);
        let rest = from_first(replies, awaited);
        if rest.len() == 0 {
            assert(step.commands + idle.commands =~= step.commands);
        } else {
            let later = run(insertion, insertion.next(step.state, rest[0]), rest.drop_first());
            assert(step.commands + (idle.commands + later) =~= step.commands + later);
        }
    }
}

/// Whether the text of the item is a snippet.
pub open spec fn text_is_snippet(item: LspItemView) -> bool {
    item.kind == Some(CompletionItemKind::Snippet) || item.insert_text_format == Some(
        InsertTextFormat::Snippet,
    )
}

/// What is known of an item once the answers have come that turn it into an edit.
pub struct Answers {
    /// The main cursor, and the range of the item in the document.
    pub primary_cursor: usize,
    pub range: Option<(usize, usize)>,
    /// Whether the text could be read as a snippet; it does not matter where it
    /// was not asked for.
    pub parsed: bool,
}

/// Whether the text of the item has to be read as a snippet.
pub open spec fn is_parsed(item: LspItemView, answers: Answers) -> bool {
    text_is_snippet(item) && (item.text_edit is Some ==> answers.range is Some)
}

/// The edit that is made of an item in the end: none where its range is lost or
/// its text turns out to be no snippet.
pub open spec fn made_edit(item: LspItemView, answers: Answers, replace_mode: bool) -> EditView {
    if is_parsed(item, answers) && !answers.parsed {
        EditView::Unchanged
    } else {
        item.planned(answers.primary_cursor, answers.range, replace_mode)
    }
}

/// What is done to turn an item into an edit: its range is looked up, and its text
/// is read where it is a snippet.
pub open spec fn turning<S>(
    item: LspItemView,
    answers: Answers,
    replace_mode: bool,
) -> Seq<CommandView<S>> {
    seq![CommandView::<S>::Locate(item.range_to_locate(replace_mode))] + if is_parsed(
        item,
        answers,
    ) {
        seq![
            CommandView::<S>::ParseSnippet(
                text_of(
                    item.planned(answers.primary_cursor, answers.range, replace_mode),
                ).new_text,
            ),
        ]
    } else {
        Seq::empty()
    }
}

/// The answers that turn an item into an edit, and those that come after them;
/// `None` where one of them does not come.
pub open spec fn answers_of<S>(item: LspItemView, replies: Seq<ReplyView<S>>) -> Option<
    (Answers, Seq<ReplyView<S>>),
> {
    let located = from_first(replies, |r: ReplyView<S>| r is Located);
    if located.len() == 0 {
        None
    } else {
        let answers = Answers {
            primary_cursor: located[0]->primary_cursor,
            range: located[0]->range,
            parsed: true,
        };
        let rest = located.drop_first();
        if !is_parsed(item, answers) {
            Some((answers, rest))
        } else {
            let parsed = from_first(rest, |r: ReplyView<S>| r is Parsed);
            if parsed.len() == 0 {
                None
            } else {
                Some((Answers { parsed: parsed[0]->Parsed_0, ..answers }, parsed.drop_first()))
            }
        }
    }
}

/// An item is turned into the edit that the answers make of it, and nothing is
/// lost on the way.
proof fn turning_an_item<S>(
    insertion: Insertion,
    accept: bool,
    item: LspItemView,
    replies: Seq<ReplyView<S>>,
)
    ensures
        answers_of(item, replies) is None ==> {
            let state = state_after(insertion, insertion.locate::<S>(accept, item).state, replies);
            !(state is Finished)
        },
        answers_of(item, replies) matches Some((answers, rest)) ==> {
            let made = insertion.make::<S>(
                accept,
                match item.additional_text_edits {
                    Some(edits) => edits,
                    None => Seq::empty(),
                },
                made_edit(item, answers, insertion.replace_mode),
            );
            &&& run(insertion, insertion.locate::<S>(accept, item), replies) == turning::<S>(
                item,
                answers,
                insertion.replace_mode,
            ) + run(insertion, made, rest)
            &&& state_after(insertion, insertion.locate::<S>(accept, item).state, replies)
                == state_after(insertion, made.state, rest)
        },
{
    let step = insertion.locate::<S>(accept, item);
    let is_located = |r: ReplyView<S>| r is Located;
    run_waits(insertion, step, replies, is_located);
    let located = from_first(replies, is_located);
    if located.len() > 0 {
        let next = insertion.next(step.state, located[0]);
        let rest = located.drop_first();
        let answers = Answers {
            primary_cursor: located[0]->primary_cursor,
            range: located[0]->range,
            parsed: true,
        };
        if is_parsed(item, answers) {
            let is_answer = |r: ReplyView<S>| r is Parsed;
            run_waits(insertion, next, rest, is_answer);
            let parsed = from_first(rest, is_answer);
            if parsed.len() > 0 {
                let last = run(
                    insertion,
                    insertion.next(next.state, parsed[0]),
                    parsed.drop_first(),
                );
                assert(step.commands + (next.commands + last) =~= step.commands + next.commands
                    + last);
                let answers = Answers { parsed: parsed[0]->Parsed_0, ..answers };
                assert(turning::<S>(item, answers, insertion.replace_mode) =~= step.commands
                    + next.commands);
            }
        } else {
            assert(turning::<S>(item, answers, insertion.replace_mode) =~= step.commands);
        }
    }
}

/// What is done before an item is looked at: what was shown is taken back without
/// telling the servers, and the document goes back to where the item belongs, which
/// the servers are told.
pub open spec fn going_back<S>(last: Option<CompleteActionView<S>>, context: S) -> Seq<
    CommandView<S>,
> {
    match last {
        Some(CompleteActionView::Selected { savepoint }) => seq![
            CommandView::Record(None),
            CommandView::Restore { savepoint, notify: false },
            CommandView::Restore { savepoint: context, notify: true },
            CommandView::AppendHistory,
        ],
        _ => seq![
            CommandView::Record(None),
            CommandView::Restore { savepoint: context, notify: true },
            CommandView::AppendHistory,
        ],
    }
}

/// What is done once the edit of an accepted item is made: its places are visited
/// where it is a snippet, the changes at the place of the completion are noted, the
/// additional edits are made, and completions and the signature are asked for.
pub open spec fn concluding<S>(
    trigger_offset: usize,
    extra: Seq<TextEditView>,
    snippet: bool,
    changes: Seq<ChangeView>,
    snippet_active: bool,
) -> Seq<CommandView<S>> {
    (if snippet {
        seq![CommandView::<S>::ActivateSnippet { nested: snippet_active }]
    } else {
        Seq::empty()
    }) + seq![
        CommandView::<S>::Record(
            Some(
                CompleteActionView::Applied {
                    trigger_offset,
                    changes: changes.filter(
                        |c: ChangeView| c.0 <= trigger_offset && trigger_offset <= c.1,
                    ),
                    placeholder: snippet,
                },
            ),
        ),
    ] + (if extra.len() > 0 {
        seq![CommandView::<S>::ApplyEdits(extra)]
    } else {
        Seq::empty()
    }) + seq![CommandView::<S>::TriggerCompletion, CommandView::<S>::TriggerSignatureHelp]
}

/// After the edit of an accepted item, the run waits for what was changed, and
/// concludes.
proof fn applying_is_concluded<S>(
    insertion: Insertion,
    extra: Seq<TextEditView>,
    edit: EditView,
    replies: Seq<ReplyView<S>>,
)
    ensures
        ({
            let step = insertion.make::<S>(true, extra, edit);
            let applied = from_first(replies, |r: ReplyView<S>| r is Applied);
            &&& applied.len() == 0 ==> !(state_after(insertion, step.state, replies) is Finished)
            &&& applied.len() > 0 ==> run(insertion, step, replies) == seq![
                CommandView::<S>::Apply(edit),
            ] + concluding::<S>(
                insertion.trigger_offset,
                extra,
                edit is Snippet,
                applied[0]->changes,
                applied[0]->snippet_active,
            )
        }),
{
    let step = insertion.make::<S>(true, extra, edit);
    let is_applied = |r: ReplyView<S>| r is Applied;
    run_waits(insertion, step, replies, is_applied);
    let applied = from_first(replies, is_applied);
    if applied.len() > 0 {
        let next = insertion.next(step.state, applied[0]);
        finished_does_nothing(insertion, next.commands, applied.drop_first());
        let changes = applied[0]->changes;
        let offset = insertion.trigger_offset;
        filter_alike(
            changes,
            |c: ChangeView| touches(c, offset),
            |c: ChangeView| c.0 <= offset && offset <= c.1,
        );
        assert(next.commands =~= concluding::<S>(
            offset,
            extra,
            edit is Snippet,
            changes,
            applied[0]->snippet_active,
        ));
    }
}

/// An item of the editor that is accepted is applied as it is, after going back;
/// no additional edits are made.
pub proof fn accepting_an_item_of_the_editor<S>(
    insertion: Insertion,
    last: Option<CompleteActionView<S>>,
    item: OtherItemView,
    context: S,
    replies: Seq<ReplyView<S>>,
)
    requires
        state_after(
            insertion,
            insertion.first(
                PromptEvent::Validate,
                last,
                Some(CompletionItemView::Other(item)),
                Some(context),
            ).state,
            replies,
        ) is Finished,
    ensures
        ({
            let applied = from_first(replies, |r: ReplyView<S>| r is Applied);
            &&& applied.len() > 0
            &&& run(
                insertion,
                insertion.first(
                    PromptEvent::Validate,
                    last,
                    Some(CompletionItemView::Other(item)),
                    Some(context),
                ),
                replies,
            ) == going_back(last, context) + seq![
                CommandView::<S>::Apply(EditView::Given(item.transaction)),
            ] + concluding::<S>(
                insertion.trigger_offset,
                Seq::empty(),
                false,
                applied[0]->changes,
                applied[0]->snippet_active,
            )
        }),
{
    let step = insertion.first(
        PromptEvent::Validate,
        last,
        Some(CompletionItemView::Other(item)),
        Some(context),
    );
    let edit = EditView::Given(item.transaction);
    let made = insertion.make::<S>(true, Seq::empty(), edit);
    let begin = going_back(last, context);
    applying_is_concluded::<S>(insertion, Seq::empty(), edit, replies);
    assert(step.commands =~= begin + made.commands);
    run_prefix(insertion, made, begin, replies);
    let applied = from_first(replies, |r: ReplyView<S>| r is Applied);
    assert(run(insertion, step, replies) == begin + run(insertion, made, replies));
    let end = concluding::<S>(
        insertion.trigger_offset,
        Seq::empty(),
        false,
        applied[0]->changes,
        applied[0]->snippet_active,
    );
    assert(begin + (seq![CommandView::<S>::Apply(edit)] + end) =~= begin + seq![
        CommandView::<S>::Apply(edit),
    ] + end);
}

/// Whether an accepted item is filled in first: where that has not been done, and
/// the server can.
pub open spec fn is_filled_in(
    entry: LspCompletionItemView,
    capabilities: ServerCapabilities,
) -> bool {
    &&& !entry.resolved
    &&& capabilities.completion_provider is Some
    &&& capabilities.completion_provider->0.resolve_provider == Some(true)
}

/// The item that is accepted in the end, and the answers that come after it is
/// known: the one that the server filled in, where it was asked to and did; else
/// the one that was selected. `None` where an answer does not come.
pub open spec fn final_item<S>(entry: LspCompletionItemView, replies: Seq<ReplyView<S>>) -> Option<
    (LspItemView, Seq<ReplyView<S>>),
> {
    let server = from_first(replies, |r: ReplyView<S>| r is Server);
    if server.len() == 0 || server[0]->Server_0 is None {
        None
    } else if !is_filled_in(entry, server[0]->Server_0->0) {
        Some((entry.item, server.drop_first()))
    } else {
        let resolved = from_first(server.drop_first(), |r: ReplyView<S>| r is Resolved);
        if resolved.len() == 0 {
            None
        } else {
            Some(
                (
                    match resolved[0]->Resolved_0 {
                        Some(item) => item,
                        None => entry.item,
                    },
                    resolved.drop_first(),
                ),
            )
        }
    }
}

/// An item of a server that is accepted is turned into an edit, filled in first
/// where that is needed, and applied, after going back. All the additional edits of
/// the item that was applied are made after it, whatever kind of edit it was.
pub proof fn accepting_an_item_of_a_server<S>(
    insertion: Insertion,
    last: Option<CompleteActionView<S>>,
    entry: LspCompletionItemView,
    context: S,
    replies: Seq<ReplyView<S>>,
)
    requires
        state_after(
            insertion,
            insertion.first(
                PromptEvent::Validate,
                last,
                Some(CompletionItemView::Lsp(entry)),
                Some(context),
            ).state,
            replies,
        ) is Finished,
        // The server is still there.
        from_first(replies, |r: ReplyView<S>| r is Server).len() > 0 ==> from_first(
            replies,
            |r: ReplyView<S>| r is Server,
        )[0]->Server_0 is Some,
    ensures
        final_item(entry, replies) is Some,
        ({
            let server = from_first(replies, |r: ReplyView<S>| r is Server);
            let (item, rest) = final_item(entry, replies)->0;
            let (answers, rest) = answers_of(item, rest)->0;
            let edit = made_edit(item, answers, insertion.replace_mode);
            let applied = from_first(rest, |r: ReplyView<S>| r is Applied);
            &&& answers_of(item, (final_item(entry, replies)->0).1) is Some
            &&& applied.len() > 0
            &&& run(
                insertion,
                insertion.first(
                    PromptEvent::Validate,
                    last,
                    Some(CompletionItemView::Lsp(entry)),
                    Some(context),
                ),
                replies,
            ) == going_back(last, context) + seq![CommandView::<S>::FindServer(entry.provider)] + (
            if is_filled_in(entry, server[0]->Server_0->0) {
                seq![CommandView::<S>::Resolve(entry.item)]
            } else {
                Seq::empty()
            }) + turning::<S>(item, answers, insertion.replace_mode) + seq![
                CommandView::<S>::Apply(edit),
            ] + concluding::<S>(
                insertion.trigger_offset,
                match item.additional_text_edits {
                    Some(edits) => edits,
                    None => Seq::empty(),
                },
                edit is Snippet,
                applied[0]->changes,
                applied[0]->snippet_active,
            )
        }),
{
    let step = insertion.first(
        PromptEvent::Validate,
        last,
        Some(CompletionItemView::Lsp(entry)),
        Some(context),
    );
    let is_server = |r: ReplyView<S>| r is Server;
    run_waits(insertion, step, replies, is_server);
    let server = from_first(replies, is_server);
    assert(step.commands =~= going_back(last, context) + seq![
        CommandView::<S>::FindServer(entry.provider),
    ]);
    let next = insertion.next(step.state, server[0]);
    let fill = is_filled_in(entry, server[0]->Server_0->0);
    if fill {
        let is_resolved = |r: ReplyView<S>| r is Resolved;
        run_waits(insertion, next, server.drop_first(), is_resolved);
    }
    let (item, rest) = final_item(entry, replies)->0;
    turning_an_item::<S>(insertion, true, item, rest);
    let (answers, rest) = answers_of(item, rest)->0;
    let extra = match item.additional_text_edits {
        Some(edits) => edits,
        None => Seq::empty(),
    };
    let edit = made_edit(item, answers, insertion.replace_mode);
    applying_is_concluded::<S>(insertion, extra, edit, rest);
    let applied = from_first(rest, |r: ReplyView<S>| r is Applied);
    let asked = if fill {
        seq![CommandView::<S>::Resolve(entry.item)]
    } else {
        Seq::empty()
    };
    let turned = turning::<S>(item, answers, insertion.replace_mode);
    let apply = seq![CommandView::<S>::Apply(edit)];
    let end = concluding::<S>(
        insertion.trigger_offset,
        extra,
        edit is Snippet,
        applied[0]->changes,
        applied[0]->snippet_active,
    );
    assert(step.commands + (asked + (turned + (apply + end))) =~= step.commands + asked + turned
        + apply + end);
    assert(step.commands + (turned + (apply + end)) =~= step.commands + Seq::<
        CommandView<S>,
    >::empty() + turned + apply + end);
}

/// A finished run that accepts an item of a server that is still there makes the
/// additional edits of the item exactly once, all of them, after its edit, if it
/// has any, and none otherwise. Of an item that the server filled in, these are the
/// edits that it came back with.
pub proof fn additional_edits_are_made_once<S>(
    insertion: Insertion,
    last: Option<CompleteActionView<S>>,
    entry: LspCompletionItemView,
    context: S,
    replies: Seq<ReplyView<S>>,
)
    requires
        state_after(
            insertion,
            insertion.first(
                PromptEvent::Validate,
                last,
                Some(CompletionItemView::Lsp(entry)),
                Some(context),
            ).state,
            replies,
        ) is Finished,
        from_first(replies, |r: ReplyView<S>| r is Server).len() > 0 ==> from_first(
            replies,
            |r: ReplyView<S>| r is Server,
        )[0]->Server_0 is Some,
    ensures
        ({
            let commands = run(
                insertion,
                insertion.first(
                    PromptEvent::Validate,
                    last,
                    Some(CompletionItemView::Lsp(entry)),
                    Some(context),
                ),
                replies,
            );
            let n = commands.len() as int;
            let edits = (final_item(entry, replies)->0).0.additional_text_edits;
            &&& n >= 4
            &&& exists|a: int| 0 <= a < n - 3 && (#[trigger] commands[a]) is Apply
            &&& edits is Some && edits->0.len() > 0 ==> commands[n - 3]
                == CommandView::<S>::ApplyEdits(edits->0)
            &&& forall|i: int|
                0 <= i < n && (#[trigger] commands[i]) is ApplyEdits ==> i == n - 3 && edits is Some
                    && edits->0.len() > 0
        }),
{
    accepting_an_item_of_a_server(insertion, last, entry, context, replies);
    let server = from_first(replies, |r: ReplyView<S>| r is Server);
    let (item, rest) = final_item(entry, replies)->0;
    let (answers, rest) = answers_of(item, rest)->0;
    let edit = made_edit(item, answers, insertion.replace_mode);
    let applied = from_first(rest, |r: ReplyView<S>| r is Applied);
    let begin = going_back(last, context) + seq![CommandView::<S>::FindServer(entry.provider)] + (
    if is_filled_in(entry, server[0]->Server_0->0) {
        seq![CommandView::<S>::Resolve(entry.item)]
    } else {
        Seq::empty()
    }) + turning::<S>(item, answers, insertion.replace_mode);
    let end = concluding::<S>(
        insertion.trigger_offset,
        match item.additional_text_edits {
            Some(edits) => edits,
            None => Seq::empty(),
        },
        edit is Snippet,
        applied[0]->changes,
        applied[0]->snippet_active,
    );
    let commands = begin + seq![CommandView::<S>::Apply(edit)] + end;
    assert(commands[begin.len() as int] is Apply);
    assert(end.len() >= 3);
    assert forall|i: int| 0 <= i < begin.len() implies !((#[trigger] begin[i]) is ApplyEdits) by {}
    assert forall|i: int|
        0 <= i < commands.len() && (#[trigger] commands[i]) is ApplyEdits implies i > begin.len()
        && end[i - begin.len() - 1] is ApplyEdits by {
        if i < begin.len() {
            assert(commands[i] == begin[i]);
        }
    }
}

/// Where the server of an item is gone, the user is told so and nothing more is
/// done than going back, or only going back silently where the item was to be
/// shown.
pub proof fn gone_servers_end_everything<S>(
    insertion: Insertion,
    last: Option<CompleteActionView<S>>,
    entry: LspCompletionItemView,
    context: S,
    replies: Seq<ReplyView<S>>,
)
    requires
        from_first(replies, |r: ReplyView<S>| r is Server).len() > 0,
        from_first(replies, |r: ReplyView<S>| r is Server)[0]->Server_0 is None,
    ensures
        run(
            insertion,
            insertion.first(
                PromptEvent::Validate,
                last,
                Some(CompletionItemView::Lsp(entry)),
                Some(context),
            ),
            replies,
        ) == going_back(last, context) + seq![
            CommandView::<S>::FindServer(entry.provider),
            CommandView::<S>::SetError("completions are outdated"@),
        ],
        insertion.preview_completion_insert && !(last is Some && last->0 is Triggered) ==> run(
            insertion,
            insertion.first(
                PromptEvent::Update,
                last,
                Some(CompletionItemView::Lsp(entry)),
                Some(context),
            ),
            replies,
        ) == seq![
            CommandView::Restore { savepoint: context, notify: false },
            CommandView::<S>::FindServer(entry.provider),
            CommandView::<S>::SetError("completions are outdated"@),
        ],
{
    let is_server = |r: ReplyView<S>| r is Server;
    let server = from_first(replies, is_server);
    let step = insertion.first(
        PromptEvent::Validate,
        last,
        Some(CompletionItemView::Lsp(entry)),
        Some(context),
    );
    run_waits(insertion, step, replies, is_server);
    let next = insertion.next(step.state, server[0]);
    finished_does_nothing(insertion, next.commands, server.drop_first());
    assert(step.commands + next.commands =~= going_back(last, context) + seq![
        CommandView::<S>::FindServer(entry.provider),
        CommandView::<S>::SetError("completions are outdated"@),
    ]);
    if insertion.preview_completion_insert && !(last is Some && last->0 is Triggered) {
        let step = insertion.first(
            PromptEvent::Update,
            last,
            Some(CompletionItemView::Lsp(entry)),
            Some(context),
        );
        run_waits(insertion, step, replies, is_server);
        let next = insertion.next(step.state, server[0]);
        finished_does_nothing(insertion, next.commands, server.drop_first());
        assert(step.commands + next.commands =~= seq![
            CommandView::Restore { savepoint: context, notify: false },
            CommandView::<S>::FindServer(entry.provider),
            CommandView::<S>::SetError("completions are outdated"@),
        ]);
    }
}

/// The first item that is shown is shown after a savepoint is taken and noted; the
/// rest of the run is that of any other item.
pub proof fn first_preview_takes_a_savepoint<S>(
    insertion: Insertion,
    item: CompletionItemView,
    context: S,
    replies: Seq<ReplyView<S>>,
)
    requires
        insertion.preview_completion_insert,
    ensures
        ({
            let commands = run(
                insertion,
                insertion.first(
                    PromptEvent::Update,
                    Some(CompleteActionView::Triggered),
                    Some(item),
                    Some(context),
                ),
                replies,
            );
            let taken = from_first(replies, |r: ReplyView<S>| r is Savepoint);
            &&& taken.len() == 0 ==> commands == seq![CommandView::<S>::TakeSavepoint]
            &&& taken.len() > 0 ==> commands == seq![
                CommandView::TakeSavepoint,
                CommandView::Record(
                    Some(CompleteActionView::Selected { savepoint: taken[0]->Savepoint_0 }),
                ),
            ] + run(
                insertion,
                insertion.first(PromptEvent::Update, None, Some(item), Some(context)),
                taken.drop_first(),
            )
        }),
{
    let step = insertion.first(
        PromptEvent::Update,
        Some(CompleteActionView::Triggered),
        Some(item),
        Some(context),
    );
    let is_taken = |r: ReplyView<S>| r is Savepoint;
    run_waits(insertion, step, replies, is_taken);
    let taken = from_first(replies, is_taken);
    if taken.len() > 0 {
        let shown = insertion.first(PromptEvent::Update, None, Some(item), Some(context));
        let note = seq![
            CommandView::Record(
                Some(CompleteActionView::Selected { savepoint: taken[0]->Savepoint_0 }),
            ),
        ];
        run_prefix(insertion, shown, note, taken.drop_first());
        assert(insertion.next(step.state, taken[0]) == shown.after(note));
        let later = run(insertion, shown, taken.drop_first());
        assert(step.commands + (note + later) =~= seq![
            CommandView::TakeSavepoint,
            CommandView::Record(
                Some(CompleteActionView::Selected { savepoint: taken[0]->Savepoint_0 }),
            ),
        ] + later);
    }
}

/// Any other item is shown after going back silently: one of the editor as it is,
/// one of a server once it is turned into an edit, without being filled in.
pub proof fn previews_show_the_edit<S>(
    insertion: Insertion,
    last: Option<CompleteActionView<S>>,
    entry: LspCompletionItemView,
    other: OtherItemView,
    context: S,
    replies: Seq<ReplyView<S>>,
)
    requires
        insertion.preview_completion_insert,
        !(last is Some && last->0 is Triggered),
    ensures
        run(
            insertion,
            insertion.first(
                PromptEvent::Update,
                last,
                Some(CompletionItemView::Other(other)),
                Some(context),
            ),
            replies,
        ) == seq![
            CommandView::Restore { savepoint: context, notify: false },
            CommandView::ApplyTemporary(EditView::Given(other.transaction)),
        ],
        ({
            let server = from_first(replies, |r: ReplyView<S>| r is Server);
            let answered = answers_of(entry.item, server.drop_first());
            let (answers, rest) = answered->0;
            server.len() > 0 && server[0]->Server_0 is Some && answered is Some ==> run(
                insertion,
                insertion.first(
                    PromptEvent::Update,
                    last,
                    Some(CompletionItemView::Lsp(entry)),
                    Some(context),
                ),
                replies,
            ) == seq![
                CommandView::Restore { savepoint: context, notify: false },
                CommandView::FindServer(entry.provider),
            ] + turning::<S>(entry.item, answers, insertion.replace_mode) + seq![
                CommandView::<S>::ApplyTemporary(
                    made_edit(entry.item, answers, insertion.replace_mode),
                ),
            ]
        }),
{
    let shown = insertion.first(
        PromptEvent::Update,
        last,
        Some(CompletionItemView::Other(other)),
        Some(context),
    );
    finished_does_nothing(insertion, shown.commands, replies);
    assert(shown.commands =~= seq![
        CommandView::Restore { savepoint: context, notify: false },
        CommandView::ApplyTemporary(EditView::Given(other.transaction)),
    ]);
    let step = insertion.first(
        PromptEvent::Update,
        last,
        Some(CompletionItemView::Lsp(entry)),
        Some(context),
    );
    let is_server = |r: ReplyView<S>| r is Server;
    run_waits(insertion, step, replies, is_server);
    let server = from_first(replies, is_server);
    let answered = answers_of(entry.item, server.drop_first());
    if server.len() > 0 && server[0]->Server_0 is Some && answered is Some {
        let (answers, rest) = answered->0;
        turning_an_item::<S>(insertion, false, entry.item, server.drop_first());
        let edit = made_edit(entry.item, answers, insertion.replace_mode);
        let show = seq![CommandView::<S>::ApplyTemporary(edit)];
        finished_does_nothing(insertion, show, rest);
        let begin = seq![
            CommandView::Restore { savepoint: context, notify: false },
            CommandView::FindServer(entry.provider),
        ];
        let turned = turning::<S>(entry.item, answers, insertion.replace_mode);
        assert(step.commands =~= begin);
        assert(begin + (turned + show) =~= begin + turned + show);
    }
}

} // verus!
