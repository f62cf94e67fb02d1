//! What holds of everything that is done to the document after one event,
//! whatever the document and the servers answer.
use vstd::prelude::*;

use crate::edits::{touches, ChangeView, TextEditView};
use crate::insertion::{
    outdated, CommandView, CompleteActionView, EditView, Insertion, PromptEvent, ReplyView,
    StateView, StepView,
};
use crate::items::CompletionItemView;

verus! {

/// Everything that is done, from a step on, when these answers come.
pub open spec fn run<S>(
    insertion: Insertion,
    step: StepView<S>,
    replies: Seq<ReplyView<S>>,
) -> Seq<CommandView<S>>
    decreases replies.len(),
{
    if replies.len() == 0 {
        step.commands
    } else {
        step.commands + run(
            insertion,
            insertion.next(step.state, replies[0]),
            replies.drop_first(),
        )
    }
}

/// The state that is reached when these answers come.
pub open spec fn state_after<S>(
    insertion: Insertion,
    state: StateView<S>,
    replies: Seq<ReplyView<S>>,
) -> StateView<S>
    decreases replies.len(),
{
    if replies.len() == 0 {
        state
    } else {
        state_after(insertion, insertion.next(state, replies[0]).state, replies.drop_first())
    }
}

/// Whether a property holds of every command.
pub open spec fn all<S>(commands: Seq<CommandView<S>>, p: spec_fn(CommandView<S>) -> bool) -> bool {
    forall|i: int| 0 <= i < commands.len() ==> p(#[trigger] commands[i])
}

/// What holds of the commands of every step that starts from certain states,
/// and leads to such states, holds of the commands of a run.
proof fn run_all<S>(
    insertion: Insertion,
    step: StepView<S>,
    replies: Seq<ReplyView<S>>,
    states: spec_fn(StateView<S>) -> bool,
    p: spec_fn(CommandView<S>) -> bool,
)
    requires
        states(step.state),
        all(step.commands, p),
        forall|s: StateView<S>, r: ReplyView<S>|
            states(s) ==> all((#[trigger] insertion.next(s, r)).commands, p) && states(
                insertion.next(s, r).state,
            ),
    ensures
        all(run(insertion, step, replies), p),
    decreases replies.len(),
{
    if replies.len() > 0 {
        let next = insertion.next(step.state, replies[0]);
        run_all(insertion, next, replies.drop_first(), states, p);
        let rest = run(insertion, next, replies.drop_first());
        let commands = step.commands + rest;
        assert forall|i: int| 0 <= i < commands.len() implies p(#[trigger] commands[i]) by {
            if i < step.commands.len() {
                assert(commands[i] == step.commands[i]);
            } else {
                assert(commands[i] == rest[i - step.commands.len()]);
            }
        }
    }
}

/// The states in which an item is only shown.
pub open spec fn only_shown<S>(state: StateView<S>) -> bool {
    match state {
        StateView::Finished | StateView::AwaitSavepoint { .. } => true,
        StateView::AwaitServer { accept, .. } | StateView::AwaitLocation { accept, .. }
        | StateView::AwaitSnippet { accept, .. } => !accept,
        StateView::AwaitResolved { .. } | StateView::AwaitApplied { .. } => false,
    }
}

/// Commands after which the servers know no more than before, the step that one
/// undo takes back goes on, and the menu stays open.
pub open spec fn untold<S>(command: CommandView<S>) -> bool {
    match command {
        CommandView::Restore { notify, .. } => !notify,
        CommandView::Record(action) => action matches Some(CompleteActionView::Selected { .. }),
        CommandView::AppendHistory => false,
        CommandView::Resolve(_) => false,
        CommandView::Apply(_) => false,
        CommandView::ActivateSnippet { .. } => false,
        CommandView::ApplyEdits(_) => false,
        CommandView::TriggerCompletion => false,
        CommandView::TriggerSignatureHelp => false,
        _ => true,
    }
}

/// Selecting an item is never told to the servers: nothing is applied but
/// temporarily, and the document is put back only silently.
pub proof fn preview_is_untold<S>(
    insertion: Insertion,
    last: Option<CompleteActionView<S>>,
    item: Option<CompletionItemView>,
    context: Option<S>,
    replies: Seq<ReplyView<S>>,
)
    ensures
        all(
            run(insertion, insertion.first(PromptEvent::Update, last, item, context), replies),
            |c: CommandView<S>| untold(c),
        ),
{
    run_all(
        insertion,
        insertion.first(PromptEvent::Update, last, item, context),
        replies,
        |s: StateView<S>| only_shown(s),
        |c: CommandView<S>| untold(c),
    );
}

/// Where no item is to be shown, selecting one does nothing.
pub proof fn no_preview_does_nothing<S>(
    insertion: Insertion,
    last: Option<CompleteActionView<S>>,
    item: Option<CompletionItemView>,
    context: Option<S>,
    replies: Seq<ReplyView<S>>,
)
    requires
        !insertion.preview_completion_insert,
    ensures
        run(insertion, insertion.first(PromptEvent::Update, last, item, context), replies)
            == Seq::<CommandView<S>>::empty(),
{
    finished_does_nothing::<S>(insertion, Seq::empty(), replies);
}

/// Once a run is finished, nothing more is done, whatever is answered.
pub proof fn finished_does_nothing<S>(
    insertion: Insertion,
    commands: Seq<CommandView<S>>,
    replies: Seq<ReplyView<S>>,
)
    ensures
        run(insertion, StepView { commands, state: StateView::<S>::Finished }, replies)
            == commands,
    decreases replies.len(),
{
    if replies.len() > 0 {
        finished_does_nothing::<S>(insertion, Seq::empty(), replies.drop_first());
        assert(commands + Seq::<CommandView<S>>::empty() =~= commands);
    }
}

/// What is done before an accepted item is looked at.
pub open spec fn back_to_start<S>(
    last: Option<CompleteActionView<S>>,
    context: S,
) -> Seq<CommandView<S>> {
    seq![CommandView::Record(None)] + (match last {
        Some(CompleteActionView::Selected { savepoint }) => seq![
            CommandView::Restore { savepoint, notify: false },
        ],
        _ => Seq::empty(),
    }) + seq![
        CommandView::Restore { savepoint: context, notify: true },
        CommandView::AppendHistory,
    ]
}

/// Accepting an item begins by taking back, silently, what was shown of a
/// selected one, and then putting the document back to where the item belongs.
/// From there on the document is never put back again.
pub proof fn preview_is_gone_first<S>(
    insertion: Insertion,
    last: Option<CompleteActionView<S>>,
    item: CompletionItemView,
    context: S,
    replies: Seq<ReplyView<S>>,
)
    ensures
        ({
            let commands = run(
                insertion,
                insertion.first(PromptEvent::Validate, last, Some(item), Some(context)),
                replies,
            );
            let begin = back_to_start(last, context);
            &&& commands.len() >= begin.len()
            &&& commands.take(begin.len() as int) == begin
            &&& forall|i: int|
                begin.len() <= i < commands.len() ==> !((#[trigger] commands[i]) is Restore)
        }),
{
    let step = insertion.first(PromptEvent::Validate, last, Some(item), Some(context));
    let begin = back_to_start(last, context);
    let later = StepView { commands: step.commands.skip(begin.len() as int), state: step.state };
    let moving = |c: CommandView<S>| !(c is Restore);
    run_all(
        insertion,
        later,
        replies,
        |s: StateView<S>| !(s is AwaitSavepoint),
        moving,
    );
    run_prefix(insertion, later, begin, replies);
    assert(later.after(begin).commands =~= step.commands);
    let commands = run(insertion, step, replies);
    let rest = run(insertion, later, replies);
    assert(commands == begin + rest);
    assert(commands.take(begin.len() as int) =~= begin);
    assert forall|i: int| begin.len() <= i < commands.len() implies !(
    (#[trigger] commands[i]) is Restore) by {
        assert(commands[i] == rest[i - begin.len()]);
    }
}

/// What is done before a step is done before the run from it.
pub proof fn run_prefix<S>(
    insertion: Insertion,
    step: StepView<S>,
    before: Seq<CommandView<S>>,
    replies: Seq<ReplyView<S>>,
)
    ensures
        run(insertion, step.after(before), replies) == before + run(insertion, step, replies),
{
    if replies.len() > 0 {
        let rest = run(
            insertion,
            insertion.next(step.state, replies[0]),
            replies.drop_first(),
        );
        assert(before + step.commands + rest =~= before + (step.commands + rest));
    }
}

/// Once the document is back where an accepted item belongs, everything is done
/// alike, whatever was shown before.
pub proof fn accepting_forgets_the_preview<S>(
    insertion: Insertion,
    last: Option<CompleteActionView<S>>,
    other_last: Option<CompleteActionView<S>>,
    item: CompletionItemView,
    context: S,
    replies: Seq<ReplyView<S>>,
)
    ensures
        run(
            insertion,
            insertion.first(PromptEvent::Validate, last, Some(item), Some(context)),
            replies,
        ).skip(back_to_start(last, context).len() as int) == run(
            insertion,
            insertion.first(PromptEvent::Validate, other_last, Some(item), Some(context)),
            replies,
        ).skip(back_to_start(other_last, context).len() as int),
{
    accepting_goes_back_first(insertion, last, item, context, replies);
    accepting_goes_back_first(insertion, other_last, item, context, replies);
    let rest = run(insertion, after_going_back(item), replies);
    let begin = back_to_start(last, context);
    let other_begin = back_to_start(other_last, context);
    assert((begin + rest).skip(begin.len() as int) =~= rest);
    assert((other_begin + rest).skip(other_begin.len() as int) =~= rest);
}

/// What is done first with an accepted item once the document is back where it
/// belongs.
pub open spec fn after_going_back<S>(item: CompletionItemView) -> StepView<S> {
    match item {
        CompletionItemView::Lsp(item) => StepView::ask(
            CommandView::FindServer(item.provider),
            StateView::AwaitServer { accept: true, entry: item },
        ),
        CompletionItemView::Other(item) => StepView::ask(
            CommandView::Apply(EditView::Given(item.transaction)),
            StateView::AwaitApplied { extra: Seq::empty(), snippet: false },
        ),
    }
}

/// A run that accepts an item is going back, and then a run that knows nothing of
/// what was shown before.
proof fn accepting_goes_back_first<S>(
    insertion: Insertion,
    last: Option<CompleteActionView<S>>,
    item: CompletionItemView,
    context: S,
    replies: Seq<ReplyView<S>>,
)
    ensures
        run(
            insertion,
            insertion.first(PromptEvent::Validate, last, Some(item), Some(context)),
            replies,
        ) == back_to_start(last, context) + run(insertion, after_going_back(item), replies),
{
    let step = insertion.first(PromptEvent::Validate, last, Some(item), Some(context));
    let begin = back_to_start(last, context);
    run_prefix(insertion, after_going_back(item), begin, replies);
    assert(after_going_back::<S>(item).after(begin).commands =~= step.commands);
}

/// The document after some commands. `saved` is the document that a savepoint
/// brings back, `edited` the one that an edit makes, and `extended` the one that
/// further edits make; no other command changes it.
pub open spec fn document_after<D, S>(
    document: D,
    commands: Seq<CommandView<S>>,
    saved: spec_fn(S) -> D,
    edited: spec_fn(D, EditView) -> D,
    extended: spec_fn(D, Seq<TextEditView>) -> D,
) -> D
    decreases commands.len(),
{
    if commands.len() == 0 {
        document
    } else {
        let before = document_after(document, commands.drop_last(), saved, edited, extended);
        match commands.last() {
            CommandView::Restore { savepoint, .. } => saved(savepoint),
            CommandView::Apply(edit) | CommandView::ApplyTemporary(edit) => edited(before, edit),
            CommandView::ApplyEdits(edits) => extended(before, edits),
            _ => before,
        }
    }
}

/// The document after some commands and then some more.
proof fn document_after_sum<D, S>(
    document: D,
    first: Seq<CommandView<S>>,
    second: Seq<CommandView<S>>,
    saved: spec_fn(S) -> D,
    edited: spec_fn(D, EditView) -> D,
    extended: spec_fn(D, Seq<TextEditView>) -> D,
)
    ensures
        document_after(document, first + second, saved, edited, extended) == document_after(
            document_after(document, first, saved, edited, extended),
            second,
            saved,
            edited,
            extended,
        ),
    decreases second.len(),
{
    if second.len() == 0 {
        assert(first + second =~= first);
    } else {
        assert((first + second).drop_last() =~= first + second.drop_last());
        assert((first + second).last() == second.last());
        document_after_sum(document, first, second.drop_last(), saved, edited, extended);
    }
}

/// Going back brings back the document from when the source of the item was
/// asked, whatever was typed or shown since.
proof fn going_back_restores<D, S>(
    document: D,
    last: Option<CompleteActionView<S>>,
    context: S,
    saved: spec_fn(S) -> D,
    edited: spec_fn(D, EditView) -> D,
    extended: spec_fn(D, Seq<TextEditView>) -> D,
)
    ensures
        document_after(document, back_to_start(last, context), saved, edited, extended) == saved(
            context,
        ),
{
    let begin = back_to_start(last, context);
    assert(begin.last() == CommandView::<S>::AppendHistory);
    assert(begin.drop_last().last() == CommandView::Restore { savepoint: context, notify: true });
    assert(document_after(document, begin.drop_last(), saved, edited, extended) == saved(context));
}

/// An accepted item leaves the same document whatever was typed or shown before:
/// all of that is gone before the item is inserted.
pub proof fn accepted_document_is_the_same<D, S>(
    insertion: Insertion,
    document: D,
    last: Option<CompleteActionView<S>>,
    other_document: D,
    other_last: Option<CompleteActionView<S>>,
    item: CompletionItemView,
    context: S,
    replies: Seq<ReplyView<S>>,
    saved: spec_fn(S) -> D,
    edited: spec_fn(D, EditView) -> D,
    extended: spec_fn(D, Seq<TextEditView>) -> D,
)
    ensures
        document_after(
            document,
            run(
                insertion,
                insertion.first(PromptEvent::Validate, last, Some(item), Some(context)),
                replies,
            ),
            saved,
            edited,
            extended,
        ) == document_after(
            other_document,
            run(
                insertion,
                insertion.first(PromptEvent::Validate, other_last, Some(item), Some(context)),
                replies,
            ),
            saved,
            edited,
            extended,
        ),
{
    let rest = run(insertion, after_going_back(item), replies);
    let begin = back_to_start(last, context);
    let other_begin = back_to_start(other_last, context);
    accepting_goes_back_first(insertion, last, item, context, replies);
    accepting_goes_back_first(insertion, other_last, item, context, replies);
    document_after_sum(document, begin, rest, saved, edited, extended);
    document_after_sum(other_document, other_begin, rest, saved, edited, extended);
    going_back_restores(document, last, context, saved, edited, extended);
    going_back_restores(other_document, other_last, context, saved, edited, extended);
}

/// Whether the command edits the document by an item.
pub open spec fn inserts<S>(command: CommandView<S>) -> bool {
    command is Apply || command is ApplyTemporary
}

/// Whether the item has yet to be inserted.
pub open spec fn not_inserted<S>(state: StateView<S>) -> bool {
    !(state is Finished || state is AwaitApplied)
}

/// Whether at most one of the commands edits the document by an item.
pub open spec fn inserts_once<S>(commands: Seq<CommandView<S>>) -> bool {
    forall|i: int, j: int|
        0 <= i < j < commands.len() ==> !(inserts(#[trigger] commands[i]) && inserts(
            #[trigger] commands[j],
        ))
}

/// After the item has been inserted, it is not inserted again.
proof fn inserted_stays<S>(insertion: Insertion, step: StepView<S>, replies: Seq<ReplyView<S>>)
    requires
        !not_inserted(step.state),
        all(step.commands, |c: CommandView<S>| !inserts(c)),
    ensures
        all(run(insertion, step, replies), |c: CommandView<S>| !inserts(c)),
{
    run_all(
        insertion,
        step,
        replies,
        |s: StateView<S>| !not_inserted(s),
        |c: CommandView<S>| !inserts(c),
    );
}

/// A run inserts once where its first step does and says so in its state.
proof fn run_inserts_once<S>(insertion: Insertion, step: StepView<S>, replies: Seq<ReplyView<S>>)
    requires
        inserts_once(step.commands),
        not_inserted(step.state) ==> all(step.commands, |c: CommandView<S>| !inserts(c)),
    ensures
        inserts_once(run(insertion, step, replies)),
    decreases replies.len(),
{
    if replies.len() > 0 {
        let next = insertion.next(step.state, replies[0]);
        let rest = run(insertion, next, replies.drop_first());
        let commands = run(insertion, step, replies);
        run_inserts_once(insertion, next, replies.drop_first());
        if !not_inserted(step.state) {
            inserted_stays(insertion, next, replies.drop_first());
        }
        let quiet = |c: CommandView<S>| !inserts(c);
        assert forall|i: int, j: int| 0 <= i < j < commands.len() implies !(inserts(
            #[trigger] commands[i],
        ) && inserts(#[trigger] commands[j])) by {
            let n = step.commands.len();
            if j < n {
                assert(commands[i] == step.commands[i] && commands[j] == step.commands[j]);
            } else if i >= n {
                assert(commands[i] == rest[i - n] && commands[j] == rest[j - n]);
            } else {
                assert(commands[i] == step.commands[i] && commands[j] == rest[j - n]);
                if not_inserted(step.state) {
                    assert(quiet(step.commands[i]));
                } else {
                    assert(quiet(rest[j - n]));
                }
            }
        }
    }
}

/// Whatever happens, an item is inserted at most once.
pub proof fn inserted_at_most_once<S>(
    insertion: Insertion,
    event: PromptEvent,
    last: Option<CompleteActionView<S>>,
    item: Option<CompletionItemView>,
    context: Option<S>,
    replies: Seq<ReplyView<S>>,
)
    ensures
        inserts_once(run(insertion, insertion.first(event, last, item, context), replies)),
{
    let step = insertion.first(event, last, item, context);
    let n = step.commands.len();
    assert(forall|i: int| 0 <= i < n - 1 ==> !inserts(#[trigger] step.commands[i]));
    run_inserts_once(insertion, step, replies);
}

/// Whether every insertion comes after the document was put back, silently, to
/// where the item belongs.
pub open spec fn inserts_from<S>(commands: Seq<CommandView<S>>, context: S) -> bool {
    forall|j: int|
        0 <= j < commands.len() && inserts(#[trigger] commands[j]) ==> commands.take(j).contains(
            CommandView::Restore { savepoint: context, notify: false },
        )
}

/// A run that waits for a savepoint puts the document back before it inserts.
proof fn savepoint_inserts_from<S>(
    insertion: Insertion,
    commands: Seq<CommandView<S>>,
    item: CompletionItemView,
    context: S,
    replies: Seq<ReplyView<S>>,
)
    requires
        all(commands, |c: CommandView<S>| !inserts(c)),
    ensures
        inserts_from(
            run(
                insertion,
                StepView { commands, state: StateView::AwaitSavepoint { selected: item, context } },
                replies,
            ),
            context,
        ),
    decreases replies.len(),
{
    let step = StepView { commands, state: StateView::AwaitSavepoint { selected: item, context } };
    let quiet = |c: CommandView<S>| !inserts(c);
    if replies.len() == 0 {
        assert forall|j: int| 0 <= j < commands.len() && inserts(
            #[trigger] commands[j],
        ) implies commands.take(j).contains(
            CommandView::Restore { savepoint: context, notify: false },
        ) by {
            assert(quiet(commands[j]));
        }
    } else {
        let next = insertion.next(step.state, replies[0]);
        let rest = run(insertion, next, replies.drop_first());
        let whole = run(insertion, step, replies);
        let back = CommandView::Restore { savepoint: context, notify: false };
        let n = commands.len() as int;
        if replies[0] is Savepoint {
            assert(next.commands.len() > 1 && next.commands[1] == back);
            assert(rest.len() > 1 && rest[0] == next.commands[0] && rest[1] == back) by {
                if replies.drop_first().len() > 0 {
                }
            }
            assert forall|j: int| 0 <= j < whole.len() && inserts(
                #[trigger] whole[j],
            ) implies whole.take(j).contains(back) by {
                if j < n {
                    assert(whole[j] == commands[j]);
                    assert(quiet(commands[j]));
                } else {
                    assert(whole[j] == rest[j - n]);
                    assert(j > n + 1);
                    assert(whole.take(j)[n + 1] == rest[1]);
                }
            }
        } else {
            assert(next.commands =~= Seq::empty());
            savepoint_inserts_from::<S>(
                insertion,
                Seq::empty(),
                item,
                context,
                replies.drop_first(),
            );
            assert forall|j: int| 0 <= j < whole.len() && inserts(
                #[trigger] whole[j],
            ) implies whole.take(j).contains(back) by {
                if j < n {
                    assert(whole[j] == commands[j]);
                    assert(quiet(commands[j]));
                } else {
                    assert(whole[j] == rest[j - n]);
                    let part = rest.take(j - n);
                    assert(part.contains(back));
                    let k = choose|k: int| 0 <= k < part.len() && part[k] == back;
                    assert(whole.take(j)[k + n] == back);
                }
            }
        }
    }
}

/// A selected item is shown in a document without what was typed or shown since
/// its source was asked: before it is inserted, the document is put back,
/// silently, to the savepoint from then.
pub proof fn preview_starts_from_context<S>(
    insertion: Insertion,
    last: Option<CompleteActionView<S>>,
    item: CompletionItemView,
    context: S,
    replies: Seq<ReplyView<S>>,
)
    ensures
        inserts_from(
            run(
                insertion,
                insertion.first(PromptEvent::Update, last, Some(item), Some(context)),
                replies,
            ),
            context,
        ),
{
    let step = insertion.first(PromptEvent::Update, last, Some(item), Some(context));
    let back = CommandView::Restore { savepoint: context, notify: false };
    if !insertion.preview_completion_insert {
        no_preview_does_nothing(insertion, last, Some(item), Some(context), replies);
    } else if last == Some(CompleteActionView::<S>::Triggered) {
        savepoint_inserts_from(insertion, step.commands, item, context, replies);
    } else {
        let whole = run(insertion, step, replies);
        assert(step.commands[0] == back);
        assert(whole[0] == back);
        assert forall|j: int| 0 <= j < whole.len() && inserts(
            #[trigger] whole[j],
        ) implies whole.take(j).contains(back) by {
            assert(j > 0);
            assert(whole.take(j)[0] == back);
        }
    }
}

/// The states in which the server of the item has been found.
pub open spec fn server_found<S>(state: StateView<S>) -> bool {
    !(state is AwaitSavepoint || state is AwaitServer)
}

/// Whether nothing is inserted where the user is told that the item is outdated.
pub open spec fn inserts_or_fails<S>(commands: Seq<CommandView<S>>) -> bool {
    forall|i: int, j: int|
        0 <= i < commands.len() && 0 <= j < commands.len() ==> !((
        #[trigger] commands[i]) is SetError && inserts(#[trigger] commands[j]))
}

/// A run that has not inserted anything and waits for the server either fails or
/// inserts.
proof fn run_inserts_or_fails<S>(
    insertion: Insertion,
    step: StepView<S>,
    replies: Seq<ReplyView<S>>,
)
    requires
        all(step.commands, |c: CommandView<S>| !(c is SetError)),
        !server_found(step.state) ==> all(step.commands, |c: CommandView<S>| !inserts(c)),
    ensures
        inserts_or_fails(run(insertion, step, replies)),
    decreases replies.len(),
{
    let calm = |c: CommandView<S>| !(c is SetError);
    let quiet = |c: CommandView<S>| !inserts(c);
    let whole = run(insertion, step, replies);
    if server_found(step.state) {
        run_all(insertion, step, replies, |s: StateView<S>| server_found(s), calm);
        assert forall|i: int, j: int| 0 <= i < whole.len() && 0 <= j < whole.len() implies !((
        #[trigger] whole[i]) is SetError && inserts(#[trigger] whole[j])) by {
            assert(calm(whole[i]));
        }
    } else if replies.len() == 0 {
        assert forall|i: int, j: int| 0 <= i < whole.len() && 0 <= j < whole.len() implies !((
        #[trigger] whole[i]) is SetError && inserts(#[trigger] whole[j])) by {
            assert(calm(whole[i]));
        }
    } else {
        let next = insertion.next(step.state, replies[0]);
        let rest = run(insertion, next, replies.drop_first());
        let n = step.commands.len() as int;
        if next.commands.len() == 1 && next.commands[0] is SetError {
            finished_does_nothing(insertion, next.commands, replies.drop_first());
            assert(rest == next.commands);
            assert(all(rest, quiet));
        } else {
            run_inserts_or_fails(insertion, next, replies.drop_first());
        }
        assert forall|i: int, j: int| 0 <= i < whole.len() && 0 <= j < whole.len() implies !((
        #[trigger] whole[i]) is SetError && inserts(#[trigger] whole[j])) by {
            if i < n {
                assert(whole[i] == step.commands[i]);
                assert(calm(step.commands[i]));
            } else if j < n {
                assert(whole[j] == step.commands[j]);
                assert(quiet(step.commands[j]));
            } else {
                assert(whole[i] == rest[i - n] && whole[j] == rest[j - n]);
            }
        }
    }
}

/// An outdated item is never inserted: where the user is told that its server is
/// gone, the document is not edited by it.
pub proof fn outdated_is_not_inserted<S>(
    insertion: Insertion,
    event: PromptEvent,
    last: Option<CompleteActionView<S>>,
    item: Option<CompletionItemView>,
    context: Option<S>,
    replies: Seq<ReplyView<S>>,
)
    ensures
        inserts_or_fails(run(insertion, insertion.first(event, last, item, context), replies)),
{
    run_inserts_or_fails(insertion, insertion.first(event, last, item, context), replies);
}

/// The states in which an item is being accepted.
pub open spec fn accepting<S>(state: StateView<S>) -> bool {
    match state {
        StateView::Finished | StateView::AwaitSavepoint { .. } => false,
        StateView::AwaitServer { accept, .. } | StateView::AwaitLocation { accept, .. }
        | StateView::AwaitSnippet { accept, .. } => accept,
        StateView::AwaitResolved { .. } | StateView::AwaitApplied { .. } => true,
    }
}

/// Whether the command notes that an item was accepted.
pub open spec fn records_applied<S>(command: CommandView<S>) -> bool {
    command matches CommandView::Record(Some(CompleteActionView::Applied { .. }))
}

/// Whether the commands end as they do once an item has been accepted: it is
/// noted, completions are asked for, and then the signature is shown; or, where
/// the server is gone, the user is told.
pub open spec fn concluded<S>(commands: Seq<CommandView<S>>) -> bool {
    let n = commands.len() as int;
    ||| n >= 1 && commands[n - 1] == CommandView::<S>::SetError(outdated())
    ||| {
        &&& n >= 3
        &&& commands[n - 1] is TriggerSignatureHelp
        &&& commands[n - 2] is TriggerCompletion
        &&& exists|i: int| 0 <= i < n - 2 && records_applied(#[trigger] commands[i])
    }
}

/// What ends well ends well after something else.
proof fn concluded_after<S>(before: Seq<CommandView<S>>, commands: Seq<CommandView<S>>)
    requires
        concluded(commands),
    ensures
        concluded(before + commands),
{
    let whole = before + commands;
    let n = commands.len() as int;
    assert(whole[whole.len() - 1] == commands[n - 1]);
    if !(commands[n - 1] == CommandView::<S>::SetError(outdated())) {
        assert(whole[whole.len() - 2] == commands[n - 2]);
        let i = choose|i: int| 0 <= i < n - 2 && records_applied(#[trigger] commands[i]);
        assert(whole[i + before.len()] == commands[i]);
    }
}

/// A run that accepts an item and is finished has ended well.
proof fn run_concluded<S>(insertion: Insertion, step: StepView<S>, replies: Seq<ReplyView<S>>)
    requires
        accepting(step.state),
        state_after(insertion, step.state, replies) is Finished,
    ensures
        concluded(run(insertion, step, replies)),
    decreases replies.len(),
{
    if replies.len() > 0 {
        let next = insertion.next(step.state, replies[0]);
        let rest = run(insertion, next, replies.drop_first());
        if accepting(next.state) {
            run_concluded(insertion, next, replies.drop_first());
        } else {
            assert(next.state is Finished);
            finished_does_nothing(insertion, next.commands, replies.drop_first());
            if step.state is AwaitApplied {
                let n = next.commands.len() as int;
                let record = if step.state->AwaitApplied_snippet {
                    1int
                } else {
                    0int
                };
                assert(records_applied(next.commands[record]));
                assert(next.commands[n - 1] is TriggerSignatureHelp);
                assert(next.commands[n - 2] is TriggerCompletion);
            }
        }
        concluded_after(step.commands, rest);
    }
}

/// Accepting an item ends by noting that it was applied, asking for completions
/// and showing the signature, in this order; or by telling the user that its
/// server is gone.
pub proof fn accepting_is_concluded<S>(
    insertion: Insertion,
    last: Option<CompleteActionView<S>>,
    item: CompletionItemView,
    context: S,
    replies: Seq<ReplyView<S>>,
)
    requires
        state_after(
            insertion,
            insertion.first(PromptEvent::Validate, last, Some(item), Some(context)).state,
            replies,
        ) is Finished,
    ensures
        concluded(
            run(
                insertion,
                insertion.first(PromptEvent::Validate, last, Some(item), Some(context)),
                replies,
            ),
        ),
{
    run_concluded(
        insertion,
        insertion.first(PromptEvent::Validate, last, Some(item), Some(context)),
        replies,
    );
}

/// Whether a command notes only changes that reach over the place where the
/// completion was triggered, and notes this place.
pub open spec fn records_at<S>(command: CommandView<S>, offset: usize) -> bool {
    command matches CommandView::Record(
        Some(CompleteActionView::Applied { trigger_offset, changes, .. }),
    ) ==> trigger_offset == offset && forall|i: int|
        0 <= i < changes.len() ==> touches(#[trigger] changes[i], offset)
}

/// Every change that is noted of an accepted item reaches over the place where
/// the completion was triggered.
pub proof fn recorded_changes_touch_trigger<S>(
    insertion: Insertion,
    event: PromptEvent,
    last: Option<CompleteActionView<S>>,
    item: Option<CompletionItemView>,
    context: Option<S>,
    replies: Seq<ReplyView<S>>,
)
    ensures
        all(
            run(insertion, insertion.first(event, last, item, context), replies),
            |c: CommandView<S>| records_at(c, insertion.trigger_offset),
        ),
{
    let offset = insertion.trigger_offset;
    let p = |c: CommandView<S>| records_at(c, offset);
    assert forall|s: StateView<S>, r: ReplyView<S>| all(
        (#[trigger] insertion.next(s, r)).commands,
        p,
    ) by {
        if let ReplyView::Applied { changes, .. } = r {
            let touching = |c: ChangeView| touches(c, offset);
            let kept = changes.filter(touching);
            assert forall|i: int| 0 <= i < kept.len() implies touches(
                #[trigger] kept[i],
                offset,
            ) by {
                changes.lemma_filter_pred(touching, i);
            }
        }
    }
    run_all(
        insertion,
        insertion.first(event, last, item, context),
        replies,
        |s: StateView<S>| true,
        p,
    );
}

} // verus!
