use completion::edits::{
    completion_changes, Change, CompletionTextEdit, Position, Range, TextEdit, Transaction,
};
use completion::insertion::{
    lsp_item_to_transaction, range_to_locate, Command, CompleteAction, CompletionOptions, Edit,
    Insertion, PromptEvent, Reply, ServerCapabilities, State, Step,
};
use completion::items::{
    CompletionItem, CompletionItemKind, CompletionProvider, InsertTextFormat, LspCompletionItem,
    LspItem, OtherItem,
};

fn item() -> LspItem {
    LspItem {
        label: "label".to_string(),
        kind: None,
        tags: None,
        detail: None,
        documentation: None,
        deprecated: None,
        preselect: None,
        filter_text: None,
        insert_text: None,
        insert_text_format: None,
        text_edit: None,
        additional_text_edits: None,
        rest: String::new(),
    }
}

fn lsp(item: LspItem) -> CompletionItem {
    CompletionItem::Lsp(LspCompletionItem {
        item,
        provider: 7,
        resolved: false,
        provider_priority: 0,
    })
}

fn path(changes: Vec<Change>) -> CompletionItem {
    CompletionItem::Other(OtherItem {
        transaction: Transaction { changes },
        label: "path".to_string(),
        kind: "file".to_string(),
        documentation: None,
        provider: CompletionProvider::Path,
        provider_priority: 1,
    })
}

fn range(start: u32, end: u32) -> Range {
    Range {
        start: Position { line: 0, character: start },
        end: Position { line: 0, character: end },
    }
}

fn settings() -> Insertion {
    Insertion { trigger_offset: 4, replace_mode: false, preview_completion_insert: true }
}

fn edit_name(edit: &Edit) -> String {
    match edit {
        Edit::Unchanged => "nothing".to_string(),
        Edit::Given(transaction) => format!("given {}", transaction.changes.len()),
        Edit::Plain(text) => format!("plain {} at {:?}", text.new_text, text.edit_offset),
        Edit::Snippet(text) => format!("snippet {} at {:?}", text.new_text, text.edit_offset),
    }
}

fn names(step: &Step<u32>) -> Vec<String> {
    step.commands
        .iter()
        .map(|command| match command {
            Command::TakeSavepoint => "savepoint".to_string(),
            Command::Record(None) => "record nothing".to_string(),
            Command::Record(Some(CompleteAction::Triggered)) => "record triggered".to_string(),
            Command::Record(Some(CompleteAction::Selected { savepoint })) => {
                format!("record selected {}", savepoint)
            }
            Command::Record(Some(CompleteAction::Applied {
                trigger_offset,
                changes,
                placeholder,
            })) => format!("record applied {} {:?} {}", trigger_offset, changes, placeholder),
            Command::Restore { savepoint, notify: true } => format!("restore {}", savepoint),
            Command::Restore { savepoint, notify: false } => {
                format!("restore silently {}", savepoint)
            }
            Command::AppendHistory => "history".to_string(),
            Command::FindServer(id) => format!("server {}", id),
            Command::SetError(message) => format!("error {}", message),
            Command::Resolve(item) => format!("resolve {}", item.label),
            Command::Locate(range) => {
                format!("locate {:?}", range.map(|r| (r.start.character, r.end.character)))
            }
            Command::ParseSnippet(text) => format!("parse {}", text),
            Command::ApplyTemporary(edit) => format!("show {}", edit_name(edit)),
            Command::Apply(edit) => format!("apply {}", edit_name(edit)),
            Command::ActivateSnippet { nested } => format!("activate {}", nested),
            Command::ApplyEdits(edits) => format!("edits {}", edits.len()),
            Command::TriggerCompletion => "completion".to_string(),
            Command::TriggerSignatureHelp => "signature".to_string(),
        })
        .collect()
}

fn server(resolve_provider: Option<bool>) -> Reply<u32> {
    let completion_provider = Some(CompletionOptions { resolve_provider });
    Reply::Server(Some(ServerCapabilities { completion_provider }))
}

fn located(range: Option<(usize, usize)>) -> Reply<u32> {
    Reply::Located { primary_cursor: 4, range }
}

fn applied(changes: Vec<Change>) -> Reply<u32> {
    Reply::Applied { transaction: Transaction { changes }, snippet_active: false }
}

/// Everything that is done when these answers come.
fn run(insertion: Insertion, step: Step<u32>, replies: Vec<Reply<u32>>) -> Vec<String> {
    let mut step = step;
    let mut done = names(&step);
    for reply in replies {
        step = insertion.resume(step.state, reply);
        done.extend(names(&step));
    }
    assert!(matches!(step.state, State::Finished));
    done
}

#[test]
fn leaving_the_menu_shows_the_signature() {
    let step: Step<u32> = settings().start(PromptEvent::Abort, None, None, None);
    assert_eq!(run(settings(), step, Vec::new()), ["signature"]);
}

#[test]
fn without_preview_selecting_does_nothing() {
    let insertion = Insertion { preview_completion_insert: false, ..settings() };
    assert!(!insertion.wants_item(PromptEvent::Update));
    assert!(settings().wants_item(PromptEvent::Update));
    let last = Some(CompleteAction::Triggered);
    let step: Step<u32> = insertion.start(PromptEvent::Update, last, None, None);
    assert!(run(insertion, step, Vec::new()).is_empty());
}

#[test]
fn the_first_selection_takes_a_savepoint() {
    let last = Some(CompleteAction::Triggered);
    let changes = vec![(4, 4, Some("x".to_string()))];
    let step = settings().start(PromptEvent::Update, last, Some(path(changes)), Some(1));
    let done = run(settings(), step, vec![Reply::Savepoint(9)]);
    assert_eq!(done, ["savepoint", "record selected 9", "restore silently 1", "show given 1"]);
}

#[test]
fn later_selections_only_go_back() {
    let last = Some(CompleteAction::Selected { savepoint: 9 });
    let step = settings().start(PromptEvent::Update, last, Some(lsp(item())), Some(1));
    let done = run(settings(), step, vec![server(Some(true)), located(None)]);
    assert_eq!(
        done,
        ["restore silently 1", "server 7", "locate None", "show plain label at None"],
    );
}

#[test]
fn a_preview_is_never_told_and_shows_snippets() {
    let mut snippet = item();
    snippet.kind = Some(CompletionItemKind::Snippet);
    snippet.insert_text = Some("f($1)".to_string());
    snippet.additional_text_edits =
        Some(vec![TextEdit { range: range(0, 0), new_text: "use f;".to_string() }]);
    let step = settings().start(PromptEvent::Update, None, Some(lsp(snippet)), Some(1));
    let done = run(settings(), step, vec![server(None), located(None), Reply::Parsed(true)]);
    assert_eq!(
        done,
        [
            "restore silently 1",
            "server 7",
            "locate None",
            "parse f($1)",
            "show snippet f($1) at None"
        ],
    );
}

#[test]
fn accepting_takes_the_preview_back_first() {
    let last = Some(CompleteAction::Selected { savepoint: 9 });
    let changes = || vec![(4, 6, Some("x".to_string())), (7, 8, None)];
    let step = settings().start(PromptEvent::Validate, last, Some(path(changes())), Some(1));
    let done = run(settings(), step, vec![applied(changes())]);
    assert_eq!(
        done,
        [
            "record nothing",
            "restore silently 9",
            "restore 1",
            "history",
            "apply given 2",
            "record applied 4 [(4, 6, Some(\"x\"))] false",
            "completion",
            "signature"
        ],
    );
}

#[test]
fn after_going_back_nothing_is_known_of_a_preview() {
    let done = |last: Option<CompleteAction<u32>>, shown: usize| {
        let step = settings().start(PromptEvent::Validate, last, Some(lsp(item())), Some(1));
        let replies = vec![server(None), located(None), applied(vec![(4, 4, None)])];
        run(settings(), step, replies).split_off(3 + shown)
    };
    let without = done(Some(CompleteAction::Triggered), 0);
    assert_eq!(without[0], "server 7");
    assert_eq!(done(Some(CompleteAction::Selected { savepoint: 9 }), 1), without);
    assert_eq!(done(None, 0), without);
}

#[test]
fn accepting_without_preview_only_goes_back() {
    for last in [None, Some(CompleteAction::Triggered)] {
        let step = settings().start(PromptEvent::Validate, last, Some(path(Vec::new())), Some(1));
        let done = run(settings(), step, vec![applied(Vec::new())]);
        assert_eq!(done[..4], ["record nothing", "restore 1", "history", "apply given 0"]);
    }
}

#[test]
fn accepting_resolves_the_item() {
    let mut resolved = item();
    resolved.label = "resolved".to_string();
    resolved.additional_text_edits =
        Some(vec![TextEdit { range: range(0, 0), new_text: "use f;".to_string() }]);
    let step = settings().start(PromptEvent::Validate, None, Some(lsp(item())), Some(1));
    let replies = vec![
        server(Some(true)),
        Reply::Resolved(Some(resolved)),
        located(None),
        applied(Vec::new()),
    ];
    assert_eq!(
        run(settings(), step, replies),
        [
            "record nothing",
            "restore 1",
            "history",
            "server 7",
            "resolve label",
            "locate None",
            "apply plain resolved at None",
            "record applied 4 [] false",
            "edits 1",
            "completion",
            "signature"
        ],
    );
}

#[test]
fn an_item_that_cannot_be_resolved_is_used_as_it_is() {
    let step = settings().start(PromptEvent::Validate, None, Some(lsp(item())), Some(1));
    let replies =
        vec![server(Some(true)), Reply::Resolved(None), located(None), applied(Vec::new())];
    let done = run(settings(), step, replies);
    assert_eq!(done[6], "apply plain label at None");
    for capabilities in [Some(false), None] {
        let step = settings().start(PromptEvent::Validate, None, Some(lsp(item())), Some(1));
        let replies = vec![server(capabilities), located(None), applied(Vec::new())];
        let done = run(settings(), step, replies);
        assert_eq!(done[4..6], ["locate None", "apply plain label at None"]);
    }
}

#[test]
fn a_resolved_item_is_not_resolved_again() {
    let entry = LspCompletionItem {
        item: item(),
        provider: 7,
        resolved: true,
        provider_priority: 0,
    };
    let entry = CompletionItem::Lsp(entry);
    let step = settings().start(PromptEvent::Validate, None, Some(entry), Some(1));
    let done = run(settings(), step, vec![server(Some(true)), located(None), applied(Vec::new())]);
    assert_eq!(done[4], "locate None");
}

#[test]
fn accepted_snippets_are_visited() {
    for (snippet_active, expected) in [(false, "activate false"), (true, "activate true")] {
        let mut snippet = item();
        snippet.insert_text_format = Some(InsertTextFormat::Snippet);
        let step = settings().start(PromptEvent::Validate, None, Some(lsp(snippet)), Some(1));
        let replies = vec![
            server(None),
            located(None),
            Reply::Parsed(true),
            Reply::Applied { transaction: Transaction { changes: Vec::new() }, snippet_active },
        ];
        let done = run(settings(), step, replies);
        assert_eq!(
            done[5..],
            [
                "parse label",
                "apply snippet label at None",
                expected,
                "record applied 4 [] true",
                "completion",
                "signature"
            ],
        );
    }
}

#[test]
fn a_text_that_is_no_snippet_changes_nothing() {
    let mut snippet = item();
    snippet.insert_text_format = Some(InsertTextFormat::Snippet);
    let step = settings().start(PromptEvent::Validate, None, Some(lsp(snippet)), Some(1));
    let replies =
        vec![server(None), located(None), Reply::Parsed(false), applied(Vec::new())];
    let done = run(settings(), step, replies);
    assert_eq!(
        done[5..],
        ["parse label", "apply nothing", "record applied 4 [] false", "completion", "signature"],
    );
}

#[test]
fn outdated_items_are_not_inserted() {
    for event in [PromptEvent::Update, PromptEvent::Validate] {
        let step = settings().start(event, None, Some(lsp(item())), Some(1));
        let done = run(settings(), step, vec![Reply::Server(None)]);
        assert_eq!(done.last().unwrap(), "error completions are outdated");
        assert!(done.iter().all(|name| !name.starts_with("apply") && !name.starts_with("show")));
        assert!(!done.contains(&"signature".to_string()));
    }
}

#[test]
fn an_answer_that_was_not_asked_for_changes_nothing() {
    let step = settings().start(PromptEvent::Validate, None, Some(lsp(item())), Some(1));
    let step = settings().resume(step.state, Reply::Parsed(true));
    assert!(step.commands.is_empty());
    assert!(matches!(step.state, State::AwaitServer { accept: true, .. }));
    let step = settings().resume(State::Finished, Reply::Savepoint(3));
    assert!(step.commands.is_empty());
}

#[test]
fn of_two_ranges_the_mode_chooses() {
    let mut both = item();
    both.text_edit = Some(CompletionTextEdit::InsertAndReplace {
        new_text: "new".to_string(),
        insert: range(1, 2),
        replace: range(1, 5),
    });
    assert_eq!(range_to_locate(&both, false), Some(range(1, 2)));
    assert_eq!(range_to_locate(&both, true), Some(range(1, 5)));
    let mut one = item();
    one.text_edit = Some(CompletionTextEdit::Edit(TextEdit {
        range: range(3, 4),
        new_text: "new".to_string(),
    }));
    assert_eq!(range_to_locate(&one, true), Some(range(3, 4)));
    assert_eq!(range_to_locate(&item(), true), None);
}

#[test]
fn ranges_are_counted_from_the_cursor() {
    let mut one = item();
    one.insert_text = Some("ignored".to_string());
    one.text_edit = Some(CompletionTextEdit::Edit(TextEdit {
        range: range(3, 4),
        new_text: "new".to_string(),
    }));
    let edit = lsp_item_to_transaction(&one, 10, Some((7, 12)), 4, true);
    assert_eq!(edit_name(&edit), "plain new at Some((-3, 2))");
    assert!(matches!(edit, Edit::Plain(text) if text.replace_mode));
    let far = lsp_item_to_transaction(&one, usize::MAX, Some((0, usize::MAX)), 4, false);
    assert_eq!(edit_name(&far), format!("plain new at Some((-{}, 0))", usize::MAX));
    let edit = lsp_item_to_transaction(&one, 10, None, 4, false);
    assert!(matches!(edit, Edit::Unchanged));
}

#[test]
fn without_an_edit_the_text_is_inserted() {
    let edit = lsp_item_to_transaction(&item(), 10, None, 10, false);
    assert_eq!(edit_name(&edit), "plain label at None");
    let mut with_text = item();
    with_text.insert_text = Some("text".to_string());
    let edit = lsp_item_to_transaction(&with_text, 10, Some((1, 2)), 10, false);
    assert_eq!(edit_name(&edit), "plain text at None");
}

#[test]
fn only_changes_around_the_trigger_are_kept() {
    let changes = vec![
        (0, 3, None),
        (0, 4, Some("a".to_string())),
        (4, 4, Some("b".to_string())),
        (4, 9, None),
        (5, 9, Some("c".to_string())),
    ];
    let kept = completion_changes(&Transaction { changes }, 4);
    assert_eq!(
        kept,
        [(0, 4, Some("a".to_string())), (4, 4, Some("b".to_string())), (4, 9, None)],
    );
    assert!(completion_changes(&Transaction { changes: Vec::new() }, 4).is_empty());
}

#[test]
fn copies_are_the_same_and_differences_are_seen() {
    let full = || LspItem {
        tags: Some(Vec::new()),
        detail: Some("detail".to_string()),
        text_edit: Some(CompletionTextEdit::InsertAndReplace {
            new_text: "new".to_string(),
            insert: range(1, 2),
            replace: range(1, 5),
        }),
        additional_text_edits: Some(vec![TextEdit {
            range: range(0, 0),
            new_text: "use f;".to_string(),
        }]),
        ..item()
    };
    assert!(full().same(&full().copy()));
    assert!(!full().same(&LspItem { tags: None, ..full() }));
    assert!(!full().same(&LspItem { detail: Some(String::new()), ..full() }));
    assert!(!full().same(&LspItem { text_edit: None, ..full() }));
    assert!(!full().same(&LspItem { additional_text_edits: Some(Vec::new()), ..full() }));
    assert!(!full().same(&LspItem { rest: "{}".to_string(), ..full() }));
    let transaction = Transaction { changes: vec![(1, 2, Some("x".to_string())), (3, 4, None)] };
    assert!(transaction.same(&transaction.copy()));
    assert!(!transaction.same(&Transaction { changes: vec![(1, 2, Some("x".to_string()))] }));
}
