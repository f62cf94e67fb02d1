use completion::completion::{can_score_items, preselect_first, without_provider, Completion};
use completion::edits::Transaction;
use completion::items::{
    CompletionItem, CompletionProvider, CompletionResponse, LspCompletionItem, LspItem, OtherItem,
};

fn lsp_item(label: &str) -> LspItem {
    LspItem {
        label: label.to_string(),
        kind: None,
        tags: None,
        detail: None,
        documentation: None,
        deprecated: None,
        preselect: None,
        filter_text: None,
        insert_text: None,
        insert_text_format: None,
        text_edit: None,
        additional_text_edits: None,
        rest: String::new(),
    }
}

fn entry(label: &str, provider: u64, provider_priority: i8) -> LspCompletionItem {
    LspCompletionItem { item: lsp_item(label), provider, resolved: false, provider_priority }
}

fn lsp(label: &str) -> CompletionItem {
    CompletionItem::Lsp(entry(label, 1, 0))
}

fn preselected(label: &str) -> CompletionItem {
    let mut item = entry(label, 1, 0);
    item.item.preselect = Some(true);
    CompletionItem::Lsp(item)
}

fn path(label: &str) -> CompletionItem {
    CompletionItem::Other(OtherItem {
        transaction: Transaction { changes: Vec::new() },
        label: label.to_string(),
        kind: "file".to_string(),
        documentation: None,
        provider: CompletionProvider::Path,
        provider_priority: 1,
    })
}

fn menu(items: Vec<CompletionItem>, text: &str) -> Completion {
    let text: Vec<char> = text.chars().collect();
    Completion::new(items, text.len(), &text, text.len())
}

fn labels(items: &[CompletionItem]) -> Vec<String> {
    items
        .iter()
        .map(|item| match item {
            CompletionItem::Lsp(item) => item.item.label.clone(),
            CompletionItem::Other(item) => item.label.clone(),
        })
        .collect()
}

fn shown(menu: &Completion) -> Vec<String> {
    menu.matches()
        .iter()
        .map(|&(index, _)| labels(&menu.options()[index as usize..index as usize + 1]).remove(0))
        .collect()
}

#[test]
fn has_an_id() {
    assert_eq!(Completion::ID, "completion");
}

#[test]
fn filter_is_the_word_before_the_cursor() {
    let text: Vec<char> = "let foo_1 = ba".chars().collect();
    let at = |cursor: usize| Completion::new(Vec::new(), cursor, &text, cursor).filter().clone();
    assert_eq!(at(14), "ba");
    assert_eq!(at(9), "foo_1");
    assert_eq!(at(6), "fo");
    assert_eq!(at(4), "");
    assert_eq!(at(0), "");
}

#[test]
fn words_can_have_letters_of_any_script() {
    assert_eq!(menu(Vec::new(), "(größe").filter(), "größe");
    assert_eq!(menu(Vec::new(), "a→б").filter(), "б");
}

#[test]
fn opens_with_what_matches() {
    let m = menu(vec![lsp("xyz"), lsp("foobar"), lsp("barfoo"), lsp("f_o")], "fo");
    assert_eq!(m.trigger_offset(), 2);
    assert_eq!(m.cursor(), None);
    assert!(!m.is_empty());
    assert_eq!(shown(&m)[0], "foobar");
    assert!(!shown(&m).contains(&"xyz".to_string()));
    assert_eq!(m.options().len(), 4);
}

#[test]
fn keeps_a_third_of_the_score() {
    // Two characters at the start of the text score 70.
    let m = menu(vec![lsp("foobar")], "fo");
    assert_eq!(m.matches(), &vec![(0, 23)]);
}

#[test]
fn keeps_half_of_the_score_after_typing() {
    // Three characters at the start of the text score 96.
    let mut m = menu(vec![lsp("foobar")], "fo");
    m.update_filter(Some('o'));
    assert_eq!(m.filter(), "foo");
    assert_eq!(m.matches(), &vec![(0, 48)]);
}

#[test]
fn case_does_not_matter() {
    let m = menu(vec![lsp("FooBar")], "fb");
    assert_eq!(shown(&m), ["FooBar"]);
    let items = || vec![lsp("fxxo"), lsp("FOO"), lsp("foo"), lsp("bar")];
    let mut lower = menu(items(), "fo");
    let mut upper = menu(items(), "FO");
    assert_eq!(upper.matches(), lower.matches());
    lower.update_filter(Some('o'));
    upper.update_filter(Some('O'));
    assert_eq!(upper.matches(), lower.matches());
    assert_eq!(upper.matches().len(), 2);
}

#[test]
fn plain_letters_match_accented_ones_but_not_the_reverse() {
    assert_eq!(shown(&menu(vec![lsp("größe")], "gro")), ["größe"]);
    assert!(menu(vec![lsp("grosse")], "grö").is_empty());
}

#[test]
fn filter_text_counts_before_the_label() {
    let mut item = entry("label", 1, 0);
    item.item.filter_text = Some("other".to_string());
    let m = menu(vec![CompletionItem::Lsp(item)], "oth");
    assert_eq!(shown(&m), ["label"]);
    let mut item = entry("label", 1, 0);
    item.item.filter_text = Some("other".to_string());
    assert!(menu(vec![CompletionItem::Lsp(item)], "lab").is_empty());
}

#[test]
fn preselected_items_come_first_and_the_rest_keeps_its_order() {
    let items = vec![lsp("a"), preselected("b"), path("c"), preselected("d"), lsp("e")];
    assert_eq!(labels(&preselect_first(items)), ["b", "d", "a", "c", "e"]);
}

#[test]
fn without_a_word_everything_is_shown_in_order() {
    let m = menu(vec![path("p"), lsp("a"), preselected("b"), lsp("c")], "x.");
    assert_eq!(m.filter(), "");
    assert_eq!(shown(&m), ["b", "a", "c", "p"]);
    assert!(m.matches().iter().all(|&(_, score)| score == 0));
}

#[test]
fn better_sources_come_before_better_scores() {
    let slow = CompletionItem::Lsp(entry("foo", 1, 2));
    let fast = CompletionItem::Lsp(entry("foolish", 2, 1));
    let m = menu(vec![slow, fast], "foo");
    assert_eq!(shown(&m), ["foolish", "foo"]);
}

#[test]
fn weak_matches_come_last_even_from_a_better_source() {
    let weak = CompletionItem::Lsp(entry("xxfxxxxxxxxxoxxxxxxxxxo", 1, 0));
    let good = CompletionItem::Lsp(entry("foo", 2, 5));
    let m = menu(vec![weak, good], "foo");
    assert_eq!(shown(&m), ["foo", "xxfxxxxxxxxxoxxxxxxxxxo"]);
    let min = completion::ranking::min_score(3);
    assert!(m.matches()[0].1 > min && m.matches()[1].1 <= min);
}

#[test]
fn equal_matches_keep_the_order_of_the_options() {
    let m = menu(vec![lsp("foo"), lsp("foo"), lsp("foo")], "fo");
    let indices: Vec<u32> = m.matches().iter().map(|&(index, _)| index).collect();
    assert_eq!(indices, [0, 1, 2]);
}

#[test]
fn typing_only_looks_at_what_is_shown() {
    let mut m = menu(vec![lsp("foobar"), lsp("fabric"), lsp("xyz")], "f");
    m.update_filter(Some('a'));
    assert!(shown(&m).contains(&"fabric".to_string()));
    m.update_filter(Some('b'));
    assert_eq!(m.filter(), "fab");
    assert_eq!(shown(&m), ["fabric"]);
    m.update_filter(Some('z'));
    assert!(m.is_empty());
    assert_eq!(m.options().len(), 3);
}

#[test]
fn deleting_brings_back_what_was_shown() {
    let mut m = menu(vec![lsp("foobar"), lsp("fabric"), lsp("xyz")], "f");
    let before = m.matches().clone();
    m.update_filter(Some('a'));
    m.select(Some(0));
    m.update_filter(None);
    assert_eq!(m.filter(), "f");
    assert_eq!(m.matches(), &before);
    assert_eq!(m.cursor(), None);
}

#[test]
fn deleting_the_whole_word_empties_the_menu() {
    let mut m = menu(vec![lsp("foobar")], "f");
    m.select(Some(0));
    m.update_filter(None);
    assert_eq!(m.filter(), "");
    assert!(m.is_empty());
    assert_eq!(m.cursor(), None);
    assert_eq!(m.options().len(), 1);
    m.update_filter(None);
    assert!(m.is_empty());
}

#[test]
fn selection_is_the_option_behind_the_match() {
    let mut m = menu(vec![lsp("xyz"), lsp("foobar")], "fo");
    assert!(m.selection().is_none());
    m.select(Some(0));
    assert_eq!(labels(std::slice::from_ref(m.selection().unwrap())), ["foobar"]);
}

#[test]
fn complete_responses_are_added() {
    let mut m = menu(vec![lsp("foo"), path("fop")], "fo");
    let mut response =
        CompletionResponse { items: vec![lsp("fox")], provider: CompletionProvider::Lsp(1) };
    m.replace_provider_completions(&mut response, false);
    assert_eq!(labels(m.options()), ["foo", "fop", "fox"]);
    assert_eq!(m.matches().len(), 3);
    assert!(response.items.is_empty());
}

#[test]
fn incomplete_responses_are_replaced() {
    let mut m = menu(vec![lsp("foo"), path("fop"), CompletionItem::Lsp(entry("fob", 2, 0))], "fo");
    let mut response =
        CompletionResponse { items: vec![lsp("fox")], provider: CompletionProvider::Lsp(1) };
    m.replace_provider_completions(&mut response, true);
    assert_eq!(labels(m.options()), ["fop", "fob", "fox"]);
    assert_eq!(response.provider, CompletionProvider::Lsp(1));
}

#[test]
fn selection_stays_within_what_is_shown() {
    let mut m = menu(vec![lsp("foo"), lsp("fob"), lsp("foc")], "fo");
    m.select(Some(2));
    let items = vec![lsp("fox"), lsp("fot")];
    let mut response = CompletionResponse { items, provider: CompletionProvider::Lsp(1) };
    m.replace_provider_completions(&mut response, true);
    assert_eq!(m.cursor(), Some(1));
    let mut response =
        CompletionResponse { items: vec![lsp("xyz")], provider: CompletionProvider::Lsp(1) };
    m.replace_provider_completions(&mut response, true);
    assert_eq!(m.cursor(), None);
    assert!(m.is_empty());
}

#[test]
fn options_of_one_source_can_be_left_out() {
    let kept = without_provider(vec![lsp("a"), path("b"), lsp("c")], CompletionProvider::Lsp(1));
    assert_eq!(labels(&kept), ["b"]);
}

#[test]
fn replaces_the_first_equal_item() {
    let mut m = menu(vec![lsp("foo"), lsp("fob"), lsp("fob")], "fo");
    let matches = m.matches().clone();
    m.replace_item(&entry("fob", 1, 0), lsp("new"));
    assert_eq!(labels(m.options()), ["foo", "new", "fob"]);
    assert_eq!(m.matches(), &matches);
    m.replace_item(&lsp("foo"), path("old"));
    assert_eq!(labels(m.options()), ["old", "new", "fob"]);
}

#[test]
fn replaces_nothing_where_nothing_is_equal() {
    let mut m = menu(vec![lsp("foo"), path("fob")], "fo");
    m.replace_item(&entry("foo", 2, 0), lsp("new"));
    m.replace_item(&entry("fob", 1, 0), lsp("new"));
    let mut resolved = entry("foo", 1, 0);
    resolved.resolved = true;
    m.replace_item(&resolved, lsp("new"));
    assert_eq!(labels(m.options()), ["foo", "fob"]);
}

#[test]
fn long_texts_are_told_apart_from_those_that_can_be_scored() {
    let long = |n: usize| vec![lsp(&"a".repeat(n))];
    assert!(can_score_items(&long(2519), &"a".repeat(1_000_000)));
    assert!(!can_score_items(&long(2520), &"a".repeat(2520)));
    assert!(can_score_items(&long(21846), &"a".repeat(2519)));
    assert!(!can_score_items(&long(21847), "aa"));
    let text: Vec<char> = vec!['a', 'a'];
    assert!(Completion::try_new(long(21847), 0, &text, 2).is_none());
    assert!(Completion::try_new(long(21846), 0, &text, 2).is_some());
}

#[test]
fn a_short_filter_takes_texts_of_any_length() {
    let long = || vec![lsp(&"a".repeat(100_000))];
    assert!(can_score_items(&long(), ""));
    assert!(can_score_items(&long(), "a"));
    let text: Vec<char> = vec!['.', 'a'];
    let opened = Completion::try_new(long(), 0, &text, 1);
    assert_eq!(opened.map(|m| m.matches().clone()), Some(vec![(0, 0)]));
    let mut m = Completion::try_new(long(), 0, &text, 2).unwrap();
    assert_eq!(m.matches().len(), 1);
    assert!(!m.try_update_filter(Some('a')));
    assert_eq!(m.filter(), "a");
    assert_eq!(m.matches().len(), 1);
    assert!(m.try_update_filter(None));
    assert!(m.is_empty());
}

#[test]
fn letters_that_fold_late_do_not_go_with_accents() {
    for (late, filter) in [("ςσxé", "σé"), ("xµ_μé", "μé"), ("ſxsé", "Sé")] {
        assert!(!can_score_items(&vec![lsp(late)], filter));
        assert!(can_score_items(&vec![lsp(late)], "é"));
        assert!(can_score_items(&vec![lsp(late)], "σx"));
        assert!(can_score_items(&vec![lsp(late)], "sx"));
        assert!(can_score_items(&vec![lsp(late)], "xé"));
    }
    // Only a letter that stands in for the first one of the filter is in the way,
    // and only in front of it.
    for text in ["µσxé", "ſσxé", "σςxé", "ςxé", "σxé"] {
        assert!(can_score_items(&vec![lsp(text)], "σé"));
        assert_eq!(menu(vec![lsp(text)], "σé").is_empty(), text == "ςxé");
    }
    let m = menu(vec![lsp("größe_µm"), lsp("dauer_µs")], "grö");
    assert_eq!(shown(&m), ["größe_µm"]);
    let mut m = menu(vec![lsp("ςσxé")], "σ");
    assert_eq!(m.matches().len(), 1);
    assert!(!m.try_update_filter(Some('é')));
    assert!(m.try_update_filter(Some('x')));
    assert_eq!(m.matches().len(), 1);
    let text: Vec<char> = "σé".chars().collect();
    assert!(Completion::try_new(vec![lsp("ςσxé")], 0, &text, 2).is_none());
    assert_eq!(menu(vec![lsp("λόγος"), lsp("λύσις")], "λος").matches().len(), 1);
}

#[test]
fn only_what_is_scored_has_to_be_scorable() {
    // What is not shown is not scored when a character is typed.
    let mut m = menu(vec![lsp("ςσxé"), lsp("foé")], "f");
    assert_eq!(shown(&m), ["foé"]);
    assert!(m.try_update_filter(Some('é')));
    assert_eq!(shown(&m), ["foé"]);
    let long = || lsp(&"b".repeat(30_000));
    let mut m = menu(vec![long(), lsp("foo")], "f");
    assert!(m.try_update_filter(Some('o')));
    assert_eq!(shown(&m), ["foo"]);
    // What gives way to a response is not scored either.
    let provider = CompletionProvider::Lsp(1);
    let mut response = CompletionResponse { items: vec![lsp("fob")], provider };
    assert!(!m.try_replace_provider_completions(&mut response, false));
    assert!(m.try_replace_provider_completions(&mut response, true));
    assert_eq!(labels(m.options()), ["fob"]);
}

#[test]
fn the_newest_incomplete_response_wins() {
    let respond = |responses: Vec<Vec<&str>>| {
        let mut m = menu(vec![lsp("foo"), path("fob")], "fo");
        for response in responses {
            let items = response.into_iter().map(lsp).collect();
            let provider = CompletionProvider::Lsp(1);
            m.replace_provider_completions(&mut CompletionResponse { items, provider }, true);
        }
        (labels(m.options()), m.matches().clone(), m.filter().clone())
    };
    let alone = respond(vec![vec!["fox", "f"]]);
    assert_eq!(alone.0, ["fob", "fox", "f"]);
    assert_eq!(respond(vec![vec!["fog", "foe"], vec!["fox", "f"]]), alone);
}

#[test]
fn a_response_is_taken_over_only_if_it_can_be_scored() {
    let mut m = menu(vec![lsp("foo")], "fo");
    let provider = CompletionProvider::Lsp(2);
    let mut response = CompletionResponse { items: vec![lsp(&"fo".repeat(20_000))], provider };
    assert!(!m.try_replace_provider_completions(&mut response, false));
    assert_eq!(response.items.len(), 1);
    assert_eq!(labels(m.options()), ["foo"]);
    let mut response = CompletionResponse { items: vec![lsp("fob")], provider };
    assert!(m.try_replace_provider_completions(&mut response, false));
    assert!(response.items.is_empty());
    assert_eq!(labels(m.options()), ["foo", "fob"]);
}

#[test]
fn the_selected_option_is_replaced_even_if_it_occurs_twice() {
    let mut m = menu(vec![lsp("foo"), lsp("fob"), lsp("fob")], "fo");
    m.replace_selection(lsp("none"));
    assert_eq!(labels(m.options()), ["foo", "fob", "fob"]);
    m.select(Some(2));
    assert_eq!(m.matches()[2].0, 2);
    m.replace_selection(lsp("new"));
    assert_eq!(labels(m.options()), ["foo", "fob", "new"]);
}

#[test]
fn scoring_once_more_changes_nothing() {
    let mut m = menu(vec![lsp("fxxo"), path("foo"), lsp("bar"), preselected("fob")], "fo");
    let matches = m.matches().clone();
    let provider = CompletionProvider::Path;
    m.replace_provider_completions(&mut CompletionResponse { items: Vec::new(), provider }, false);
    assert_eq!(m.matches(), &matches);
    assert_eq!(matches.len(), 3);
}

#[test]
fn typing_keeps_each_match_once_with_half_of_its_score() {
    let mut m = menu(vec![lsp("foobar"), lsp("fob"), lsp("fox")], "fo");
    let before: Vec<u32> = m.matches().iter().map(|&(index, _)| index).collect();
    m.update_filter(Some('o'));
    assert_eq!(m.matches(), &vec![(0, 48)]);
    assert!(before.contains(&0));
}

#[test]
fn the_longest_texts_are_scored_without_overflow() {
    let needle = "a".repeat(2519);
    let m = menu(vec![lsp(&needle), lsp(&format!("{}a", " ".repeat(21845)))], &needle);
    assert_eq!(m.matches().len(), 1);
    let m = menu(vec![lsp(&format!("{}ab", " ".repeat(21844)))], "ab");
    assert_eq!(m.matches().len(), 1);
}
