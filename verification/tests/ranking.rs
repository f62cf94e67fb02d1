use completion::edits::Transaction;
use completion::items::{CompletionItem, CompletionProvider, OtherItem};
use completion::ranking::{collect_matches, min_score, rank, rescore_matches};
use completion::text::{char_is_word, fragment, same_text, word_start};

fn option(provider_priority: i8) -> CompletionItem {
    CompletionItem::Other(OtherItem {
        transaction: Transaction { changes: Vec::new() },
        label: String::new(),
        kind: String::new(),
        documentation: None,
        provider: CompletionProvider::Path,
        provider_priority,
    })
}

#[test]
fn smallest_good_scores() {
    assert_eq!(min_score(0), 2);
    assert_eq!(min_score(1), 7);
    assert_eq!(min_score(3), 16);
    assert_eq!(min_score(306_783_377), 1_431_655_761);
}

#[test]
fn options_without_a_score_are_left_out() {
    let found = collect_matches(&vec![Some(30), None, Some(8), Some(0)]);
    assert_eq!(found, [(0, 10), (2, 2), (3, 0)]);
    assert!(collect_matches(&vec![None]).is_empty());
    assert!(collect_matches(&Vec::new()).is_empty());
}

#[test]
fn matches_without_a_new_score_are_left_out() {
    let found = rescore_matches(&vec![(5, 1), (2, 9), (7, 4)], &vec![Some(30), None, Some(7)]);
    assert_eq!(found, [(5, 15), (7, 3)]);
}

#[test]
fn ranks_by_strength_then_source_then_score_then_index() {
    let options = vec![option(1), option(0), option(1), option(0), option(1)];
    let found = vec![(0, 20), (1, 5), (2, 30), (3, 11), (4, 30)];
    assert_eq!(rank(&options, 10, found), [(3, 11), (2, 30), (4, 30), (0, 20), (1, 5)]);
}

#[test]
fn a_score_at_the_limit_is_weak() {
    let options = vec![option(0), option(1)];
    assert_eq!(rank(&options, 10, vec![(0, 10), (1, 11)]), [(1, 11), (0, 10)]);
    assert_eq!(rank(&options, 9, vec![(0, 10), (1, 11)]), [(0, 10), (1, 11)]);
}

#[test]
fn ranking_a_long_list_keeps_every_match() {
    let options: Vec<CompletionItem> = (0..1000).map(|_| option(0)).collect();
    let found: Vec<(u32, u32)> = (0..1000u32).map(|i| (i, i * 7919 % 1000)).collect();
    let ranked = rank(&options, 0, found);
    let scores: Vec<u32> = ranked.iter().map(|&(_, score)| score).collect();
    let expected: Vec<u32> = (0..1000).rev().collect();
    assert_eq!(scores, expected);
}

#[test]
fn word_characters() {
    for c in ['a', 'Z', '0', '9', '_', 'ß', '字', '٣'] {
        assert!(char_is_word(c));
    }
    for c in [' ', '-', '.', '→', '\n', '@', '[', '`', '{', '/', ':'] {
        assert!(!char_is_word(c));
    }
}

#[test]
fn words_begin_behind_the_last_other_character() {
    let text: Vec<char> = "a.b_c".chars().collect();
    assert_eq!(word_start(&text, 5), 2);
    assert_eq!(word_start(&text, 2), 2);
    assert_eq!(word_start(&text, 1), 0);
    assert_eq!(word_start(&text, 0), 0);
    assert_eq!(fragment(&text, 2, 4), "b_");
    assert_eq!(fragment(&text, 3, 3), "");
}

#[test]
fn texts_are_the_same_where_their_characters_are() {
    assert!(same_text("größe", "größe"));
    assert!(!same_text("a", "A"));
    assert!(!same_text("", "a"));
}
