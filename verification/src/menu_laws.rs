//! What every operation does to the menu, said of what is in the menu before and
//! after it.
use vstd::prelude::*;
use vstd::seq_lib::to_multiset_len;
use vstd::utf8::encode_utf8;

use crate::completion::{
    can_open, can_score_staying, can_update, completions_replaced, filter_updated, match_scores,
    opened, option_score, preselected_first, replaces_first, shows_again, shows_all, uncased,
    weak_score, word_before, CompletionView,
};
use crate::fuzzy::{
    folds_late, misleads, prepared_len, refolded, scorable, simple_fold, unaccented,
    unicode_lowercase,
};
use crate::items::{CompletionItem, CompletionProvider};
use crate::laws::{
    filter_of_sum, filter_twice, preselected_first_keeps_items, shows_what_matches,
};
use crate::ranking::{
    found_again, matches_option, min_score_of, rank_order, ranking_keeps_matches, Match,
    MAX_NEEDLE,
};
use crate::text::{is_word_char, unicode_alphanumeric, word_start_is_unique, word_start_of};

verus! {

/// Whether `c` is a letter, a digit or an underscore.
pub open spec fn letter_digit_or_underscore(c: char) -> bool {
    unicode_alphanumeric(c) || c == '_'
}

/// The menu is filtered by the word in front of the cursor: the text up to the
/// cursor ends in it, it is made of letters, digits and underscores, and none of
/// these stands in front of it.
pub proof fn filtered_by_the_whole_word(text: Seq<char>, cursor: int)
    requires
        0 <= cursor <= text.len(),
    ensures
        ({
            let word = word_before(text, cursor);
            let start = cursor - word.len();
            &&& 0 <= start
            &&& text.take(cursor) == text.take(start) + word
            &&& forall|i: int|
                0 <= i < word.len() ==> letter_digit_or_underscore(#[trigger] word[i])
            &&& start > 0 ==> !letter_digit_or_underscore(text[start - 1])
        }),
{
    let start = word_start_of(text, cursor);
    word_start_is_unique(text, cursor, start);
    let word = word_before(text, cursor);
    assert(text.take(cursor) =~= text.take(start) + word);
    assert forall|i: int| 0 <= i < word.len() implies letter_digit_or_underscore(
        #[trigger] word[i],
    ) by {
        assert(is_word_char(text[start + i]));
    }
}

/// What stands behind the cursor does not matter to the filter.
pub proof fn text_behind_the_cursor_does_not_matter(
    text: Seq<char>,
    other: Seq<char>,
    cursor: int,
)
    requires
        0 <= cursor <= text.len(),
        cursor <= other.len(),
        text.take(cursor) == other.take(cursor),
    ensures
        word_before(text, cursor) == word_before(other, cursor),
{
    let start = word_start_of(text, cursor);
    word_start_is_unique(text, cursor, start);
    assert forall|i: int| 0 <= i < cursor implies #[trigger] text[i] == other[i] by {
        assert(text.take(cursor)[i] == text[i]);
        assert(other.take(cursor)[i] == other[i]);
    }
    assert forall|i: int| start <= i < cursor implies is_word_char(#[trigger] other[i]) by {
        assert(is_word_char(text[i]));
    }
    word_start_is_unique(other, cursor, start);
    assert(word_before(text, cursor) =~= word_before(other, cursor));
}

/// A menu opens with nothing selected, for the place where it was triggered and
/// the filter it was given, and shows what matches the filter.
pub proof fn menu_opens_unselected(
    items: Seq<CompletionItem>,
    trigger_offset: usize,
    filter: Seq<char>,
    view: CompletionView,
)
    requires
        opened(items, trigger_offset, filter, view),
    ensures
        view.cursor is None,
        view.trigger_offset == trigger_offset,
        view.filter == filter,
        view.options.len() == items.len(),
        shows_all(view.options, filter, view.matches),
{
    preselected_first_keeps_items(items);
    to_multiset_len(items);
    to_multiset_len(view.options);
}

/// Whether a server wants this option at the top.
pub open spec fn wanted_at_the_top(option: CompletionItem) -> bool {
    option matches CompletionItem::Lsp(item) && item.item.preselect == Some(true)
}

/// A filter lets nothing through of what the opposite filter let through.
proof fn filter_of_opposite<A>(s: Seq<A>, keep: spec_fn(A) -> bool, opposite: spec_fn(A) -> bool)
    requires
        forall|a: A| #[trigger] keep(a) <==> !opposite(a),
    ensures
        s.filter(opposite).filter(keep) == Seq::<A>::empty(),
    decreases s.len(),
{
    reveal(Seq::filter);
    if s.len() > 0 {
        filter_of_opposite(s.drop_last(), keep, opposite);
        if opposite(s.last()) {
            let rest = s.drop_last().filter(opposite);
            assert(!keep(s.last()));
            assert(rest.push(s.last()).drop_last() =~= rest);
        }
    }
}

/// Filters that let the same through give the same.
pub proof fn filter_alike<A>(s: Seq<A>, one: spec_fn(A) -> bool, another: spec_fn(A) -> bool)
    requires
        forall|a: A| #[trigger] one(a) <==> another(a),
    ensures
        s.filter(one) == s.filter(another),
    decreases s.len(),
{
    reveal(Seq::filter);
    if s.len() > 0 {
        filter_alike(s.drop_last(), one, another);
        assert(one(s.last()) <==> another(s.last()));
    }
}

/// In a new menu the items that a server wants at the top come before all others,
/// and neither these nor the others change their order among themselves.
pub proof fn wanted_items_come_first_in_order(items: Seq<CompletionItem>, i: int, j: int)
    ensures
        0 <= i < j < preselected_first(items).len() && wanted_at_the_top(
            preselected_first(items)[j],
        ) ==> wanted_at_the_top(preselected_first(items)[i]),
        preselected_first(items).filter(|o: CompletionItem| wanted_at_the_top(o)) == items.filter(
            |o: CompletionItem| wanted_at_the_top(o),
        ),
        preselected_first(items).filter(|o: CompletionItem| !wanted_at_the_top(o)) == items.filter(
            |o: CompletionItem| !wanted_at_the_top(o),
        ),
{
    let wanted = |o: CompletionItem| wanted_at_the_top(o);
    let others = |o: CompletionItem| !wanted_at_the_top(o);
    filter_alike(items, |o: CompletionItem| o@.is_preselected(), wanted);
    filter_alike(items, |o: CompletionItem| !o@.is_preselected(), others);
    let first = items.filter(wanted);
    let second = items.filter(others);
    assert(preselected_first(items) == first + second);
    filter_of_sum(first, second, wanted);
    filter_of_sum(first, second, others);
    filter_twice(items, wanted);
    filter_twice(items, others);
    filter_of_opposite(items, wanted, others);
    filter_of_opposite(items, others, wanted);
    assert(first + Seq::<CompletionItem>::empty() =~= first);
    assert(Seq::<CompletionItem>::empty() + second =~= second);
    if 0 <= i < j < (first + second).len() && wanted_at_the_top((first + second)[j]) {
        if j >= first.len() {
            items.lemma_filter_pred(others, j - first.len());
        }
        items.lemma_filter_pred(wanted, i);
    }
}

/// Typing puts the character at the end of the filter, looks again at what was
/// shown, and leaves nothing selected; the options and the place where the
/// completion was triggered stay.
pub proof fn typing_adds_to_the_filter(before: CompletionView, c: char, after: CompletionView)
    requires
        filter_updated(before, Some(c), after),
    ensures
        after.filter == before.filter + seq![c],
        after.options == before.options,
        after.trigger_offset == before.trigger_offset,
        after.cursor is None,
        after.matches.len() <= before.matches.len(),
        shows_again(before.options, before.matches, after.filter, after.matches),
{
    assert(before.filter.push(c) =~= before.filter + seq![c]);
    let scores = match_scores(before.options, before.matches, after.filter);
    ranking_keeps_matches(
        before.options,
        weak_score(after.filter),
        found_again(before.matches, scores),
        after.matches,
    );
    found_again_is_no_longer(before.matches, scores);
}

/// Not more is found again than was found before.
proof fn found_again_is_no_longer(matches: Seq<Match>, scores: Seq<Option<u16>>)
    ensures
        found_again(matches, scores).len() <= matches.len(),
    decreases matches.len(),
{
    if matches.len() > 0 {
        found_again_is_no_longer(matches.drop_last(), scores.drop_last());
    }
}

/// Deleting takes the last character off the filter, shows everything that matches
/// what is left, or nothing where nothing is left, and leaves nothing selected;
/// the options and the place where the completion was triggered stay.
pub proof fn deleting_takes_from_the_filter(before: CompletionView, after: CompletionView)
    requires
        filter_updated(before, None, after),
    ensures
        before.filter.len() > 0 ==> after.filter + seq![before.filter.last()] == before.filter,
        before.filter.len() == 0 ==> after.filter.len() == 0,
        after.options == before.options,
        after.trigger_offset == before.trigger_offset,
        after.cursor is None,
        after.filter.len() == 0 ==> after.matches.len() == 0,
        after.filter.len() > 0 ==> shows_all(before.options, after.filter, after.matches),
{
    if before.filter.len() > 0 {
        assert(after.filter + seq![before.filter.last()] =~= before.filter);
    }
}

/// Whether the option comes from the source.
pub open spec fn comes_from(option: CompletionItem, provider: CompletionProvider) -> bool {
    match option {
        CompletionItem::Lsp(item) => provider == CompletionProvider::Lsp(item.provider),
        CompletionItem::Other(item) => provider == item.provider,
    }
}

/// The items of a response come behind the options that stay, in their order: all
/// of them, or those of other sources where the items of its own were incomplete.
/// The filter and the place where the completion was triggered stay, and
/// everything is shown that matches.
pub proof fn responses_come_last(
    before: CompletionView,
    provider: CompletionProvider,
    items: Seq<CompletionItem>,
    is_incomplete: bool,
    after: CompletionView,
)
    requires
        completions_replaced(before, provider, items, is_incomplete, after),
    ensures
        !is_incomplete ==> after.options == before.options + items,
        is_incomplete ==> after.options == before.options.filter(
            |o: CompletionItem| !comes_from(o, provider),
        ) + items,
        after.filter == before.filter,
        after.trigger_offset == before.trigger_offset,
        shows_all(after.options, before.filter, after.matches),
{
    filter_alike(
        before.options,
        |o: CompletionItem| o@.source() != provider,
        |o: CompletionItem| !comes_from(o, provider),
    );
}

/// After a response, a selection stays where it is as long as a match is shown
/// there. Only where none is, it moves to the last match, or goes where nothing is
/// shown. Nothing becomes selected by a response.
pub proof fn selection_stays_in_its_place(
    before: CompletionView,
    provider: CompletionProvider,
    items: Seq<CompletionItem>,
    is_incomplete: bool,
    after: CompletionView,
)
    requires
        completions_replaced(before, provider, items, is_incomplete, after),
    ensures
        before.cursor is None ==> after.cursor is None,
        before.cursor matches Some(c) ==> {
            &&& c < after.matches.len() ==> after.cursor == Some(c)
            &&& c >= after.matches.len() && after.matches.len() > 0 ==> after.cursor is Some
                && after.cursor->0 == after.matches.len() - 1
            &&& after.matches.len() == 0 ==> after.cursor is None
        },
{
}

/// Whether the option at `a` goes before the option at `b`, by everything that
/// decides it: whether its score exceeds the cutoff, whether a server wants it at
/// the top, the priority of its source, its score, and its place.
pub open spec fn goes_before(
    options: Seq<CompletionItem>,
    cutoff: int,
    a: Match,
    b: Match,
) -> bool {
    let priority = |o: CompletionItem|
        match o {
            CompletionItem::Lsp(item) => item.provider_priority,
            CompletionItem::Other(item) => item.provider_priority,
        };
    let (first, second) = (options[a.0 as int], options[b.0 as int]);
    ||| a.1 > cutoff && b.1 <= cutoff
    ||| (a.1 > cutoff <==> b.1 > cutoff) && {
        ||| wanted_at_the_top(first) && !wanted_at_the_top(second)
        ||| wanted_at_the_top(first) == wanted_at_the_top(second) && {
            ||| priority(first) < priority(second)
            ||| priority(first) == priority(second) && {
                ||| a.1 > b.1
                ||| a.1 == b.1 && a.0 <= b.0
            }
        }
    }
}

/// The largest weak score is a third of seven and fourteen for each character that
/// the matcher looks for, without its remainder.
pub proof fn cutoff_grows_with_the_filter(needle_len: nat)
    ensures
        3 * min_score_of(needle_len) <= 7 + 14 * needle_len < 3 * min_score_of(needle_len) + 3,
{
}

/// What is shown after scoring every option is in order: of two matches the upper
/// one goes before the lower one. `needle` is the filter with its ASCII capitals in
/// lower case, where the filter is ASCII, and else the filter itself.
pub proof fn shown_in_order(
    options: Seq<CompletionItem>,
    filter: Seq<char>,
    needle: Seq<char>,
    shown: Seq<Match>,
    cutoff: int,
    i: int,
    j: int,
)
    requires
        shows_all(options, filter, shown),
        is_needle_of(filter, needle),
        prepared_len(needle, true, true) <= MAX_NEEDLE,
        3 * cutoff <= 7 + 14 * prepared_len(needle, true, true) < 3 * cutoff + 3,
        0 <= i < j < shown.len(),
    ensures
        goes_before(options, cutoff, shown[i], shown[j]),
{
    assert(uncased(filter) =~= needle);
    assert(weak_score(filter) == cutoff);
    assert(rank_order(options, weak_score(filter))(shown[i], shown[j]));
}

/// What is shown after typing is in order, in the same way.
pub proof fn shown_in_order_after_typing(
    options: Seq<CompletionItem>,
    matches: Seq<Match>,
    filter: Seq<char>,
    needle: Seq<char>,
    shown: Seq<Match>,
    cutoff: int,
    i: int,
    j: int,
)
    requires
        shows_again(options, matches, filter, shown),
        is_needle_of(filter, needle),
        prepared_len(needle, true, true) <= MAX_NEEDLE,
        3 * cutoff <= 7 + 14 * prepared_len(needle, true, true) < 3 * cutoff + 3,
        0 <= i < j < shown.len(),
    ensures
        goes_before(options, cutoff, shown[i], shown[j]),
{
    assert(uncased(filter) =~= needle);
    assert(weak_score(filter) == cutoff);
    assert(rank_order(options, weak_score(filter))(shown[i], shown[j]));
}

/// Whether `needle` is the filter with its ASCII capitals in lower case, where the
/// filter is ASCII, and else the filter itself.
pub open spec fn is_needle_of(filter: Seq<char>, needle: Seq<char>) -> bool {
    &&& needle.len() == filter.len()
    &&& (forall|i: int| 0 <= i < filter.len() ==> #[trigger] filter[i] <= '\x7f') ==> forall|i: int|
        0 <= i < filter.len() ==> #[trigger] needle[i] == if 'A' <= filter[i] <= 'Z' {
            (filter[i] as int + 32) as char
        } else {
            filter[i]
        }
    &&& (exists|i: int| 0 <= i < filter.len() && #[trigger] filter[i] > '\x7f') ==> needle
        == filter
}

/// Without a filter, a new menu shows every item.
pub proof fn new_menu_without_a_filter_shows_everything(
    items: Seq<CompletionItem>,
    trigger_offset: usize,
    view: CompletionView,
    index: u32,
)
    requires
        opened(items, trigger_offset, Seq::empty(), view),
        items.len() <= 0x1_0000_0000,
        index < items.len(),
    ensures
        view.matches.len() == items.len(),
        matches_option(view.matches, index),
{
    menu_opens_unselected(items, trigger_offset, Seq::empty(), view);
    shows_what_matches(view.options, view.filter, view.matches);
    assert(option_score(view.filter, view.options[index as int]) == Some(0u16));
    let m: Match = (index, 0u32);
    assert(view.matches.contains(m));
    let k = choose|k: int| 0 <= k < view.matches.len() && view.matches[k] == m;
    assert(view.matches[k].0 == index);
}

/// Replacing an item puts the new one in the place of the first equal option and
/// changes nothing else; where no option is equal, it changes nothing.
pub proof fn only_the_first_equal_item_is_replaced(
    before: Seq<CompletionItem>,
    equal: spec_fn(CompletionItem) -> bool,
    new_item: CompletionItem,
    after: Seq<CompletionItem>,
    k: int,
)
    requires
        replaces_first(before, equal, new_item, after),
    ensures
        (forall|i: int| 0 <= i < before.len() ==> !equal(#[trigger] before[i])) ==> after == before,
        0 <= k < before.len() && equal(before[k]) && (forall|i: int|
            0 <= i < k ==> !equal(#[trigger] before[i])) ==> after == before.update(k, new_item),
{
    if forall|i: int| 0 <= i < before.len() ==> !equal(#[trigger] before[i]) {
        assert(after =~= before);
    }
    if 0 <= k < before.len() && equal(before[k]) && (forall|i: int|
        0 <= i < k ==> !equal(#[trigger] before[i])) {
        assert forall|i: int| 0 <= i < before.len() implies #[trigger] after[i] == before.update(
            k,
            new_item,
        )[i] by {
            if i > k {
                assert(equal(before[k]));
            }
        }
        assert(after =~= before.update(k, new_item));
    }
}

/// Whether the lengths of a needle and a text allow the text to be scored: any text
/// for at most one character, and else texts of moderate length.
pub open spec fn lengths_allow(needle: Seq<char>, text: Seq<char>) -> bool {
    let bytes = encode_utf8(text).len();
    bytes <= 0xffff_ffff && (needle.len() <= 1 || bytes <= 21846 && (bytes <= 2519 || needle.len()
        <= 2519))
}

/// Whether `c` counts as lower case and has a case folding all the same, by which
/// it stands in for `letter`.
pub open spec fn stands_in_for(c: char, letter: char) -> bool {
    c > '\x7f' && unicode_lowercase(c) && simple_fold(c) != c && simple_fold(c) == letter
}

/// Where the needle has no accent, or nothing in the text stands in for its first
/// letter, or the text begins with this letter, only the lengths decide whether the
/// text can be scored.
pub proof fn ordinary_texts_can_be_scored(needle: Seq<char>, text: Seq<char>)
    requires
        ({
            let letter = simple_fold(needle[0]);
            ||| forall|i: int|
                0 <= i < needle.len() ==> #[trigger] needle[i] <= '\x7f' || unaccented(
                    simple_fold(needle[i]),
                ) == simple_fold(needle[i])
            ||| forall|i: int| 0 <= i < text.len() ==> !stands_in_for(#[trigger] text[i], letter)
            ||| text.len() > 0 && simple_fold(text[0]) == letter && !stands_in_for(text[0], letter)
        }),
    ensures
        scorable(needle, true, true, text) <==> lengths_allow(needle, text),
{
    let letter = simple_fold(needle[0]);
    if forall|i: int| 0 <= i < text.len() ==> !stands_in_for(#[trigger] text[i], letter) {
        assert(!misleads(needle[0], text)) by {
            if misleads(needle[0], text) {
                let (i, k) = choose|i: int, k: int|
                    0 <= i < k < text.len() && folds_late(#[trigger] text[i]) && simple_fold(
                        text[i],
                    ) == letter && refolded(#[trigger] text[k]) == letter;
                assert(stands_in_for(text[i], letter));
            }
        }
    }
}

/// Where the needle has more than one letter and an accent among them, a text
/// cannot be scored in which the first letter of the needle comes only after
/// something that stands in for it.
pub proof fn misleading_texts_cannot_be_scored(
    needle: Seq<char>,
    accent: int,
    text: Seq<char>,
    i: int,
    k: int,
)
    requires
        needle.len() > 1,
        0 <= accent < needle.len(),
        needle[accent] > '\x7f',
        unaccented(simple_fold(needle[accent])) != simple_fold(needle[accent]),
        0 <= i < k < text.len(),
        stands_in_for(text[i], simple_fold(needle[0])),
        simple_fold(text[k]) == simple_fold(needle[0]),
        !stands_in_for(text[k], simple_fold(needle[0])),
        simple_fold(text[0]) != simple_fold(needle[0]) || stands_in_for(
            text[0],
            simple_fold(needle[0]),
        ),
    ensures
        !scorable(needle, true, true, text),
{
    assert(folds_late(text[i]));
    assert(refolded(text[k]) == simple_fold(needle[0]));
}

/// A menu can be opened exactly if every item can be scored for the filter and the
/// cutoff for the filter fits in 32 bits.
pub proof fn menus_open_if_every_item_can_be_scored(
    items: Seq<CompletionItem>,
    filter: Seq<char>,
)
    ensures
        can_open(items, filter) <==> 7 + 14 * filter.len() <= 0xffff_ffff && forall|i: int|
            0 <= i < items.len() ==> scorable(
                filter,
                true,
                true,
                (#[trigger] items[i])@.match_text(),
            ),
{
}

/// Typing needs a score for every option that is shown, and for no other; deleting
/// needs one for every option, unless nothing is left of the filter.
pub proof fn only_what_is_looked_at_has_to_be_scored(view: CompletionView, c: char)
    ensures
        can_update(view, Some(c)) <==> 7 + 14 * (view.filter.len() + 1) <= 0xffff_ffff && forall|
            i: int,
        |
            0 <= i < view.matches.len() ==> scorable(
                view.filter + seq![c],
                true,
                true,
                view.options[(#[trigger] view.matches[i]).0 as int]@.match_text(),
            ),
        view.filter.len() <= 1 ==> can_update(view, None),
        view.filter.len() > 1 ==> (can_update(view, None) <==> 7 + 14 * (view.filter.len() - 1)
            <= 0xffff_ffff && forall|i: int|
            0 <= i < view.options.len() ==> scorable(
                view.filter.drop_last(),
                true,
                true,
                (#[trigger] view.options[i])@.match_text(),
            )),
{
    assert(view.filter.push(c) =~= view.filter + seq![c]);
}

/// A response needs a score for every option that stays: for all, or for those of
/// other sources where the items of its own were incomplete.
pub proof fn only_what_stays_has_to_be_scored(
    options: Seq<CompletionItem>,
    provider: CompletionProvider,
    filter: Seq<char>,
)
    ensures
        can_score_staying(options, provider, false, filter) <==> forall|i: int|
            0 <= i < options.len() ==> scorable(
                filter,
                true,
                true,
                (#[trigger] options[i])@.match_text(),
            ),
        can_score_staying(options, provider, true, filter) <==> forall|i: int|
            0 <= i < options.len() && !comes_from(#[trigger] options[i], provider) ==> scorable(
                filter,
                true,
                true,
                options[i]@.match_text(),
            ),
{
    assert forall|o: CompletionItem| comes_from(o, provider) == (#[trigger] o@.source()
        == provider) by {}
}

} // verus!
