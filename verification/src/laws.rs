//! What holds of the menu whatever is typed and whatever the sources send.
use vstd::prelude::*;
use vstd::seq_lib::{group_to_multiset_ensures, lemma_multiset_commutative};

use crate::completion::{
    all_scores, completions_replaced, filter_updated, match_scores, option_score,
    preselected_first, shows_again, shows_all, uncased, weak_score, CompletionView,
};
use crate::fuzzy::{all_ascii, ascii_lowered};
use crate::items::{CompletionItem, CompletionProvider};
use crate::ranking::{
    found_again, found_again_is_rescored, found_of_all, found_of_all_is_kept,
    found_of_all_once_each, is_ranking, kept_of, matches_option, once_each, rank_order,
    ranking_is_unique, ranking_keeps_matches, ranking_once_each, rescored_of, Match, INDEXABLE,
};

verus! {

/// Whether `m` is how the option at `i` is shown once every option has been
/// scored: by its index in 32 bits and a third of its score.
pub open spec fn shown_as(
    options: Seq<CompletionItem>,
    filter: Seq<char>,
    i: int,
    m: Match,
) -> bool {
    &&& option_score(filter, options[i]) matches Some(score)
    &&& m == (i as u32, (score as u32 / 3) as u32)
}

/// Once every option has been scored, what is shown are the options with a score,
/// and as many as there are of them; nothing is shown only if no option has one.
/// Of at most `INDEXABLE` options each is shown at most once.
pub proof fn shows_what_matches(
    options: Seq<CompletionItem>,
    filter: Seq<char>,
    shown: Seq<Match>,
)
    requires
        shows_all(options, filter, shown),
    ensures
        forall|m: Match| #[trigger]
            shown.contains(m) <==> exists|i: int|
                0 <= i < options.len() && #[trigger] shown_as(options, filter, i, m),
        shown.len() == all_scores(options, filter).filter(|s: Option<u16>| s is Some).len(),
        shown.len() == 0 <==> forall|i: int|
            0 <= i < options.len() ==> option_score(filter, #[trigger] options[i]) is None,
        options.len() <= INDEXABLE ==> {
            &&& once_each(shown)
            &&& forall|m: Match| #[trigger]
                shown.contains(m) <==> m.0 < options.len() && option_score(
                    filter,
                    options[m.0 as int],
                ) is Some && m.1 == option_score(filter, options[m.0 as int])->0 / 3
        },
{
    let scores = all_scores(options, filter);
    let found = found_of_all(scores);
    found_of_all_is_kept(scores);
    ranking_keeps_matches(options, weak_score(filter), found, shown);
    assert forall|m: Match| #[trigger] shown.contains(m) <==> exists|i: int|
        0 <= i < options.len() && #[trigger] shown_as(options, filter, i, m) by {
        assert(shown.contains(m) <==> found.contains(m));
        if exists|i: int| 0 <= i < scores.len() && #[trigger] kept_of(scores, i, m) {
            let i = choose|i: int| 0 <= i < scores.len() && #[trigger] kept_of(scores, i, m);
            assert(shown_as(options, filter, i, m));
        }
        if exists|i: int| 0 <= i < options.len() && #[trigger] shown_as(options, filter, i, m) {
            let i = choose|i: int|
                0 <= i < options.len() && #[trigger] shown_as(options, filter, i, m);
            assert(kept_of(scores, i, m));
        }
    }
    assert forall|i: int|
        shown.len() == 0 && 0 <= i < options.len() implies option_score(
        filter,
        #[trigger] options[i],
    ) is None by {
        if let Some(score) = option_score(filter, options[i]) {
            let m: Match = (i as u32, (score as u32 / 3) as u32);
            assert(shown_as(options, filter, i, m));
            assert(shown.contains(m));
        }
    }
    if shown.len() > 0 {
        assert(shown.contains(shown[0]));
        let i = choose|i: int|
            0 <= i < options.len() && #[trigger] shown_as(options, filter, i, shown[0]);
        assert(option_score(filter, options[i]) is Some);
    }
    if options.len() <= INDEXABLE {
        found_of_all_once_each(scores);
        ranking_once_each(options, weak_score(filter), found, shown);
        assert forall|m: Match| #[trigger] shown.contains(m) <==> m.0 < options.len()
            && option_score(filter, options[m.0 as int]) is Some && m.1 == option_score(
            filter,
            options[m.0 as int],
        )->0 / 3 by {
            if m.0 < options.len() && option_score(filter, options[m.0 as int]) is Some && m.1
                == option_score(filter, options[m.0 as int])->0 / 3 {
                assert(shown_as(options, filter, m.0 as int, m));
            }
        }
    }
}

/// Scoring every option once more changes nothing.
pub proof fn scoring_again_changes_nothing(
    options: Seq<CompletionItem>,
    filter: Seq<char>,
    shown: Seq<Match>,
    again: Seq<Match>,
)
    requires
        shows_all(options, filter, shown),
        shows_all(options, filter, again),
    ensures
        again == shown,
{
    ranking_is_unique(
        options,
        weak_score(filter),
        found_of_all(all_scores(options, filter)),
        shown,
        again,
    );
}

/// For two ASCII filters that differ only in the case of their letters, the same
/// is shown, in the same order and with the same scores.
pub proof fn letter_case_does_not_matter(
    options: Seq<CompletionItem>,
    one: Seq<char>,
    another: Seq<char>,
    shown: Seq<Match>,
    other_shown: Seq<Match>,
)
    requires
        all_ascii(one),
        all_ascii(another),
        ascii_lowered(one) == ascii_lowered(another),
        shows_all(options, one, shown),
        shows_all(options, another, other_shown),
    ensures
        shown == other_shown,
{
    assert(uncased(one) == uncased(another));
    assert(all_scores(options, one) =~= all_scores(options, another));
    scoring_again_changes_nothing(options, one, shown, other_shown);
}

/// Typing on from the same matches to two ASCII filters that differ only in the
/// case of their letters shows the same, in the same order and with the same
/// scores.
pub proof fn letter_case_does_not_matter_in_typing(
    options: Seq<CompletionItem>,
    matches: Seq<Match>,
    one: Seq<char>,
    another: Seq<char>,
    shown: Seq<Match>,
    other_shown: Seq<Match>,
)
    requires
        all_ascii(one),
        all_ascii(another),
        ascii_lowered(one) == ascii_lowered(another),
        shows_again(options, matches, one, shown),
        shows_again(options, matches, another, other_shown),
    ensures
        shown == other_shown,
{
    assert(uncased(one) == uncased(another));
    assert(match_scores(options, matches, one) =~= match_scores(options, matches, another));
    ranking_is_unique(
        options,
        weak_score(one),
        found_again(matches, match_scores(options, matches, one)),
        shown,
        other_shown,
    );
}

/// After typing, exactly the options are shown that were shown before and match
/// the longer filter, each with half of its score, and none twice that was not
/// shown twice before.
pub proof fn typing_shows_what_still_matches(
    before: CompletionView,
    c: char,
    after: CompletionView,
)
    requires
        filter_updated(before, Some(c), after),
    ensures
        forall|m: Match| #[trigger]
            after.matches.contains(m) <==> matches_option(before.matches, m.0) && option_score(
                after.filter,
                before.options[m.0 as int],
            ) is Some && m.1 == option_score(after.filter, before.options[m.0 as int])->0 / 2,
        once_each(before.matches) ==> once_each(after.matches),
{
    let (matches, options) = (before.matches, before.options);
    let scores = match_scores(options, matches, after.filter);
    let found = found_again(matches, scores);
    found_again_is_rescored(matches, scores);
    ranking_keeps_matches(options, weak_score(after.filter), found, after.matches);
    if once_each(matches) {
        ranking_once_each(options, weak_score(after.filter), found, after.matches);
    }
    assert forall|m: Match| #[trigger] after.matches.contains(m) <==> matches_option(matches, m.0)
        && option_score(after.filter, options[m.0 as int]) is Some && m.1 == option_score(
        after.filter,
        options[m.0 as int],
    )->0 / 2 by {
        assert(after.matches.contains(m) <==> found.contains(m));
        if found.contains(m) {
            let i = choose|i: int|
                0 <= i < matches.len() && #[trigger] rescored_of(matches, scores, i, m);
            assert(matches[i].0 == m.0);
        }
        if matches_option(matches, m.0) && option_score(after.filter, options[m.0 as int]) is Some
            && m.1 == option_score(after.filter, options[m.0 as int])->0 / 2 {
            let i = choose|i: int| 0 <= i < matches.len() && (#[trigger] matches[i]).0 == m.0;
            assert(rescored_of(matches, scores, i, m));
        }
    }
}

/// A longer filter only narrows down what is shown: an option is shown only if
/// it was shown before.
pub proof fn typing_only_narrows(
    before: CompletionView,
    c: char,
    after: CompletionView,
    index: u32,
)
    requires
        filter_updated(before, Some(c), after),
        matches_option(after.matches, index),
    ensures
        matches_option(before.matches, index),
{
    typing_shows_what_still_matches(before, c, after);
    let i = choose|i: int|
        0 <= i < after.matches.len() && (#[trigger] after.matches[i]).0 == index;
    assert(after.matches.contains(after.matches[i]));
}

/// A longer filter hides no option that was shown and still matches.
pub proof fn typing_keeps_what_matches(
    before: CompletionView,
    c: char,
    after: CompletionView,
    index: u32,
)
    requires
        filter_updated(before, Some(c), after),
        matches_option(before.matches, index),
        option_score(after.filter, before.options[index as int]) is Some,
    ensures
        matches_option(after.matches, index),
{
    typing_shows_what_still_matches(before, c, after);
    let score = option_score(after.filter, before.options[index as int])->0;
    let m: Match = (index, (score / 2) as u32);
    assert(after.matches.contains(m));
    let k = choose|k: int| 0 <= k < after.matches.len() && after.matches[k] == m;
    assert(after.matches[k].0 == index);
}

/// Deleting what was typed brings the filter back, and with it, if everything
/// that matches was shown before, what was shown.
pub proof fn deleting_undoes_typing(
    before: CompletionView,
    c: char,
    typed: CompletionView,
    after: CompletionView,
)
    requires
        filter_updated(before, Some(c), typed),
        filter_updated(typed, None, after),
    ensures
        after.filter == before.filter,
        after.options == before.options,
        before.filter.len() > 0 && shows_all(before.options, before.filter, before.matches)
            ==> after.matches == before.matches,
        before.filter.len() == 0 ==> after.matches.len() == 0,
{
    assert(after.filter =~= before.filter);
    if before.filter.len() > 0 && shows_all(before.options, before.filter, before.matches) {
        ranking_is_unique(
            before.options,
            weak_score(before.filter),
            found_of_all(all_scores(before.options, before.filter)),
            before.matches,
            after.matches,
        );
    }
}

/// Matches that exceed the largest weak score are shown above all others.
pub proof fn good_before_weak(
    options: Seq<CompletionItem>,
    min_score: u32,
    found: Seq<Match>,
    shown: Seq<Match>,
    i: int,
    j: int,
)
    requires
        is_ranking(options, min_score, found, shown),
        0 <= i < j < shown.len(),
        shown[j].1 > min_score,
    ensures
        shown[i].1 > min_score,
{
    assert(rank_order(options, min_score)(shown[i], shown[j]));
}

/// Among the good matches, and among the weak ones, those that a server wants at
/// the top are shown above the others; among these, those of a better source are
/// shown above the others; and among these, those with a larger score.
pub proof fn preselected_then_source_then_score(
    options: Seq<CompletionItem>,
    min_score: u32,
    found: Seq<Match>,
    shown: Seq<Match>,
    i: int,
    j: int,
)
    requires
        is_ranking(options, min_score, found, shown),
        0 <= i < j < shown.len(),
        shown[i].1 > min_score <==> shown[j].1 > min_score,
    ensures
        ({
            let above = options[shown[i].0 as int]@;
            let below = options[shown[j].0 as int]@;
            &&& below.is_preselected() ==> above.is_preselected()
            &&& above.is_preselected() == below.is_preselected() ==> above.priority()
                <= below.priority()
            &&& above.is_preselected() == below.is_preselected() && above.priority()
                == below.priority() ==> shown[i].1 >= shown[j].1
        }),
{
    assert(rank_order(options, min_score)(shown[i], shown[j]));
}

/// A filter and its opposite let everything through between them.
proof fn filter_splits<A>(s: Seq<A>, keep: spec_fn(A) -> bool)
    ensures
        (s.filter(keep) + s.filter(|a: A| !keep(a))).to_multiset() == s.to_multiset(),
    decreases s.len(),
{
    broadcast use group_to_multiset_ensures;

    let drop = |a: A| !keep(a);
    lemma_multiset_commutative(s.filter(keep), s.filter(drop));
    reveal(Seq::filter);
    if s.len() == 0 {
        assert(s.filter(keep) + s.filter(drop) =~= s);
    } else {
        let rest = s.drop_last();
        filter_splits(rest, keep);
        lemma_multiset_commutative(rest.filter(keep), rest.filter(drop));
        assert(rest.push(s.last()) =~= s);
        assert(s.to_multiset() == rest.to_multiset().insert(s.last()));
        if keep(s.last()) {
            assert(s.filter(keep) == rest.filter(keep).push(s.last()));
            assert(s.filter(drop) == rest.filter(drop));
            assert(s.filter(keep).to_multiset() == rest.filter(keep).to_multiset().insert(
                s.last(),
            ));
        } else {
            assert(s.filter(keep) == rest.filter(keep));
            assert(s.filter(drop) == rest.filter(drop).push(s.last()));
            assert(s.filter(drop).to_multiset() == rest.filter(drop).to_multiset().insert(
                s.last(),
            ));
        }
        assert(s.filter(keep).to_multiset().add(s.filter(drop).to_multiset())
            =~= rest.filter(keep).to_multiset().add(rest.filter(drop).to_multiset()).insert(
            s.last(),
        ));
    }
}

/// Bringing the preselected items to the front loses none and adds none.
pub proof fn preselected_first_keeps_items(items: Seq<CompletionItem>)
    ensures
        preselected_first(items).to_multiset() == items.to_multiset(),
{
    let wanted = |o: CompletionItem| o@.is_preselected();
    filter_splits(items, wanted);
    assert((|o: CompletionItem| !wanted(o)) =~= (|o: CompletionItem| !o@.is_preselected()));
}

/// Where the items of a source were incomplete, the only options of that source
/// are those of the new response.
pub proof fn incomplete_items_are_gone(
    before: CompletionView,
    provider: CompletionProvider,
    items: Seq<CompletionItem>,
    after: CompletionView,
    i: int,
)
    requires
        completions_replaced(before, provider, items, true, after),
        0 <= i < after.options.len(),
        after.options[i]@.source() == provider,
    ensures
        items.contains(after.options[i]),
{
    let foreign = |o: CompletionItem| o@.source() != provider;
    let kept = before.options.filter(foreign);
    if i < kept.len() {
        before.options.lemma_filter_pred(foreign, i);
        assert(after.options[i] == kept[i]);
    } else {
        assert(after.options[i] == items[i - kept.len()]);
    }
}

/// A filter lets through a concatenation what it lets through the parts.
pub proof fn filter_of_sum<A>(a: Seq<A>, b: Seq<A>, keep: spec_fn(A) -> bool)
    ensures
        (a + b).filter(keep) == a.filter(keep) + b.filter(keep),
    decreases b.len(),
{
    reveal(Seq::filter);
    if b.len() == 0 {
        assert(a + b =~= a);
        assert(a.filter(keep) + b.filter(keep) =~= a.filter(keep));
    } else {
        filter_of_sum(a, b.drop_last(), keep);
        assert((a + b).drop_last() =~= a + b.drop_last());
        assert((a + b).last() == b.last());
        assert((a + b).filter(keep) =~= a.filter(keep) + b.filter(keep));
    }
}

/// What a filter let through passes it again.
pub proof fn filter_twice<A>(s: Seq<A>, keep: spec_fn(A) -> bool)
    ensures
        s.filter(keep).filter(keep) == s.filter(keep),
    decreases s.len(),
{
    reveal(Seq::filter);
    if s.len() > 0 {
        filter_twice(s.drop_last(), keep);
        if keep(s.last()) {
            let rest = s.drop_last().filter(keep);
            assert(rest.push(s.last()).drop_last() =~= rest);
        }
    }
}

/// Of two incomplete responses of one source in a row only the newer one counts:
/// the options, what is shown and the filter are as if it had come alone.
pub proof fn newest_incomplete_response_wins(
    before: CompletionView,
    provider: CompletionProvider,
    older: Seq<CompletionItem>,
    between: CompletionView,
    newer: Seq<CompletionItem>,
    after: CompletionView,
    alone: CompletionView,
)
    requires
        forall|i: int| 0 <= i < older.len() ==> (#[trigger] older[i])@.source() == provider,
        completions_replaced(before, provider, older, true, between),
        completions_replaced(between, provider, newer, true, after),
        completions_replaced(before, provider, newer, true, alone),
    ensures
        after.options == alone.options,
        after.matches == alone.matches,
        after.filter == alone.filter,
{
    other_sources_are_untouched(before, provider, older, true, between);
    scoring_again_changes_nothing(after.options, after.filter, after.matches, alone.matches);
}

/// The items of a source leave the options of the others as they are, and in
/// their order.
pub proof fn other_sources_are_untouched(
    before: CompletionView,
    provider: CompletionProvider,
    items: Seq<CompletionItem>,
    is_incomplete: bool,
    after: CompletionView,
)
    requires
        completions_replaced(before, provider, items, is_incomplete, after),
        forall|i: int| 0 <= i < items.len() ==> (#[trigger] items[i])@.source() == provider,
    ensures
        after.options.filter(|o: CompletionItem| o@.source() != provider)
            == before.options.filter(|o: CompletionItem| o@.source() != provider),
{
    let foreign = |o: CompletionItem| o@.source() != provider;
    let kept = before.options.filter(foreign);
    assert(items.filter(foreign).len() == 0) by {
        let passed = items.filter(foreign);
        if passed.len() > 0 {
            items.lemma_filter_pred(foreign, 0);
            assert(passed.contains(passed[0]));
            items.lemma_filter_contains_rev(foreign, passed[0]);
            let j = choose|j: int| 0 <= j < items.len() && items[j] == passed[0];
            assert(items[j]@.source() == provider);
        }
    }
    filter_twice(before.options, foreign);
    if is_incomplete {
        filter_of_sum(kept, items, foreign);
    } else {
        filter_of_sum(before.options, items, foreign);
    }
    assert(after.options.filter(foreign) =~= kept);
}

} // verus!
