//! Which options match, and in what order they are shown.
//!
//! A match is the index of an option and the score that the option got. The
//! scores that come from the matcher are brought down to a smaller scale before
//! they are kept.
use vstd::prelude::*;
use vstd::relations::{sorted_by, total_ordering};
use vstd::seq_lib::{group_to_multiset_ensures, lemma_multiset_commutative, lemma_sorted_unique};

use crate::items::CompletionItem;

verus! {

/// The index of an option and its score.
pub type Match = (u32, u32);

/// Everything that decides the place of a match.
pub struct RankKey {
    /// The score does not exceed the largest one of a weak match.
    pub weak: bool,
    pub preselected: bool,
    pub priority: int,
    pub score: int,
    pub index: int,
}

impl RankKey {
    /// Good matches come before weak ones; among these, preselected ones come
    /// first, then those of the better source, then those with the larger
    /// score, then those with the smaller index.
    pub open spec fn no_later_than(self, other: RankKey) -> bool {
        if self.weak != other.weak {
            !self.weak
        } else if self.preselected != other.preselected {
            self.preselected
        } else if self.priority != other.priority {
            self.priority < other.priority
        } else if self.score != other.score {
            self.score > other.score
        } else {
            self.index <= other.index
        }
    }
}

/// What decides the place of the match `m`.
pub open spec fn rank_key(options: Seq<CompletionItem>, min_score: u32, m: Match) -> RankKey {
    let option = options[m.0 as int]@;
    RankKey {
        weak: m.1 <= min_score,
        preselected: option.is_preselected(),
        priority: option.priority() as int,
        score: m.1 as int,
        index: m.0 as int,
    }
}

/// The order in which matches are shown.
pub open spec fn rank_order(options: Seq<CompletionItem>, min_score: u32) -> spec_fn(
    Match,
    Match,
) -> bool {
    |a: Match, b: Match|
        rank_key(options, min_score, a).no_later_than(rank_key(options, min_score, b))
}

/// Whether `ranked` holds the matches of `found`, each as often, in the order in
/// which they are shown.
pub open spec fn is_ranking(
    options: Seq<CompletionItem>,
    min_score: u32,
    found: Seq<Match>,
    ranked: Seq<Match>,
) -> bool {
    &&& ranked.to_multiset() == found.to_multiset()
    &&& sorted_by(ranked, rank_order(options, min_score))
}

/// Whether every match is one of an option that there is.
pub open spec fn in_range(options: Seq<CompletionItem>, matches: Seq<Match>) -> bool {
    forall|i: int| 0 <= i < matches.len() ==> (#[trigger] matches[i]).0 < options.len()
}

/// The number of options up to which every option has an index of its own.
pub const INDEXABLE: u64 = 0x1_0000_0000;

/// Whether no option is matched twice.
pub open spec fn once_each(matches: Seq<Match>) -> bool {
    forall|i: int, j: int|
        0 <= i < j < matches.len() ==> (#[trigger] matches[i]).0 != (#[trigger] matches[j]).0
}

/// The order in which matches are shown is total: of two different matches
/// exactly one comes first.
pub proof fn rank_order_is_total(options: Seq<CompletionItem>, min_score: u32)
    ensures
        total_ordering(rank_order(options, min_score)),
{
    let order = rank_order(options, min_score);
    assert forall|a: Match, b: Match| #[trigger] order(a, b) && #[trigger] order(b, a) implies a
        == b by {
        assert(a.0 == b.0 && a.1 == b.1);
    }
}

/// There is only one ranking of what was found.
pub proof fn ranking_is_unique(
    options: Seq<CompletionItem>,
    min_score: u32,
    found: Seq<Match>,
    one: Seq<Match>,
    another: Seq<Match>,
)
    requires
        is_ranking(options, min_score, found, one),
        is_ranking(options, min_score, found, another),
    ensures
        one == another,
{
    rank_order_is_total(options, min_score);
    lemma_sorted_unique(one, another, rank_order(options, min_score));
}

/// Every match in a ranking was found, and every match that was found is in it.
pub proof fn ranking_keeps_matches(
    options: Seq<CompletionItem>,
    min_score: u32,
    found: Seq<Match>,
    ranked: Seq<Match>,
)
    requires
        is_ranking(options, min_score, found, ranked),
    ensures
        ranked.len() == found.len(),
        forall|m: Match| #[trigger] ranked.contains(m) <==> found.contains(m),
{
    broadcast use group_to_multiset_ensures;

    assert(ranked.len() == ranked.to_multiset().len());
    assert(found.len() == found.to_multiset().len());
    assert forall|m: Match| #[trigger] ranked.contains(m) <==> found.contains(m) by {
        assert(ranked.contains(m) <==> ranked.to_multiset().count(m) > 0);
        assert(found.contains(m) <==> found.to_multiset().count(m) > 0);
    }
}

/// A ranking of matches in range is in range.
pub proof fn ranking_in_range(
    options: Seq<CompletionItem>,
    min_score: u32,
    found: Seq<Match>,
    ranked: Seq<Match>,
)
    requires
        is_ranking(options, min_score, found, ranked),
        in_range(options, found),
    ensures
        in_range(options, ranked),
{
    ranking_keeps_matches(options, min_score, found, ranked);
    assert forall|i: int| 0 <= i < ranked.len() implies (#[trigger] ranked[i]).0
        < options.len() by {
        assert(ranked.contains(ranked[i]));
        let j = choose|j: int| 0 <= j < found.len() && found[j] == ranked[i];
        assert(found[j].0 < options.len());
    }
}

/// A ranking of options that are matched once each matches them once each.
pub proof fn ranking_once_each(
    options: Seq<CompletionItem>,
    min_score: u32,
    found: Seq<Match>,
    ranked: Seq<Match>,
)
    requires
        is_ranking(options, min_score, found, ranked),
        once_each(found),
    ensures
        once_each(ranked),
{
    ranking_keeps_matches(options, min_score, found, ranked);
    assert(found.no_duplicates());
    found.lemma_multiset_has_no_duplicates();
    ranked.lemma_multiset_has_no_duplicates_conv();
    assert forall|i: int, j: int| 0 <= i < j < ranked.len() implies (#[trigger] ranked[i]).0 != (
    #[trigger] ranked[j]).0 by {
        assert(ranked.contains(ranked[i]) && ranked.contains(ranked[j]));
        let k = choose|k: int| 0 <= k < found.len() && found[k] == ranked[i];
        let l = choose|l: int| 0 <= l < found.len() && found[l] == ranked[j];
        assert(ranked[i] != ranked[j]);
        if k < l {
            assert(found[k].0 != found[l].0);
        } else {
            assert(found[l].0 != found[k].0);
        }
    }
}

/// Whether `a` may be shown in front of `b`.
fn no_later(options: &Vec<CompletionItem>, min_score: u32, a: Match, b: Match) -> (r: bool)
    requires
        a.0 < options@.len(),
        b.0 < options@.len(),
    ensures
        r == rank_order(options@, min_score)(a, b),
{
    let first = &options[a.0 as usize];
    let second = &options[b.0 as usize];
    let weak = a.1 <= min_score;
    let preselected = first.preselect();
    let priority: i8 = first.provider_priority();
    let other_priority: i8 = second.provider_priority();
    if weak != (b.1 <= min_score) {
        !weak
    } else if preselected != second.preselect() {
        preselected
    } else if priority != other_priority {
        priority < other_priority
    } else if a.1 != b.1 {
        a.1 > b.1
    } else {
        a.0 <= b.0
    }
}

/// Merges two rankings into one.
fn merge(
    options: &Vec<CompletionItem>,
    min_score: u32,
    left: Vec<Match>,
    right: Vec<Match>,
) -> (out: Vec<Match>)
    requires
        in_range(options@, left@),
        in_range(options@, right@),
        sorted_by(left@, rank_order(options@, min_score)),
        sorted_by(right@, rank_order(options@, min_score)),
    ensures
        out@.to_multiset() == left@.to_multiset().add(right@.to_multiset()),
        sorted_by(out@, rank_order(options@, min_score)),
{
    let ghost order = rank_order(options@, min_score);
    let mut out: Vec<Match> = Vec::new();
    let mut i: usize = 0;
    let mut j: usize = 0;
    proof {
        rank_order_is_total(options@, min_score);
        broadcast use group_to_multiset_ensures;

        assert(left@.take(0) =~= Seq::<Match>::empty());
        assert(right@.take(0) =~= Seq::<Match>::empty());
        assert(Seq::<Match>::empty().to_multiset().len() == 0);
        assert(out@.to_multiset() =~= left@.take(0).to_multiset().add(
            right@.take(0).to_multiset(),
        ));
    }
    while i < left.len() || j < right.len()
        invariant
            i <= left@.len(),
            j <= right@.len(),
            in_range(options@, left@),
            in_range(options@, right@),
            order == rank_order(options@, min_score),
            total_ordering(order),
            sorted_by(left@, order),
            sorted_by(right@, order),
            sorted_by(out@, order),
            forall|k: int, l: int|
                0 <= k < out@.len() && i <= l < left@.len() ==> order(
                    #[trigger] out@[k],
                    #[trigger] left@[l],
                ),
            forall|k: int, l: int|
                0 <= k < out@.len() && j <= l < right@.len() ==> order(
                    #[trigger] out@[k],
                    #[trigger] right@[l],
                ),
            out@.to_multiset() == left@.take(i as int).to_multiset().add(
                right@.take(j as int).to_multiset(),
            ),
        decreases left@.len() - i + right@.len() - j,
    {
        let ghost before = out@;
        let from_left = if i == left.len() {
            false
        } else if j == right.len() {
            true
        } else {
            no_later(options, min_score, left[i], right[j])
        };
        if from_left {
            out.push(left[i]);
            proof {
                assert(left@.take(i + 1) =~= left@.take(i as int).push(left@[i as int]));
                broadcast use group_to_multiset_ensures;

                assert(out@.to_multiset() =~= left@.take(i + 1).to_multiset().add(
                    right@.take(j as int).to_multiset(),
                ));
                assert forall|l: int| j <= l < right@.len() implies order(
                    left@[i as int],
                    #[trigger] right@[l],
                ) by {
                    assert(order(left@[i as int], right@[j as int]));
                    if l > j {
                        assert(order(right@[j as int], right@[l]));
                    }
                }
            }
            i = i + 1;
        } else {
            out.push(right[j]);
            proof {
                assert(right@.take(j + 1) =~= right@.take(j as int).push(right@[j as int]));
                broadcast use group_to_multiset_ensures;

                assert(out@.to_multiset() =~= left@.take(i as int).to_multiset().add(
                    right@.take(j + 1).to_multiset(),
                ));
                assert forall|l: int| i <= l < left@.len() implies order(
                    right@[j as int],
                    #[trigger] left@[l],
                ) by {
                    assert(order(right@[j as int], left@[i as int]));
                    if l > i {
                        assert(order(left@[i as int], left@[l]));
                    }
                }
            }
            j = j + 1;
        }
    }
    proof {
        assert(left@.take(i as int) =~= left@);
        assert(right@.take(j as int) =~= right@);
    }
    out
}

/// Puts matches into the order in which they are shown.
pub fn rank(options: &Vec<CompletionItem>, min_score: u32, found: Vec<Match>) -> (ranked: Vec<
    Match,
>)
    requires
        in_range(options@, found@),
    ensures
        is_ranking(options@, min_score, found@, ranked@),
    decreases found@.len(),
{
    let len: usize = found.len();
    if len <= 1 {
        return found;
    }
    let mut left = found;
    let right = left.split_off(len / 2);
    proof {
        assert(found@ =~= left@ + right@);
        assert forall|i: int| 0 <= i < left@.len() implies (#[trigger] left@[i]).0
            < options@.len() by {
            assert(found@[i].0 < options@.len());
        }
        assert forall|i: int| 0 <= i < right@.len() implies (#[trigger] right@[i]).0
            < options@.len() by {
            assert(found@[i + left@.len()].0 < options@.len());
        }
        lemma_multiset_commutative(left@, right@);
    }
    let ghost (left_found, right_found) = (left@, right@);
    let left = rank(options, min_score, left);
    let right = rank(options, min_score, right);
    proof {
        ranking_in_range(options@, min_score, left_found, left@);
        ranking_in_range(options@, min_score, right_found, right@);
    }
    merge(options, min_score, left, right)
}

/// What is found when every option is scored: the options with a score, in
/// their order, each with a third of its score.
pub open spec fn found_of_all(scores: Seq<Option<u16>>) -> Seq<Match>
    decreases scores.len(),
{
    if scores.len() == 0 {
        Seq::empty()
    } else {
        let before = found_of_all(scores.drop_last());
        match scores.last() {
            Some(score) => before.push(((scores.len() - 1) as u32, (score as u32 / 3) as u32)),
            None => before,
        }
    }
}

/// What is left when the matches are scored anew: those with a score, in their
/// order, each with half of its new score.
pub open spec fn found_again(matches: Seq<Match>, scores: Seq<Option<u16>>) -> Seq<Match>
    decreases matches.len(),
{
    if matches.len() == 0 {
        Seq::empty()
    } else {
        let before = found_again(matches.drop_last(), scores.drop_last());
        match scores.last() {
            Some(score) => before.push((matches.last().0, (score as u32 / 2) as u32)),
            None => before,
        }
    }
}

/// Whether `m` is what is kept of the option at `i`: its index in 32 bits and a
/// third of its score.
pub open spec fn kept_of(scores: Seq<Option<u16>>, i: int, m: Match) -> bool {
    scores[i] matches Some(score) && m == (i as u32, (score as u32 / 3) as u32)
}

/// What is found when every option is scored is what is kept of the options with
/// a score, once for each of them.
pub proof fn found_of_all_is_kept(scores: Seq<Option<u16>>)
    ensures
        forall|m: Match| #[trigger]
            found_of_all(scores).contains(m) <==> exists|i: int|
                0 <= i < scores.len() && #[trigger] kept_of(scores, i, m),
        found_of_all(scores).len() == scores.filter(|s: Option<u16>| s is Some).len(),
    decreases scores.len(),
{
    reveal(Seq::filter);
    let found = found_of_all(scores);
    if scores.len() > 0 {
        let rest = scores.drop_last();
        let before = found_of_all(rest);
        let n = scores.len() - 1;
        found_of_all_is_kept(rest);
        assert forall|m: Match| #[trigger] found.contains(m) <==> exists|i: int|
            0 <= i < scores.len() && #[trigger] kept_of(scores, i, m) by {
            if found.contains(m) {
                let k = choose|k: int| 0 <= k < found.len() && found[k] == m;
                if k < before.len() {
                    assert(before[k] == m);
                    assert(before.contains(m));
                    let i = choose|i: int| 0 <= i < rest.len() && #[trigger] kept_of(rest, i, m);
                    assert(kept_of(scores, i, m));
                } else {
                    assert(kept_of(scores, n, m));
                }
            }
            if exists|i: int| 0 <= i < scores.len() && #[trigger] kept_of(scores, i, m) {
                let i = choose|i: int| 0 <= i < scores.len() && #[trigger] kept_of(scores, i, m);
                if i < n {
                    assert(kept_of(rest, i, m));
                    assert(before.contains(m));
                    let k = choose|k: int| 0 <= k < before.len() && before[k] == m;
                    assert(found[k] == m);
                } else {
                    assert(found[before.len() as int] == m);
                }
            }
        }
    }
}

/// Of at most `INDEXABLE` options each is found at most once.
pub proof fn found_of_all_once_each(scores: Seq<Option<u16>>)
    requires
        scores.len() <= INDEXABLE,
    ensures
        once_each(found_of_all(scores)),
    decreases scores.len(),
{
    let found = found_of_all(scores);
    if scores.len() > 0 {
        let rest = scores.drop_last();
        let before = found_of_all(rest);
        found_of_all_once_each(rest);
        found_of_all_is_kept(rest);
        assert forall|i: int, j: int| 0 <= i < j < found.len() implies (#[trigger] found[i]).0 != (
        #[trigger] found[j]).0 by {
            assert(before.contains(before[i]));
            let k = choose|k: int|
                0 <= k < rest.len() && #[trigger] kept_of(rest, k, before[i]);
            assert(found[i].0 == k);
            if j < before.len() {
                assert(before[i].0 != before[j].0);
            }
        }
    }
}

/// Where every option has a score, as many are found as there are options.
pub proof fn found_of_scored(scores: Seq<Option<u16>>)
    requires
        forall|i: int| 0 <= i < scores.len() ==> #[trigger] scores[i] is Some,
    ensures
        found_of_all(scores).len() == scores.len(),
    decreases scores.len(),
{
    if scores.len() > 0 {
        assert(scores[scores.len() - 1] is Some);
        let rest = scores.drop_last();
        assert forall|i: int| 0 <= i < rest.len() implies #[trigger] rest[i] is Some by {
            assert(scores[i] is Some);
        }
        found_of_scored(rest);
    }
}

/// Whether `m` is what is kept of the match at `i` with its new score: its index
/// and half of the score.
pub open spec fn rescored_of(
    matches: Seq<Match>,
    scores: Seq<Option<u16>>,
    i: int,
    m: Match,
) -> bool {
    scores[i] matches Some(score) && m == (matches[i].0, (score as u32 / 2) as u32)
}

/// Whether one of the matches is one of the option with this index.
pub open spec fn matches_option(matches: Seq<Match>, index: u32) -> bool {
    exists|i: int| 0 <= i < matches.len() && (#[trigger] matches[i]).0 == index
}

/// What is found again are the matches with a new score, each with half of it.
pub proof fn found_again_is_rescored(matches: Seq<Match>, scores: Seq<Option<u16>>)
    requires
        matches.len() == scores.len(),
    ensures
        forall|m: Match| #[trigger]
            found_again(matches, scores).contains(m) <==> exists|i: int|
                0 <= i < matches.len() && #[trigger] rescored_of(matches, scores, i, m),
        once_each(matches) ==> once_each(found_again(matches, scores)),
    decreases matches.len(),
{
    let found = found_again(matches, scores);
    if matches.len() > 0 {
        let (rest, rest_scores) = (matches.drop_last(), scores.drop_last());
        let before = found_again(rest, rest_scores);
        let n = matches.len() - 1;
        found_again_is_rescored(rest, rest_scores);
        assert forall|m: Match| #[trigger] found.contains(m) <==> exists|i: int|
            0 <= i < matches.len() && #[trigger] rescored_of(matches, scores, i, m) by {
            if found.contains(m) {
                let k = choose|k: int| 0 <= k < found.len() && found[k] == m;
                if k < before.len() {
                    assert(before[k] == m);
                    assert(before.contains(m));
                    let i = choose|i: int|
                        0 <= i < rest.len() && #[trigger] rescored_of(rest, rest_scores, i, m);
                    assert(rescored_of(matches, scores, i, m));
                } else {
                    assert(rescored_of(matches, scores, n, m));
                }
            }
            if exists|i: int|
                0 <= i < matches.len() && #[trigger] rescored_of(matches, scores, i, m) {
                let i = choose|i: int|
                    0 <= i < matches.len() && #[trigger] rescored_of(matches, scores, i, m);
                if i < n {
                    assert(rescored_of(rest, rest_scores, i, m));
                    assert(before.contains(m));
                    let k = choose|k: int| 0 <= k < before.len() && before[k] == m;
                    assert(found[k] == m);
                } else {
                    assert(found[before.len() as int] == m);
                }
            }
        }
        if once_each(matches) {
            assert(once_each(rest)) by {
                assert forall|i: int, j: int| 0 <= i < j < rest.len() implies (
                #[trigger] rest[i]).0 != (#[trigger] rest[j]).0 by {
                    assert(matches[i].0 != matches[j].0);
                }
            }
            assert forall|i: int, j: int| 0 <= i < j < found.len() implies (
            #[trigger] found[i]).0 != (#[trigger] found[j]).0 by {
                assert(before.contains(before[i]));
                let k = choose|k: int|
                    0 <= k < rest.len() && #[trigger] rescored_of(rest, rest_scores, k, before[i]);
                if j < before.len() {
                    assert(before[i].0 != before[j].0);
                } else {
                    assert(matches[k].0 != matches[n].0);
                }
            }
        }
    }
}

/// Collects the options with a score; the score of the option with index `i`
/// stands at index `i`.
pub fn collect_matches(scores: &Vec<Option<u16>>) -> (found: Vec<Match>)
    ensures
        found@ == found_of_all(scores@),
        forall|i: int| 0 <= i < found@.len() ==> (#[trigger] found@[i]).0 < scores@.len(),
{
    let mut found: Vec<Match> = Vec::new();
    let mut i: usize = 0;
    while i < scores.len()
        invariant
            i <= scores@.len(),
            found@ == found_of_all(scores@.take(i as int)),
            forall|k: int| 0 <= k < found@.len() ==> (#[trigger] found@[k]).0 < scores@.len(),
        decreases scores@.len() - i,
    {
        assert(scores@.take(i + 1).drop_last() =~= scores@.take(i as int));
        if let Some(score) = scores[i] {
            let index: u32 = #[verifier::truncate]
            (i as u32);
            assert((i as u32) as usize <= i) by (bit_vector);
            found.push((index, score as u32 / 3));
        }
        i = i + 1;
    }
    assert(scores@.take(i as int) =~= scores@);
    found
}

/// Keeps the matches with a new score; the new score of the match at index `i`
/// stands at index `i`.
pub fn rescore_matches(matches: &Vec<Match>, scores: &Vec<Option<u16>>) -> (found: Vec<Match>)
    requires
        matches@.len() == scores@.len(),
    ensures
        found@ == found_again(matches@, scores@),
{
    let mut found: Vec<Match> = Vec::new();
    let mut i: usize = 0;
    while i < scores.len()
        invariant
            i <= scores@.len() == matches@.len(),
            found@ == found_again(matches@.take(i as int), scores@.take(i as int)),
        decreases scores@.len() - i,
    {
        assert(scores@.take(i + 1).drop_last() =~= scores@.take(i as int));
        assert(matches@.take(i + 1).drop_last() =~= matches@.take(i as int));
        if let Some(score) = scores[i] {
            found.push((matches[i].0, score as u32 / 2));
        }
        i = i + 1;
    }
    assert(scores@.take(i as int) =~= scores@);
    assert(matches@.take(i as int) =~= matches@);
    found
}

/// The largest needle for which the largest weak score can be computed.
pub const MAX_NEEDLE: usize = 306_783_377;

/// The largest score of a weak match, for a needle of `needle_len` characters.
pub open spec fn min_score_of(needle_len: nat) -> nat {
    (7 + needle_len * 14) / 3
}

/// Computes the largest score of a weak match. Matches that do not exceed it are
/// moved out of the way.
pub fn min_score(needle_len: usize) -> (r: u32)
    requires
        needle_len <= MAX_NEEDLE,
    ensures
        r == min_score_of(needle_len as nat),
{
    (7 + needle_len as u32 * 14) / 3
}

} // verus!
