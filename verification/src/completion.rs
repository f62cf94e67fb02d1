//! The completion menu: its options, the text they are filtered by, and the
//! matches that are shown.
use vstd::prelude::*;
use vstd::std_specs::cmp::PartialEqSpec;

use crate::fuzzy::{
    all_ascii, ascii_lowered, atom_needle_len, atom_score, can_score_text, fuzzy_score,
    new_matcher, prepared_len, scorable, shorter_is_scorable,
};
use crate::items::{CompletionItem, CompletionProvider, CompletionResponse};
use crate::ranking::{
    collect_matches, found_again, found_again_is_rescored, found_of_all, found_of_all_once_each,
    found_of_scored, in_range, is_ranking, min_score, min_score_of, once_each, rank,
    ranking_in_range, ranking_keeps_matches, ranking_once_each, rescore_matches, rescored_of,
    Match, INDEXABLE, MAX_NEEDLE,
};
use crate::text::{fragment, word_start, word_start_of};

verus! {

/// Whether upper and lower case letters match each other.
const IGNORE_CASE: bool = true;

/// Whether a plain letter matches its accented forms.
const NORMALIZE: bool = true;

/// Whether a match at the start of the text scores a little higher.
const PREFER_PREFIX: bool = true;

/// The completion menu.
pub struct Completion {
    options: Vec<CompletionItem>,
    matches: Vec<Match>,
    cursor: Option<usize>,
    trigger_offset: usize,
    filter: String,
}

/// What a `Completion` holds.
pub struct CompletionView {
    /// All options, shown or not.
    pub options: Seq<CompletionItem>,
    /// What is shown, from top to bottom.
    pub matches: Seq<Match>,
    /// Which of the matches is selected.
    pub cursor: Option<usize>,
    /// Where in the document the completion was triggered.
    pub trigger_offset: usize,
    /// The text by which the options are filtered.
    pub filter: Seq<char>,
}

impl View for Completion {
    type V = CompletionView;

    closed spec fn view(&self) -> CompletionView {
        CompletionView {
            options: self.options@,
            matches: self.matches@,
            cursor: self.cursor,
            trigger_offset: self.trigger_offset,
            filter: self.filter@,
        }
    }
}

/// Whether the matcher can score every option for this filter.
pub open spec fn can_score(options: Seq<CompletionItem>, filter: Seq<char>) -> bool {
    forall|i: int|
        0 <= i < options.len() ==> scorable(
            filter,
            true,
            true,
            (#[trigger] options[i])@.match_text(),
        )
}

/// Whether the matcher can score the options behind the matches for this filter.
pub open spec fn can_score_shown(
    options: Seq<CompletionItem>,
    matches: Seq<Match>,
    filter: Seq<char>,
) -> bool {
    forall|i: int|
        0 <= i < matches.len() ==> scorable(
            filter,
            true,
            true,
            options[(#[trigger] matches[i]).0 as int]@.match_text(),
        )
}

/// Whether the matcher can score the options for this filter that stay when a
/// response of `provider` comes: all of them, or, where the items of the same
/// source were incomplete, those of the other sources.
pub open spec fn can_score_staying(
    options: Seq<CompletionItem>,
    provider: CompletionProvider,
    is_incomplete: bool,
    filter: Seq<char>,
) -> bool {
    forall|i: int|
        0 <= i < options.len() && !(is_incomplete && (#[trigger] options[i])@.source() == provider)
            ==> scorable(filter, true, true, options[i]@.match_text())
}

impl CompletionView {
    /// Every match is one of an option, no option is matched twice, the selected
    /// match is one of those shown, and the filter is not too long.
    pub open spec fn well_formed(self) -> bool {
        &&& in_range(self.options, self.matches)
        &&& self.options.len() <= INDEXABLE ==> once_each(self.matches)
        &&& self.cursor matches Some(cursor) ==> cursor < self.matches.len()
        &&& self.filter.len() <= MAX_NEEDLE
    }
}

/// The filter without the difference between ASCII capitals and lower case
/// letters, where it is ASCII throughout.
pub open spec fn uncased(filter: Seq<char>) -> Seq<char> {
    if all_ascii(filter) {
        ascii_lowered(filter)
    } else {
        filter
    }
}

/// The score that the matcher gives an option.
pub open spec fn option_score(filter: Seq<char>, option: CompletionItem) -> Option<u16> {
    fuzzy_score(uncased(filter), true, true, true, option@.match_text())
}

/// The scores of all options.
pub open spec fn all_scores(options: Seq<CompletionItem>, filter: Seq<char>) -> Seq<Option<u16>> {
    options.map_values(|o: CompletionItem| option_score(filter, o))
}

/// The scores of the options that matched before.
pub open spec fn match_scores(
    options: Seq<CompletionItem>,
    matches: Seq<Match>,
    filter: Seq<char>,
) -> Seq<Option<u16>> {
    matches.map_values(|m: Match| option_score(filter, options[m.0 as int]))
}

/// The largest score of a weak match for this filter.
pub open spec fn weak_score(filter: Seq<char>) -> u32 {
    min_score_of(prepared_len(uncased(filter), true, true) as nat) as u32
}

/// Whether `shown` is what is shown once every option has been scored.
pub open spec fn shows_all(
    options: Seq<CompletionItem>,
    filter: Seq<char>,
    shown: Seq<Match>,
) -> bool {
    is_ranking(options, weak_score(filter), found_of_all(all_scores(options, filter)), shown)
}

/// Whether `shown` is what is shown once the options behind `matches` have been
/// scored anew.
pub open spec fn shows_again(
    options: Seq<CompletionItem>,
    matches: Seq<Match>,
    filter: Seq<char>,
    shown: Seq<Match>,
) -> bool {
    is_ranking(
        options,
        weak_score(filter),
        found_again(matches, match_scores(options, matches, filter)),
        shown,
    )
}

/// The word in front of the cursor.
pub open spec fn word_before(text: Seq<char>, cursor: int) -> Seq<char> {
    text.subrange(word_start_of(text, cursor), cursor)
}

/// Whether the matcher can score the items for this filter.
pub open spec fn can_open(items: Seq<CompletionItem>, filter: Seq<char>) -> bool {
    filter.len() <= MAX_NEEDLE && can_score(items, filter)
}

/// What a menu holds when it opens: the items with the preselected ones first,
/// of which those that match the filter are shown, and none is selected.
pub open spec fn opened(
    items: Seq<CompletionItem>,
    trigger_offset: usize,
    filter: Seq<char>,
    view: CompletionView,
) -> bool {
    &&& view.options == preselected_first(items)
    &&& view.cursor is None
    &&& view.trigger_offset == trigger_offset
    &&& view.filter == filter
    &&& shows_all(view.options, filter, view.matches)
    &&& unfiltered_matches_all(view)
}

/// The filter after typing (`Some`) or deleting (`None`) a character.
pub open spec fn filter_after(filter: Seq<char>, c: Option<char>) -> Seq<char> {
    match c {
        Some(c) => filter.push(c),
        None => if filter.len() > 0 {
            filter.drop_last()
        } else {
            filter
        },
    }
}

/// Whether the matcher can do what typing (`Some`) or deleting (`None`) a
/// character takes. Typing takes a score for every option that is shown, deleting
/// one for every option, and an empty filter takes nothing.
pub open spec fn can_update(view: CompletionView, c: Option<char>) -> bool {
    let filter = filter_after(view.filter, c);
    if c is Some {
        filter.len() <= MAX_NEEDLE && can_score_shown(view.options, view.matches, filter)
    } else {
        filter.len() > 0 ==> can_open(view.options, filter)
    }
}

/// What typing (`Some`) or deleting (`None`) a character does to the menu. A
/// longer filter narrows down what is shown, a shorter one shows everything that
/// matches it, and without a filter nothing is shown. Nothing stays selected.
pub open spec fn filter_updated(
    before: CompletionView,
    c: Option<char>,
    after: CompletionView,
) -> bool {
    &&& after.options == before.options
    &&& after.trigger_offset == before.trigger_offset
    &&& after.cursor is None
    &&& after.filter == filter_after(before.filter, c)
    &&& if c is Some {
        shows_again(before.options, before.matches, after.filter, after.matches)
    } else if after.filter.len() > 0 {
        shows_all(before.options, after.filter, after.matches)
    } else {
        after.matches.len() == 0
    }
}

/// What the items of a new response do to the menu: they come last, and those of
/// the same source go if they were incomplete.
pub open spec fn completions_replaced(
    before: CompletionView,
    provider: CompletionProvider,
    items: Seq<CompletionItem>,
    is_incomplete: bool,
    after: CompletionView,
) -> bool {
    &&& after.options == if is_incomplete {
        before.options.filter(|o: CompletionItem| o@.source() != provider) + items
    } else {
        before.options + items
    }
    &&& after.trigger_offset == before.trigger_offset
    &&& after.filter == before.filter
    &&& shows_all(after.options, after.filter, after.matches)
    &&& after.cursor == cursor_in_bounds(before.cursor, after.matches.len())
}

/// Without a filter every option matches.
pub open spec fn unfiltered_matches_all(view: CompletionView) -> bool {
    view.filter.len() == 0 ==> {
        &&& forall|i: int|
            0 <= i < view.options.len() ==> option_score(
                view.filter,
                #[trigger] view.options[i],
            ) == Some(0u16)
        &&& view.matches.len() == view.options.len()
    }
}

/// The items with those first that a server wants at the top; apart from this
/// the order stays.
pub open spec fn preselected_first(items: Seq<CompletionItem>) -> Seq<CompletionItem> {
    items.filter(|o: CompletionItem| o@.is_preselected()) + items.filter(
        |o: CompletionItem| !o@.is_preselected(),
    )
}

/// Adding an item to the end adds it to the end of what a filter lets through.
proof fn filter_of_one_more<A>(s: Seq<A>, n: int, keep: spec_fn(A) -> bool)
    requires
        0 <= n < s.len(),
    ensures
        s.take(n + 1).filter(keep) == if keep(s[n]) {
            s.take(n).filter(keep).push(s[n])
        } else {
            s.take(n).filter(keep)
        },
{
    reveal(Seq::filter);
    assert(s.take(n + 1).drop_last() =~= s.take(n));
}

/// Nothing gets through a filter where there is nothing.
proof fn filter_of_none<A>(s: Seq<A>, keep: spec_fn(A) -> bool)
    ensures
        s.take(0).filter(keep) == Seq::<A>::empty(),
{
    reveal(Seq::filter);
}

/// Moves the items to the front that a server wants at the top.
pub fn preselect_first(items: Vec<CompletionItem>) -> (sorted: Vec<CompletionItem>)
    ensures
        sorted@ == preselected_first(items@),
{
    let ghost all = items@;
    let ghost wanted = |o: CompletionItem| o@.is_preselected();
    let ghost unwanted = |o: CompletionItem| !o@.is_preselected();
    let mut first: Vec<CompletionItem> = Vec::new();
    let mut second: Vec<CompletionItem> = Vec::new();
    proof {
        filter_of_none(all, wanted);
        filter_of_none(all, unwanted);
    }
    for item in it: items
        invariant
            it.seq() == all,
            wanted == (|o: CompletionItem| o@.is_preselected()),
            unwanted == (|o: CompletionItem| !o@.is_preselected()),
            first@ == all.take(it.index()).filter(wanted),
            second@ == all.take(it.index()).filter(unwanted),
    {
        proof {
            filter_of_one_more(all, it.index(), wanted);
            filter_of_one_more(all, it.index(), unwanted);
        }
        if item.preselect() {
            first.push(item);
        } else {
            second.push(item);
        }
    }
    assert(all.take(all.len() as int) =~= all);
    first.append(&mut second);
    first
}

/// Leaves out the options that come from `provider`.
pub fn without_provider(options: Vec<CompletionItem>, provider: CompletionProvider) -> (kept: Vec<
    CompletionItem,
>)
    ensures
        kept@ == options@.filter(|o: CompletionItem| o@.source() != provider),
{
    let ghost all = options@;
    let ghost foreign = |o: CompletionItem| o@.source() != provider;
    let mut kept: Vec<CompletionItem> = Vec::new();
    proof {
        filter_of_none(all, foreign);
    }
    for option in it: options
        invariant
            it.seq() == all,
            foreign == (|o: CompletionItem| o@.source() != provider),
            kept@ == all.take(it.index()).filter(foreign),
    {
        proof {
            filter_of_one_more(all, it.index(), foreign);
        }
        if option.provider() != provider {
            kept.push(option);
        }
    }
    assert(all.take(all.len() as int) =~= all);
    kept
}

/// Whether the matcher can score every item for this filter.
pub fn can_score_items(items: &Vec<CompletionItem>, filter: &str) -> (r: bool)
    ensures
        r == can_score(items@, filter@),
{
    let mut i: usize = 0;
    while i < items.len()
        invariant
            i <= items@.len(),
            forall|j: int|
                0 <= j < i ==> scorable(
                    filter@,
                    true,
                    true,
                    (#[trigger] items@[j])@.match_text(),
                ),
        decreases items@.len() - i,
    {
        if !can_score_text(filter, IGNORE_CASE, NORMALIZE, items[i].filter_text()) {
            assert(!scorable(filter@, true, true, items@[i as int]@.match_text()));
            return false;
        }
        i = i + 1;
    }
    true
}

/// Whether the matcher can score the options behind the matches for this filter.
pub fn can_score_matches(
    options: &Vec<CompletionItem>,
    matches: &Vec<Match>,
    filter: &str,
) -> (r: bool)
    requires
        in_range(options@, matches@),
    ensures
        r == can_score_shown(options@, matches@, filter@),
{
    let mut i: usize = 0;
    while i < matches.len()
        invariant
            i <= matches@.len(),
            in_range(options@, matches@),
            forall|j: int|
                0 <= j < i ==> scorable(
                    filter@,
                    true,
                    true,
                    options@[(#[trigger] matches@[j]).0 as int]@.match_text(),
                ),
        decreases matches@.len() - i,
    {
        let text = options[matches[i].0 as usize].filter_text();
        if !can_score_text(filter, IGNORE_CASE, NORMALIZE, text) {
            assert(!scorable(
                filter@,
                true,
                true,
                options@[matches@[i as int].0 as int]@.match_text(),
            ));
            return false;
        }
        i = i + 1;
    }
    true
}

/// Whether the matcher can score the options for this filter that stay when a
/// response of `provider` comes.
pub fn can_score_rest(
    options: &Vec<CompletionItem>,
    provider: CompletionProvider,
    is_incomplete: bool,
    filter: &str,
) -> (r: bool)
    ensures
        r == can_score_staying(options@, provider, is_incomplete, filter@),
{
    let mut i: usize = 0;
    while i < options.len()
        invariant
            i <= options@.len(),
            forall|j: int|
                0 <= j < i && !(is_incomplete && (#[trigger] options@[j])@.source() == provider)
                    ==> scorable(filter@, true, true, options@[j]@.match_text()),
        decreases options@.len() - i,
    {
        let stays = !(is_incomplete && options[i].provider() == provider);
        if stays && !can_score_text(filter, IGNORE_CASE, NORMALIZE, options[i].filter_text()) {
            assert(!scorable(filter@, true, true, options@[i as int]@.match_text()));
            return false;
        }
        i = i + 1;
    }
    true
}

/// Has the matcher score every option.
fn score_options(options: &Vec<CompletionItem>, filter: &String) -> (scores: Vec<Option<u16>>)
    requires
        can_score(options@, filter@),
    ensures
        scores@ == all_scores(options@, filter@),
        filter@.len() == 0 ==> forall|i: int|
            0 <= i < scores@.len() ==> #[trigger] scores@[i] == Some(0u16),
{
    let mut matcher = new_matcher();
    let mut buf: Vec<char> = Vec::new();
    let mut scores: Vec<Option<u16>> = Vec::new();
    let mut i: usize = 0;
    while i < options.len()
        invariant
            i <= options@.len(),
            can_score(options@, filter@),
            scores@.len() == i,
            forall|j: int|
                0 <= j < i ==> #[trigger] scores@[j] == option_score(filter@, options@[j]),
            filter@.len() == 0 ==> forall|j: int|
                0 <= j < i ==> #[trigger] scores@[j] == Some(0u16),
        decreases options@.len() - i,
    {
        let text = options[i].filter_text();
        scores.push(
            atom_score(
                &mut matcher,
                &mut buf,
                filter.as_str(),
                IGNORE_CASE,
                NORMALIZE,
                PREFER_PREFIX,
                text,
            ),
        );
        i = i + 1;
    }
    assert(scores@ =~= all_scores(options@, filter@));
    scores
}

/// Has the matcher score the options behind the matches.
fn score_matches(options: &Vec<CompletionItem>, matches: &Vec<Match>, filter: &String) -> (scores:
    Vec<Option<u16>>)
    requires
        can_score_shown(options@, matches@, filter@),
        in_range(options@, matches@),
    ensures
        scores@ == match_scores(options@, matches@, filter@),
{
    let mut matcher = new_matcher();
    let mut buf: Vec<char> = Vec::new();
    let mut scores: Vec<Option<u16>> = Vec::new();
    let mut i: usize = 0;
    while i < matches.len()
        invariant
            i <= matches@.len(),
            can_score_shown(options@, matches@, filter@),
            in_range(options@, matches@),
            scores@.len() == i,
            forall|j: int|
                0 <= j < i ==> #[trigger] scores@[j] == option_score(
                    filter@,
                    options@[matches@[j].0 as int],
                ),
        decreases matches@.len() - i,
    {
        let text = options[matches[i].0 as usize].filter_text();
        scores.push(
            atom_score(
                &mut matcher,
                &mut buf,
                filter.as_str(),
                IGNORE_CASE,
                NORMALIZE,
                PREFER_PREFIX,
                text,
            ),
        );
        i = i + 1;
    }
    assert(scores@ =~= match_scores(options@, matches@, filter@));
    scores
}

/// What is left of matches in range is in range.
proof fn found_again_in_range(
    options: Seq<CompletionItem>,
    matches: Seq<Match>,
    scores: Seq<Option<u16>>,
)
    requires
        in_range(options, matches),
        matches.len() == scores.len(),
    ensures
        in_range(options, found_again(matches, scores)),
{
    let found = found_again(matches, scores);
    found_again_is_rescored(matches, scores);
    assert forall|i: int| 0 <= i < found.len() implies (#[trigger] found[i]).0
        < options.len() by {
        assert(found.contains(found[i]));
        let j = choose|j: int|
            0 <= j < matches.len() && #[trigger] rescored_of(matches, scores, j, found[i]);
        assert(matches[j].0 < options.len());
    }
}

impl Completion {
    /// The name by which the editor finds the menu again.
    pub const ID: &'static str = "completion";

    /// A menu of `items`, filtered by the word in front of the cursor.
    ///
    /// `text` is the document and `cursor` the place in it, both in characters.
    pub fn new(
        items: Vec<CompletionItem>,
        trigger_offset: usize,
        text: &Vec<char>,
        cursor: usize,
    ) -> (r: Completion)
        requires
            cursor <= text@.len(),
            can_open(items@, word_before(text@, cursor as int)),
        ensures
            r@.well_formed(),
            can_score(r@.options, r@.filter),
            opened(items@, trigger_offset, word_before(text@, cursor as int), r@),
    {
        let options = preselect_first(items);
        let start = word_start(text, cursor);
        let filter = fragment(text, start, cursor);
        proof {
            preselected_first_can_score(items@, filter@);
        }
        let mut completion = Completion {
            options,
            matches: Vec::new(),
            cursor: None,
            trigger_offset,
            filter,
        };
        completion.score(false);
        completion
    }

    /// A menu of `items`, filtered by the word in front of the cursor, or `None`
    /// where the matcher cannot score one of the items for the word.
    pub fn try_new(
        items: Vec<CompletionItem>,
        trigger_offset: usize,
        text: &Vec<char>,
        cursor: usize,
    ) -> (r: Option<Completion>)
        requires
            cursor <= text@.len(),
        ensures
            r is Some <==> can_open(items@, word_before(text@, cursor as int)),
            r matches Some(r) ==> {
                &&& r@.well_formed()
                &&& can_score(r@.options, r@.filter)
                &&& opened(items@, trigger_offset, word_before(text@, cursor as int), r@)
            },
    {
        let start = word_start(text, cursor);
        let filter = fragment(text, start, cursor);
        if cursor - start <= MAX_NEEDLE && can_score_items(&items, filter.as_str()) {
            Some(Completion::new(items, trigger_offset, text, cursor))
        } else {
            None
        }
    }

    /// Scores the options anew and puts those that match into their order. Where
    /// the filter has only become longer (`incremental`), only the options that
    /// matched before are looked at.
    fn score(&mut self, incremental: bool)
        requires
            in_range(old(self)@.options, old(self)@.matches),
            old(self)@.filter.len() <= MAX_NEEDLE,
            incremental ==> can_score_shown(
                old(self)@.options,
                old(self)@.matches,
                old(self)@.filter,
            ),
            !incremental ==> can_score(old(self)@.options, old(self)@.filter),
        ensures
            final(self)@ == (CompletionView { matches: final(self)@.matches, ..old(self)@ }),
            in_range(final(self)@.options, final(self)@.matches),
            incremental && once_each(old(self)@.matches) ==> once_each(final(self)@.matches),
            !incremental && old(self)@.options.len() <= INDEXABLE ==> once_each(
                final(self)@.matches,
            ),
            incremental ==> shows_again(
                old(self)@.options,
                old(self)@.matches,
                old(self)@.filter,
                final(self)@.matches,
            ),
            !incremental ==> shows_all(
                old(self)@.options,
                old(self)@.filter,
                final(self)@.matches,
            ) && unfiltered_matches_all(final(self)@),
    {
        let found = if incremental {
            let scores = score_matches(&self.options, &self.matches, &self.filter);
            proof {
                found_again_in_range(self.options@, self.matches@, scores@);
                found_again_is_rescored(self.matches@, scores@);
            }
            rescore_matches(&self.matches, &scores)
        } else {
            let scores = score_options(&self.options, &self.filter);
            proof {
                if self.options@.len() <= INDEXABLE {
                    found_of_all_once_each(scores@);
                }
                if self.filter@.len() == 0 {
                    found_of_scored(scores@);
                    assert forall|i: int| 0 <= i < self.options@.len() implies option_score(
                        self.filter@,
                        #[trigger] self.options@[i],
                    ) == Some(0u16) by {
                        assert(scores@[i] == Some(0u16));
                    }
                }
            }
            collect_matches(&scores)
        };
        let needle_len: usize = atom_needle_len(self.filter.as_str(), IGNORE_CASE, NORMALIZE);
        let weak: u32 = min_score(needle_len);
        let ranked = rank(&self.options, weak, found);
        proof {
            ranking_in_range(self.options@, weak, found@, ranked@);
            ranking_keeps_matches(self.options@, weak, found@, ranked@);
            if once_each(found@) {
                ranking_once_each(self.options@, weak, found@, ranked@);
            }
        }
        self.matches = ranked;
    }

    /// Adds a character to the filter, or takes the last one off. To be called
    /// whenever the user types or deletes a character.
    pub fn update_filter(&mut self, c: Option<char>)
        requires
            old(self)@.well_formed(),
            can_update(old(self)@, c),
        ensures
            final(self)@.well_formed(),
            filter_updated(old(self)@, c, final(self)@),
    {
        match c {
            Some(c) => self.filter.push(c),
            None => {
                self.filter.pop();
                if self.filter.as_str().is_empty() {
                    self.clear();
                    return ;
                }
            },
        }
        self.score(c.is_some());
        self.cursor = None;
    }

    /// Adds a character to the filter, or takes the last one off, or does nothing
    /// and returns `false` where the matcher cannot score some option for the new
    /// filter.
    pub fn try_update_filter(&mut self, c: Option<char>) -> (r: bool)
        requires
            old(self)@.well_formed(),
        ensures
            r == can_update(old(self)@, c),
            r ==> final(self)@.well_formed() && filter_updated(old(self)@, c, final(self)@),
            !r ==> *final(self) == *old(self),
    {
        let mut filter = self.filter.clone();
        match c {
            Some(c) => filter.push(c),
            None => {
                filter.pop();
            },
        }
        let fits = filter.as_str().unicode_len() <= MAX_NEEDLE;
        let can = if c.is_some() {
            fits && can_score_matches(&self.options, &self.matches, filter.as_str())
        } else {
            filter.as_str().is_empty() || fits && can_score_items(&self.options, filter.as_str())
        };
        if can {
            self.update_filter(c);
        }
        can
    }

    /// Takes everything off the menu. The options stay.
    fn clear(&mut self)
        ensures
            final(self)@ == (CompletionView {
                matches: Seq::empty(),
                cursor: None,
                ..old(self)@
            }),
    {
        self.matches.clear();
        self.cursor = None;
    }

    /// Moves a selection that has come to lie behind the last match onto it.
    fn ensure_cursor_in_bounds(&mut self)
        ensures
            final(self)@ == (CompletionView {
                cursor: cursor_in_bounds(old(self)@.cursor, old(self)@.matches.len()),
                ..old(self)@
            }),
    {
        let len: usize = self.matches.len();
        self.cursor = match self.cursor {
            Some(cursor) if cursor < len => Some(cursor),
            Some(_) if len > 0 => Some(len - 1),
            _ => None,
        };
    }

    /// Takes over the items of a response. Where the items that the same source
    /// sent before were incomplete, they make way for them.
    pub fn replace_provider_completions(
        &mut self,
        response: &mut CompletionResponse,
        is_incomplete: bool,
    )
        requires
            old(self)@.well_formed(),
            can_score_staying(
                old(self)@.options,
                old(response).provider,
                is_incomplete,
                old(self)@.filter,
            ),
            can_score(old(response).items@, old(self)@.filter),
        ensures
            final(self)@.well_formed(),
            can_score(final(self)@.options, final(self)@.filter),
            completions_replaced(
                old(self)@,
                old(response).provider,
                old(response).items@,
                is_incomplete,
                final(self)@,
            ),
            unfiltered_matches_all(final(self)@),
            final(response).items@ == Seq::<CompletionItem>::empty(),
            final(response).provider == old(response).provider,
    {
        let mut options: Vec<CompletionItem> = Vec::new();
        std::mem::swap(&mut options, &mut self.options);
        if is_incomplete {
            options = without_provider(options, response.provider);
        }
        proof {
            if is_incomplete {
                staying_can_score(
                    old(self)@.options,
                    old(response).provider,
                    old(self)@.filter,
                );
            }
        }
        response.take_items(&mut options);
        self.options = options;
        self.matches.clear();
        self.score(false);
        self.ensure_cursor_in_bounds();
    }

    /// Takes over the items of a response, or does nothing and returns `false`
    /// where the matcher cannot score some item, or some option that stays, for
    /// the filter.
    pub fn try_replace_provider_completions(
        &mut self,
        response: &mut CompletionResponse,
        is_incomplete: bool,
    ) -> (r: bool)
        requires
            old(self)@.well_formed(),
        ensures
            r == (can_score_staying(
                old(self)@.options,
                old(response).provider,
                is_incomplete,
                old(self)@.filter,
            ) && can_score(old(response).items@, old(self)@.filter)),
            r ==> {
                &&& final(self)@.well_formed()
                &&& can_score(final(self)@.options, final(self)@.filter)
                &&& completions_replaced(
                    old(self)@,
                    old(response).provider,
                    old(response).items@,
                    is_incomplete,
                    final(self)@,
                )
                &&& unfiltered_matches_all(final(self)@)
                &&& final(response).items@ == Seq::<CompletionItem>::empty()
                &&& final(response).provider == old(response).provider
            },
            !r ==> *final(self) == *old(self) && *final(response) == *old(response),
    {
        let can = can_score_rest(
            &self.options,
            response.provider,
            is_incomplete,
            self.filter.as_str(),
        ) && can_score_items(&response.items, self.filter.as_str());
        if can {
            self.replace_provider_completions(response, is_incomplete);
        }
        can
    }

    /// All options, shown or not.
    pub fn options(&self) -> (r: &Vec<CompletionItem>)
        ensures
            r@ == self@.options,
    {
        &self.options
    }

    /// What is shown, from top to bottom.
    pub fn matches(&self) -> (r: &Vec<Match>)
        ensures
            r@ == self@.matches,
    {
        &self.matches
    }

    /// The text by which the options are filtered.
    pub fn filter(&self) -> (r: &String)
        ensures
            r@ == self@.filter,
    {
        &self.filter
    }

    /// Where in the document the completion was triggered.
    pub fn trigger_offset(&self) -> (r: usize)
        ensures
            r == self@.trigger_offset,
    {
        self.trigger_offset
    }

    /// Which of the matches is selected.
    pub fn cursor(&self) -> (r: Option<usize>)
        ensures
            r == self@.cursor,
    {
        self.cursor
    }

    /// Selects one of the matches, or none.
    pub fn select(&mut self, cursor: Option<usize>)
        requires
            cursor matches Some(cursor) ==> cursor < old(self)@.matches.len(),
        ensures
            final(self)@ == (CompletionView { cursor, ..old(self)@ }),
            old(self)@.well_formed() ==> final(self)@.well_formed(),
    {
        self.cursor = cursor;
    }

    /// The selected option.
    pub fn selection(&self) -> (r: Option<&CompletionItem>)
        requires
            self@.well_formed(),
        ensures
            match self@.cursor {
                Some(cursor) => r == Some(
                    &self@.options[self@.matches[cursor as int].0 as int],
                ),
                None => r is None,
            },
    {
        match self.cursor {
            Some(cursor) => {
                proof {
                    assert(self@.matches[cursor as int].0 < self@.options.len());
                }
                Some(&self.options[self.matches[cursor].0 as usize])
            },
            None => None,
        }
    }

    /// Puts `new_item` in the place of the selected option, where one is
    /// selected.
    pub fn replace_selection(&mut self, new_item: CompletionItem)
        requires
            old(self)@.well_formed(),
        ensures
            final(self)@.well_formed(),
            final(self)@ == (CompletionView {
                options: match old(self)@.cursor {
                    Some(cursor) => old(self)@.options.update(
                        old(self)@.matches[cursor as int].0 as int,
                        new_item,
                    ),
                    None => old(self)@.options,
                },
                ..old(self)@
            }),
    {
        if let Some(cursor) = self.cursor {
            assert(self@.matches[cursor as int].0 < self@.options.len());
            let index: usize = self.matches[cursor].0 as usize;
            self.options.set(index, new_item);
        }
    }

    /// Whether nothing is shown.
    pub fn is_empty(&self) -> (r: bool)
        ensures
            r == (self@.matches.len() == 0),
    {
        self.matches.is_empty()
    }

    /// Puts `new_item` in the place of the first option that is equal to
    /// `old_item`.
    pub fn replace_item<T: PartialEq<CompletionItem>>(
        &mut self,
        old_item: &T,
        new_item: CompletionItem,
    )
        requires
            old(self)@.well_formed(),
        ensures
            final(self)@.well_formed(),
            final(self)@ == (CompletionView { options: final(self)@.options, ..old(self)@ }),
            T::obeys_eq_spec() ==> replaces_first(
                old(self)@.options,
                |o: CompletionItem| old_item.eq_spec(&o),
                new_item,
                final(self)@.options,
            ),
            final(self)@.options == old(self)@.options || exists|i: int|
                0 <= i < old(self)@.options.len() && final(self)@.options
                    == #[trigger] old(self)@.options.update(i, new_item),
    {
        let mut i: usize = 0;
        while i < self.options.len()
            invariant
                i <= self.options@.len(),
                *self == *old(self),
                self@.well_formed(),
                T::obeys_eq_spec() ==> forall|j: int|
                    0 <= j < i ==> !old_item.eq_spec(&#[trigger] self.options@[j]),
            decreases self.options@.len() - i,
        {
            if *old_item == self.options[i] {
                self.options.set(i, new_item);
                return ;
            }
            i = i + 1;
        }
    }
}

/// The selection, moved onto the last of `len` matches where it lies behind it.
pub open spec fn cursor_in_bounds(cursor: Option<usize>, len: nat) -> Option<usize> {
    match cursor {
        Some(cursor) if cursor < len => Some(cursor),
        Some(_) if len > 0 => Some((len - 1) as usize),
        _ => None,
    }
}

/// Whether `after` is `before` with `new_item` in the place of the first option
/// for which `equal` holds, or `before` itself where it holds for none.
pub open spec fn replaces_first(
    before: Seq<CompletionItem>,
    equal: spec_fn(CompletionItem) -> bool,
    new_item: CompletionItem,
    after: Seq<CompletionItem>,
) -> bool {
    &&& after.len() == before.len()
    &&& forall|i: int|
        0 <= i < before.len() ==> #[trigger] after[i] == if equal(before[i]) && !exists|j: int|
            0 <= j < i && equal(#[trigger] before[j]) {
            new_item
        } else {
            before[i]
        }
}

/// Options that can be scored for a filter can be scored for a shorter one: what
/// was typed can be deleted.
pub proof fn shorter_filter_can_score(options: Seq<CompletionItem>, filter: Seq<char>)
    requires
        filter.len() > 0,
        can_score(options, filter),
    ensures
        can_score(options, filter.drop_last()),
{
    assert forall|i: int| 0 <= i < options.len() implies scorable(
        filter.drop_last(),
        true,
        true,
        (#[trigger] options[i])@.match_text(),
    ) by {
        shorter_is_scorable(filter, true, true, options[i]@.match_text());
    }
}

/// The options of the other sources can be scored where those that stay can.
proof fn staying_can_score(
    options: Seq<CompletionItem>,
    provider: CompletionProvider,
    filter: Seq<char>,
)
    requires
        can_score_staying(options, provider, true, filter),
    ensures
        can_score(options.filter(|o: CompletionItem| o@.source() != provider), filter),
{
    let foreign = |o: CompletionItem| o@.source() != provider;
    let kept = options.filter(foreign);
    assert forall|i: int| 0 <= i < kept.len() implies scorable(
        filter,
        true,
        true,
        (#[trigger] kept[i])@.match_text(),
    ) by {
        options.lemma_filter_pred(foreign, i);
        assert(kept.contains(kept[i]));
        options.lemma_filter_contains_rev(foreign, kept[i]);
        let j = choose|j: int| 0 <= j < options.len() && options[j] == kept[i];
        assert(scorable(filter, true, true, options[j]@.match_text()));
    }
}

/// What a filter lets through can be scored where everything can.
proof fn filter_can_score(
    options: Seq<CompletionItem>,
    keep: spec_fn(CompletionItem) -> bool,
    filter: Seq<char>,
)
    requires
        can_score(options, filter),
    ensures
        can_score(options.filter(keep), filter),
{
    let kept = options.filter(keep);
    assert forall|i: int| 0 <= i < kept.len() implies scorable(
        filter,
        true,
        true,
        (#[trigger] kept[i])@.match_text(),
    ) by {
        assert(kept.contains(kept[i]));
        options.lemma_filter_contains_rev(keep, kept[i]);
        let j = choose|j: int| 0 <= j < options.len() && options[j] == kept[i];
        assert(scorable(filter, true, true, options[j]@.match_text()));
    }
}

/// The order of the options does not matter for whether they can be scored.
proof fn preselected_first_can_score(items: Seq<CompletionItem>, filter: Seq<char>)
    requires
        can_score(items, filter),
    ensures
        can_score(preselected_first(items), filter),
{
    filter_can_score(items, |o: CompletionItem| o@.is_preselected(), filter);
    filter_can_score(items, |o: CompletionItem| !o@.is_preselected(), filter);
}

} // verus!
