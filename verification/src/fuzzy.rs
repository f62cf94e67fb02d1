//! Fuzzy matching, done by the `nucleo` matcher.
use nucleo::chars::{normalize, to_lower_case};
use nucleo::pattern::{Atom, AtomKind, CaseMatching, Normalization};
use nucleo::{Config, Matcher, Utf32Str};
use vstd::prelude::*;
use vstd::utf8::encode_utf8;

verus! {

/// The matcher with its scratch memory. What it holds is not looked at.
#[verifier::external_type_specification]
#[verifier::external_body]
pub struct ExMatcher(Matcher);

/// Whether `char::is_lowercase` accepts `c`.
pub uninterp spec fn unicode_lowercase(c: char) -> bool;

/// What `nucleo::chars::to_lower_case` makes of `c`.
pub uninterp spec fn simple_fold(c: char) -> char;

/// What `nucleo::chars::normalize` makes of `c`.
pub uninterp spec fn unaccented(c: char) -> char;

/// The lower case letter for an ASCII capital, else `c` itself.
pub open spec fn ascii_lower(c: char) -> char {
    if 'A' <= c <= 'Z' {
        (c as int + 32) as char
    } else {
        c
    }
}

/// The text with its ASCII capitals in lower case.
pub open spec fn ascii_lowered(s: Seq<char>) -> Seq<char> {
    s.map_values(|c: char| ascii_lower(c))
}

/// `char::is_lowercase` goes by the Unicode property of this name. Claimed of it:
/// the answer depends on the character alone, and among the ASCII characters it
/// accepts the lower case letters.
pub assume_specification[ char::is_lowercase ](c: char) -> (r: bool)
    ensures
        r == unicode_lowercase(c),
        c <= '\x7f' ==> r == ('a' <= c <= 'z'),
;

/// `nucleo::chars::to_lower_case` looks the character up in the table of simple
/// case foldings. Claimed of it: the result depends on the character alone, and
/// among the ASCII characters only the capitals change.
pub assume_specification[ nucleo::chars::to_lower_case ](c: char) -> (r: char)
    ensures
        r == simple_fold(c),
        c <= '\x7f' ==> r == ascii_lower(c),
;

/// `nucleo::chars::normalize` looks the character up in a table of Latin letters
/// with accents. Claimed of it: the result depends on the character alone, and
/// ASCII characters stay as they are.
pub assume_specification[ nucleo::chars::normalize ](c: char) -> (r: char)
    ensures
        r == unaccented(c),
        c <= '\x7f' ==> r == c,
;

/// The longest text, in UTF-8 bytes, whose penalty for a late match always fits
/// in 16 bits.
pub const MAX_TEXT_BYTES: usize = 21846;

/// The largest number of matched characters whose score always fits in 16 bits.
pub const MAX_MATCHED: usize = 2519;

/// The longest text that the matcher takes at all.
pub const MAX_TEXT: u64 = 0xffff_ffff;

/// Whether `c` counts as lower case and still has a case folding, as the final
/// sigma does.
pub open spec fn folds_late(c: char) -> bool {
    c > '\x7f' && unicode_lowercase(c) && simple_fold(c) != c
}

/// Whether one of the characters has an accent that the matcher would take off.
/// The matcher then leaves the accents of the text in place too.
pub open spec fn has_accent(needle: Seq<char>) -> bool {
    exists|i: int|
        0 <= i < needle.len() && #[trigger] needle[i] > '\x7f' && unaccented(
            simple_fold(needle[i]),
        ) != simple_fold(needle[i])
}

/// What the second pass of the matcher makes of `c` where the case is ignored and
/// accents are left in place. The first pass makes `simple_fold(c)` of it.
pub open spec fn refolded(c: char) -> char {
    if folds_late(c) {
        c
    } else {
        simple_fold(c)
    }
}

/// Whether the two passes of the matcher can take different characters for the
/// first one of a match: one that only the first pass takes for `first`, and a
/// later one that the second pass takes for it. Where both take the very first
/// character of the text, it does not matter what comes after it.
pub open spec fn misleads(first: char, text: Seq<char>) -> bool {
    let letter = simple_fold(first);
    &&& !(text.len() > 0 && simple_fold(text[0]) == letter && !folds_late(text[0]))
    &&& exists|i: int, k: int|
        0 <= i < k < text.len() && folds_late(#[trigger] text[i]) && simple_fold(text[i]) == letter
            && refolded(#[trigger] text[k]) == letter
}

/// Whether the matcher can score `text` for `needle` under these settings.
///
/// The penalty and the sum of a score have to stay inside 16 bits. And where the
/// case is ignored and accents are left in place, the two passes of the matcher
/// have to agree on where the first character of the needle can first be found.
/// None of this matters to a needle of at most one character.
pub open spec fn scorable(
    needle: Seq<char>,
    ignore_case: bool,
    normalize: bool,
    text: Seq<char>,
) -> bool {
    let bytes = encode_utf8(text).len();
    &&& bytes <= MAX_TEXT
    &&& needle.len() <= 1 || {
        &&& bytes <= MAX_TEXT_BYTES
        &&& bytes <= MAX_MATCHED || needle.len() <= MAX_MATCHED
        &&& !ignore_case || (normalize && !has_accent(needle)) || !misleads(needle[0], text)
    }
}

/// A text that can be scored for a needle can be scored for a shorter one.
pub proof fn shorter_is_scorable(
    needle: Seq<char>,
    ignore_case: bool,
    normalize: bool,
    text: Seq<char>,
)
    requires
        needle.len() > 0,
        scorable(needle, ignore_case, normalize, text),
    ensures
        scorable(needle.drop_last(), ignore_case, normalize, text),
{
    let shorter = needle.drop_last();
    if has_accent(shorter) {
        let i = choose|i: int|
            0 <= i < shorter.len() && #[trigger] shorter[i] > '\x7f' && unaccented(
                simple_fold(shorter[i]),
            ) != simple_fold(shorter[i]);
        assert(needle[i] == shorter[i]);
    }
}

/// Whether the matcher would take an accent off one of the characters.
fn is_accented(needle: &str) -> (r: bool)
    ensures
        r == has_accent(needle@),
{
    for c in it: needle.chars()
        invariant
            it.seq() == needle@,
            forall|j: int|
                0 <= j < it.index() ==> !(#[trigger] needle@[j] > '\x7f' && unaccented(
                    simple_fold(needle@[j]),
                ) != simple_fold(needle@[j])),
    {
        let folded: char = to_lower_case(c);
        if c > '\x7f' && normalize(folded) != folded {
            assert(needle@[it.index()] == c);
            return true;
        }
    }
    false
}

/// Whether the two passes of the matcher can take different characters of the
/// text for `first`.
fn is_misleading(first: char, text: &str) -> (r: bool)
    ensures
        r == misleads(first, text@),
{
    let letter: char = to_lower_case(first);
    let mut seen = false;
    let mut start = true;
    for c in it: text.chars()
        invariant
            it.seq() == text@,
            letter == simple_fold(first),
            start == (it.index() == 0),
            it.index() > 0 ==> !(simple_fold(text@[0]) == letter && !folds_late(text@[0])),
            seen == exists|i: int|
                0 <= i < it.index() && folds_late(#[trigger] text@[i]) && simple_fold(text@[i])
                    == letter,
            !exists|i: int, k: int|
                0 <= i < k < it.index() && folds_late(#[trigger] text@[i]) && simple_fold(text@[i])
                    == letter && refolded(#[trigger] text@[k]) == letter,
    {
        let folded: char = to_lower_case(c);
        let late = c > '\x7f' && c.is_lowercase() && folded != c;
        assert(text@[it.index()] == c);
        if start && folded == letter && !late {
            return false;
        }
        if seen && (if late { c } else { folded }) == letter {
            return true;
        }
        if late && folded == letter {
            seen = true;
        }
        start = false;
    }
    false
}

/// Whether the matcher can score `text` for `needle` under these settings.
pub fn can_score_text(needle: &str, ignore_case: bool, normalize: bool, text: &str) -> (r: bool)
    ensures
        r == scorable(needle@, ignore_case, normalize, text@),
{
    let bytes: usize = text.as_bytes().len();
    if bytes as u64 > MAX_TEXT {
        return false;
    }
    let len: usize = needle.unicode_len();
    if len <= 1 {
        return true;
    }
    bytes <= MAX_TEXT_BYTES && (bytes <= MAX_MATCHED || len <= MAX_MATCHED) && (!ignore_case || (
    normalize && !is_accented(needle)) || !is_misleading(needle.get_char(0), text))
}

/// The score that the fuzzy matcher gives `text` for `needle`, or `None` where
/// the needle does not occur in it. `ignore_case` is `CaseMatching::Ignore`
/// (else `Respect`), `normalize` is `Normalization::Smart` (else `Never`) and
/// `prefer_prefix` is the setting of this name; everything else is as in
/// `Config::DEFAULT`, and a backslash in the needle stands for itself.
pub uninterp spec fn fuzzy_score(
    needle: Seq<char>,
    ignore_case: bool,
    normalize: bool,
    prefer_prefix: bool,
    text: Seq<char>,
) -> Option<u16>;

/// The number of characters that the matcher looks for once it has prepared
/// `needle`.
pub uninterp spec fn prepared_len(
    needle: Seq<char>,
    ignore_case: bool,
    normalize: bool,
) -> usize;

/// Whether every character is an ASCII character.
pub open spec fn all_ascii(s: Seq<char>) -> bool {
    forall|i: int| 0 <= i < s.len() ==> #[trigger] s[i] <= '\x7f'
}

/// `Matcher::new` with `Config::DEFAULT`. Nothing is claimed of the matcher:
/// every use of it sets its configuration first.
#[verifier::external_body]
pub(crate) fn new_matcher() -> (matcher: Matcher) {
    Matcher::new(Config::DEFAULT)
}

/// `Atom::score` on the atom that `Atom::new` makes of `needle`, for the text as
/// `Utf32Str::new` presents it. Claimed: the score is a function of the needle,
/// the settings and the text; an empty needle scores zero everywhere; and where
/// the case is ignored, an ASCII needle is lowered before anything else is done
/// with it. The matcher and the buffer are scratch memory, and what is left in
/// them is not stated.
#[verifier::external_body]
pub(crate) fn atom_score(
    matcher: &mut Matcher,
    buf: &mut Vec<char>,
    needle: &str,
    ignore_case: bool,
    normalize: bool,
    prefer_prefix: bool,
    text: &str,
) -> (score: Option<u16>)
    requires
        scorable(needle@, ignore_case, normalize, text@),
    ensures
        score == fuzzy_score(needle@, ignore_case, normalize, prefer_prefix, text@),
        needle@.len() == 0 ==> score == Some(0u16),
        ignore_case && all_ascii(needle@) ==> score == fuzzy_score(
            ascii_lowered(needle@),
            ignore_case,
            normalize,
            prefer_prefix,
            text@,
        ),
{
    matcher.config = Config::DEFAULT;
    matcher.config.prefer_prefix = prefer_prefix;
    let case = if ignore_case { CaseMatching::Ignore } else { CaseMatching::Respect };
    let form = if normalize { Normalization::Smart } else { Normalization::Never };
    let atom = Atom::new(needle, case, form, AtomKind::Fuzzy, false);
    atom.score(Utf32Str::new(text, buf), matcher)
}

/// The length of `Atom::needle_text` of the atom that `Atom::new` makes of
/// `needle`. Claimed: it is a function of the needle and the settings, no larger
/// than the number of characters in the needle, and equal to it where the needle
/// is ASCII; such a needle is lowered first where the case is ignored.
#[verifier::external_body]
pub(crate) fn atom_needle_len(
    needle: &str,
    ignore_case: bool,
    normalize: bool,
) -> (len: usize)
    ensures
        len == prepared_len(needle@, ignore_case, normalize),
        len <= needle@.len(),
        all_ascii(needle@) ==> len == needle@.len(),
        ignore_case && all_ascii(needle@) ==> len == prepared_len(
            ascii_lowered(needle@),
            ignore_case,
            normalize,
        ),
{
    let case = if ignore_case { CaseMatching::Ignore } else { CaseMatching::Respect };
    let form = if normalize { Normalization::Smart } else { Normalization::Never };
    let atom = Atom::new(needle, case, form, AtomKind::Fuzzy, false);
    atom.needle_text().len()
}

} // verus!
