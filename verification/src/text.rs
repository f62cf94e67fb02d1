//! Characters and strings: the word in front of the cursor.
use vstd::prelude::*;

verus! {

/// Whether `char::is_alphanumeric` accepts `c`.
pub uninterp spec fn unicode_alphanumeric(c: char) -> bool;

/// Whether `c` is an ASCII letter or an ASCII digit.
pub open spec fn ascii_alphanumeric(c: char) -> bool {
    ||| '0' <= c <= '9'
    ||| 'A' <= c <= 'Z'
    ||| 'a' <= c <= 'z'
}

/// `char::is_alphanumeric` goes by the Unicode tables for letters and numbers.
/// Claimed of it: the answer depends on the character alone, and among the
/// ASCII characters it accepts the letters and the digits.
pub assume_specification[ char::is_alphanumeric ](c: char) -> (r: bool)
    ensures
        r == unicode_alphanumeric(c),
        c <= '\x7f' ==> r == ascii_alphanumeric(c),
;

/// `String::push` puts one character behind the others.
pub assume_specification[ String::push ](s: &mut String, c: char)
    ensures
        final(s)@ == old(s)@.push(c),
;

/// `String::pop` takes the last character off and returns it, or returns
/// `None` and leaves the string as it is where there is none.
pub assume_specification[ String::pop ](s: &mut String) -> (r: Option<char>)
    ensures
        old(s)@.len() == 0 ==> r is None && final(s)@ == old(s)@,
        old(s)@.len() > 0 ==> r == Some(old(s)@.last()) && final(s)@ == old(s)@.drop_last(),
;

/// Letters, digits and the underscore make up words.
pub open spec fn is_word_char(c: char) -> bool {
    unicode_alphanumeric(c) || c == '_'
}

/// Whether `ch` can be part of a word.
pub fn char_is_word(ch: char) -> (r: bool)
    ensures
        r == is_word_char(ch),
        ch <= '\x7f' ==> r == (ascii_alphanumeric(ch) || ch == '_'),
{
    ch.is_alphanumeric() || ch == '_'
}

/// Where the word that ends at `cursor` begins: the characters from there up
/// to the cursor are word characters, and the one before them is not.
pub open spec fn is_word_start(text: Seq<char>, cursor: int, start: int) -> bool {
    &&& 0 <= start <= cursor
    &&& forall|i: int| start <= i < cursor ==> is_word_char(#[trigger] text[i])
    &&& start > 0 ==> !is_word_char(text[start - 1])
}

/// Where the word that ends at `cursor` begins, counted from the start of
/// `text`.
pub open spec fn word_start_of(text: Seq<char>, cursor: int) -> int
    decreases cursor,
{
    if cursor > 0 && is_word_char(text[cursor - 1]) {
        word_start_of(text, cursor - 1)
    } else {
        cursor
    }
}

/// `word_start_of` is the one place that `is_word_start` describes.
pub proof fn word_start_is_unique(text: Seq<char>, cursor: int, start: int)
    requires
        0 <= cursor <= text.len(),
    ensures
        is_word_start(text, cursor, start) <==> start == word_start_of(text, cursor),
    decreases cursor,
{
    if cursor > 0 && is_word_char(text[cursor - 1]) {
        word_start_is_unique(text, cursor - 1, start);
        if is_word_start(text, cursor, start) && start == cursor {
            assert(!is_word_char(text[start - 1]));
        }
        if is_word_start(text, cursor - 1, start) {
            assert forall|i: int| start <= i < cursor implies is_word_char(#[trigger] text[i]) by {
                if i < cursor - 1 {
                    assert(is_word_char(text[i]));
                }
            }
        }
    } else if is_word_start(text, cursor, start) && start < cursor {
        assert(is_word_char(text[cursor - 1]));
    }
}

/// Finds where the word that ends at `cursor` begins.
pub fn word_start(text: &Vec<char>, cursor: usize) -> (start: usize)
    requires
        cursor <= text@.len(),
    ensures
        start == word_start_of(text@, cursor as int),
        is_word_start(text@, cursor as int, start as int),
{
    let mut start: usize = cursor;
    while start > 0 && char_is_word(text[start - 1])
        invariant
            start <= cursor <= text@.len(),
            word_start_of(text@, start as int) == word_start_of(text@, cursor as int),
        decreases start,
    {
        start = start - 1;
    }
    proof {
        word_start_is_unique(text@, cursor as int, start as int);
    }
    start
}

/// The characters of `text` from `start` up to `end`, as a string.
pub fn fragment(text: &Vec<char>, start: usize, end: usize) -> (s: String)
    requires
        start <= end <= text@.len(),
    ensures
        s@ == text@.subrange(start as int, end as int),
{
    let mut s = String::new();
    let mut i: usize = start;
    while i < end
        invariant
            start <= i <= end <= text@.len(),
            s@ == text@.subrange(start as int, i as int),
        decreases end - i,
    {
        s.push(text[i]);
        i = i + 1;
    }
    s
}

/// Whether two strings hold the same characters.
pub fn same_text(a: &str, b: &str) -> (r: bool)
    ensures
        r == (a@ == b@),
{
    a.to_owned() == b.to_owned()
}

} // verus!
