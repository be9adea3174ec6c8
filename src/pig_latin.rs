//! Pig latin, one word at a time.

use vstd::prelude::*;

use crate::text::{split_at_char, split_on, views_of};

verus! {

/// The vowels, in lower and upper case.
pub open spec fn is_vowel(c: char) -> bool {
    c == 'a' || c == 'e' || c == 'i' || c == 'o' || c == 'u' || c == 'A' || c == 'E' || c == 'I'
        || c == 'O' || c == 'U'
}

/// A word in pig latin. A word of one character, or one that starts with a
/// vowel, gets "hay" appended; otherwise its first character moves to the
/// end, followed by "ay". Characters are Unicode scalar values.
pub open spec fn pig_latin(w: Seq<char>) -> Seq<char> {
    if w.len() <= 1 || is_vowel(w[0]) {
        w + "hay"@
    } else {
        w.subrange(1, w.len() as int) + seq![w[0]] + "ay"@
    }
}

/// Whether `c` is anything but one of the vowels written alone.
pub fn is_consonant(c: &str) -> (r: bool)
    ensures
        r == !(c@.len() == 1 && is_vowel(c@[0])),
{
    if c.unicode_len() != 1 {
        return true;
    }
    let first = c.get_char(0);
    !(first == 'a' || first == 'e' || first == 'i' || first == 'o' || first == 'u' || first == 'A'
        || first == 'E' || first == 'I' || first == 'O' || first == 'U')
}

/// Translates one word; the word is not empty.
pub fn to_pig_latin(s: &str) -> (r: String)
    requires
        s@.len() > 0,
    ensures
        r@ == pig_latin(s@),
{
    let n = s.unicode_len();
    if n == 1 {
        let mut new_str = String::from_str(s);
        new_str.append("hay");
        return new_str;
    }
    let first_char = s.substring_char(0, 1);
    if is_consonant(first_char) {
        let mut new_str = String::from_str(s.substring_char(1, n));
        new_str.append(first_char);
        new_str.append("ay");
        assert(first_char@ =~= seq![s@[0]]);
        new_str
    } else {
        let mut new_str = String::from_str(s);
        new_str.append("hay");
        new_str
    }
}

/// Each word translated and followed by a space.
pub open spec fn translation(words: Seq<Seq<char>>) -> Seq<char>
    decreases words.len(),
{
    if words.len() == 0 {
        Seq::empty()
    } else {
        translation(words.drop_last()) + pig_latin(words.last()) + " "@
    }
}

/// Translates every word of `story`, the words being cut at single spaces;
/// each translated word is followed by a space. No word is empty.
pub fn translate_story(story: &str) -> (r: String)
    requires
        forall|i: int|
            0 <= i < split_on(story@, ' ').len() ==> #[trigger] split_on(story@, ' ')[i].len() > 0,
    ensures
        r@ == translation(split_on(story@, ' ')),
{
    let words = split_at_char(story, ' ');
    let ghost w = views_of(words@);
    let mut translated_story = String::new();
    let mut i: usize = 0;
    while i < words.len()
        invariant
            i <= words@.len(),
            w == views_of(words@),
            w == split_on(story@, ' '),
            forall|k: int| 0 <= k < w.len() ==> #[trigger] w[k].len() > 0,
            translated_story@ == translation(w.subrange(0, i as int)),
        decreases words@.len() - i,
    {
        assert(w[i as int] == words[i as int]@);
        let word = to_pig_latin(words[i]);
        translated_story.append(word.as_str());
        translated_story.append(" ");
        assert(w.subrange(0, i + 1).drop_last() =~= w.subrange(0, i as int));
        i = i + 1;
    }
    assert(w.subrange(0, i as int) =~= w);
    translated_story
}

} // verus!
