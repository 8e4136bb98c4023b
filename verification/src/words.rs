//! Splitting text into words and putting labels into title case.

use crate::chars::{char_is_whitespace, chars_of, is_whitespace_char, string_of};
use vstd::prelude::*;

verus! {

/// The upper-case form of `c`, as `char::to_uppercase` of the standard
/// library gives it. It may be longer than one character.
pub uninterp spec fn uppercase_of(c: char) -> Seq<char>;

/// The upper-case form of `c`.
///
/// Calls `char::to_uppercase` and collects what it yields. Assumed: the
/// result depends on the character alone.
#[verifier::external_body]
fn char_to_uppercase(c: char) -> (upper: Vec<char>)
    ensures
        upper@ == uppercase_of(c),
{
    c.to_uppercase().collect()
}

/// The lower-case form of `text`, as `str::to_lowercase` of the standard
/// library gives it.
pub uninterp spec fn lowercase_of(text: Seq<char>) -> Seq<char>;

/// The lower-case form of `text`.
///
/// Calls `str::to_lowercase`. Assumed: the result depends on the
/// characters alone.
#[verifier::external_body]
pub(crate) fn str_to_lowercase(text: &str) -> (lower: String)
    ensures
        lower@ == lowercase_of(text@),
{
    text.to_lowercase()
}

/// The words of `text`: its longest runs of characters that are not
/// white space, in order.
pub open spec fn words_of(text: Seq<char>) -> Seq<Seq<char>>
    decreases text.len(),
{
    if text.len() == 0 {
        Seq::empty()
    } else {
        let before = words_of(text.drop_last());
        if is_whitespace_char(text.last()) {
            before
        } else if text.len() >= 2 && !is_whitespace_char(text[text.len() - 2]) {
            before.drop_last().push(before.last().push(text.last()))
        } else {
            before.push(seq![text.last()])
        }
    }
}

/// The words of `text`, in order.
pub fn split_words(text: &Vec<char>) -> (words: Vec<Vec<char>>)
    ensures
        words@.map_values(|w: Vec<char>| w@) == words_of(text@),
{
    let mut words: Vec<Vec<char>> = Vec::new();
    let mut current: Vec<char> = Vec::new();
    let mut i: usize = 0;
    proof {
        assert(text@.take(0) =~= Seq::<char>::empty());
        assert(words@.map_values(|w: Vec<char>| w@) =~= words_of(text@.take(0)));
    }
    while i < text.len()
        invariant
            i <= text.len(),
            current@.len() > 0 <==> i > 0 && !is_whitespace_char(text@[i - 1]),
            current@.len() == 0 ==> words@.map_values(|w: Vec<char>| w@) == words_of(
                text@.take(i as int),
            ),
            current@.len() > 0 ==> words@.map_values(|w: Vec<char>| w@).push(current@) == words_of(
                text@.take(i as int),
            ),
        decreases text.len() - i,
    {
        let c = text[i];
        let ghost prefix = text@.take(i as int);
        let ghost longer = text@.take(i + 1);
        let ghost done = words@.map_values(|w: Vec<char>| w@);
        proof {
            assert(longer.drop_last() =~= prefix);
            assert(longer.last() == c);
            if i > 0 {
                assert(longer[longer.len() - 2] == text@[i - 1]);
            }
        }
        if char_is_whitespace(c) {
            if current.len() > 0 {
                let ghost word = current@;
                words.push(current);
                current = Vec::new();
                proof {
                    assert(words@.map_values(|w: Vec<char>| w@) =~= done.push(word));
                }
            }
        } else {
            let ghost before = current@;
            current.push(c);
            proof {
                if before.len() > 0 {
                    assert(done.push(before).drop_last() =~= done);
                    assert(done.push(before).last() == before);
                } else {
                    assert(current@ =~= seq![c]);
                }
            }
        }
        i = i + 1;
    }
    proof {
        assert(text@.take(i as int) =~= text@);
    }
    if current.len() > 0 {
        let ghost done = words@.map_values(|w: Vec<char>| w@);
        let ghost word = current@;
        words.push(current);
        proof {
            assert(words@.map_values(|w: Vec<char>| w@) =~= done.push(word));
        }
    }
    words
}

/// `c`, with a space in place of an underscore or a hyphen.
pub open spec fn spaced_char(c: char) -> char {
    if c == '_' || c == '-' {
        ' '
    } else {
        c
    }
}

/// `word` with its first character in upper case and the rest in lower
/// case.
pub open spec fn capitalized(word: Seq<char>) -> Seq<char> {
    if word.len() == 0 {
        word
    } else {
        uppercase_of(word[0]) + lowercase_of(word.drop_first())
    }
}

/// `words` put one after the other with a space between them.
pub open spec fn spaced(words: Seq<Seq<char>>) -> Seq<char>
    decreases words.len(),
{
    if words.len() == 0 {
        Seq::empty()
    } else if words.len() == 1 {
        words[0]
    } else {
        spaced(words.drop_last()) + seq![' '] + words.last()
    }
}

/// The label made from `raw` for people to read: underscores and hyphens
/// count as spaces, every word is capitalized, and the words are joined
/// by single spaces. Where nothing is left, the label is `Untitled`.
pub open spec fn humanized(raw: Seq<char>) -> Seq<char> {
    let label = spaced(
        words_of(raw.map_values(|c: char| spaced_char(c))).map_values(
            |w: Seq<char>| capitalized(w),
        ),
    );
    if label.len() == 0 {
        "Untitled"@
    } else {
        label
    }
}

/// `word` with its first character in upper case and the rest in lower
/// case.
fn capitalize(word: &Vec<char>) -> (out: Vec<char>)
    ensures
        out@ == capitalized(word@),
{
    if word.len() == 0 {
        return Vec::new();
    }
    let mut out = char_to_uppercase(word[0]);
    let mut rest: Vec<char> = Vec::new();
    let mut i: usize = 1;
    while i < word.len()
        invariant
            1 <= i <= word.len(),
            rest@ == word@.subrange(1, i as int),
        decreases word.len() - i,
    {
        rest.push(word[i]);
        proof {
            assert(rest@ =~= word@.subrange(1, i + 1));
        }
        i = i + 1;
    }
    proof {
        assert(word@.subrange(1, i as int) =~= word@.drop_first());
    }
    let mut lower = chars_of(str_to_lowercase(string_of(&rest).as_str()).as_str());
    out.append(&mut lower);
    out
}

/// The label made from `raw` for people to read: see [`humanized`].
pub fn humanize_label(raw: &str) -> (label: String)
    ensures
        label@ == humanized(raw@),
{
    let chars = chars_of(raw);
    let mut plain: Vec<char> = Vec::new();
    let mut i: usize = 0;
    while i < chars.len()
        invariant
            i <= chars.len(),
            plain@ == chars@.take(i as int).map_values(|c: char| spaced_char(c)),
        decreases chars.len() - i,
    {
        let c = chars[i];
        plain.push(if c == '_' || c == '-' { ' ' } else { c });
        proof {
            assert(plain@ =~= chars@.take(i + 1).map_values(|c: char| spaced_char(c)));
        }
        i = i + 1;
    }
    proof {
        assert(chars@.take(i as int) =~= chars@);
    }
    let words = split_words(&plain);
    let ghost parts = words_of(plain@).map_values(|w: Seq<char>| capitalized(w));
    let mut label: Vec<char> = Vec::new();
    let mut k: usize = 0;
    proof {
        assert(parts.take(0) =~= Seq::<Seq<char>>::empty());
    }
    while k < words.len()
        invariant
            k <= words.len(),
            words@.map_values(|w: Vec<char>| w@) == words_of(plain@),
            parts == words_of(plain@).map_values(|w: Seq<char>| capitalized(w)),
            label@ == spaced(parts.take(k as int)),
        decreases words.len() - k,
    {
        let mut word = capitalize(&words[k]);
        proof {
            assert(words@.map_values(|w: Vec<char>| w@)[k as int] == words@[k as int]@);
            assert(parts[k as int] == word@);
            assert(parts.take(k + 1).drop_last() =~= parts.take(k as int));
            assert(parts.take(k + 1).last() == word@);
            if k == 0 {
                assert(parts.take(1)[0] == word@);
            }
        }
        let ghost before = label@;
        if k > 0 {
            label.push(' ');
        }
        let ghost mid = label@;
        label.append(&mut word);
        proof {
            if k > 0 {
                assert(label@ =~= before + seq![' '] + parts[k as int]);
            } else {
                assert(label@ =~= parts[0]);
            }
        }
        k = k + 1;
    }
    proof {
        assert(parts.take(k as int) =~= parts);
    }
    if label.len() == 0 {
        "Untitled".to_owned()
    } else {
        string_of(&label)
    }
}

} // verus!
