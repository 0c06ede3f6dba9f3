use vstd::prelude::*;

verus! {

/// The lower-case form of a text, as Unicode defines it.
pub uninterp spec fn lowercased(text: Seq<char>) -> Seq<char>;

/// A text without the white space at its two ends, as Unicode defines white space.
pub uninterp spec fn trimmed(text: Seq<char>) -> Seq<char>;

/// `String::push`: the character is appended to the text.
#[verifier::external_body]
pub(crate) fn push_char(text: &mut String, c: char)
    ensures
        final(text)@ == old(text)@.push(c),
{
    text.push(c);
}

/// `str::to_lowercase`. The result is named, not described.
#[verifier::external_body]
pub(crate) fn lowercase(text: &str) -> (lower: String)
    ensures
        lower@ == lowercased(text@),
{
    text.to_lowercase()
}

/// `str::trim`. The result is named, not described.
#[verifier::external_body]
pub(crate) fn trim(text: &str) -> (inner: &str)
    ensures
        inner@ == trimmed(text@),
{
    text.trim()
}

/// The place of the first space in a text, or the text's length where it has none.
pub open spec fn first_space(text: Seq<char>) -> int
    decreases text.len(),
{
    if text.len() == 0 || text[0] == ' ' {
        0
    } else {
        1 + first_space(text.drop_first())
    }
}

/// The part of a text before its first space; all of it where it has no space.
pub open spec fn first_word(text: Seq<char>) -> Seq<char> {
    text.take(first_space(text))
}

/// The first space is the place before which no space stands and at which one
/// does, or the text ends.
pub proof fn lemma_first_space(text: Seq<char>, place: int)
    requires
        0 <= place <= text.len(),
        forall|i: int| 0 <= i < place ==> text[i] != ' ',
        place == text.len() || text[place] == ' ',
    ensures
        first_space(text) == place,
    decreases place,
{
    if place > 0 {
        let rest = text.drop_first();
        assert forall|i: int| 0 <= i < place - 1 implies rest[i] != ' ' by {
            assert(rest[i] == text[i + 1]);
        }
        lemma_first_space(rest, place - 1);
    }
}

/// The part of `text` before its first space.
pub fn first_word_of(text: &str) -> (word: String)
    ensures
        word@ == first_word(text@),
{
    let mut word = String::new();
    let mut ended = false;
    let ghost mut end: int = 0;
    for c in it: text.chars()
        invariant
            it.seq() == text@,
            0 <= end <= it.index(),
            word@ == text@.take(end),
            forall|i: int| 0 <= i < end ==> text@[i] != ' ',
            !ended ==> end == it.index(),
            ended ==> end < text@.len() && text@[end] == ' ',
    {
        if !ended {
            if c == ' ' {
                ended = true;
            } else {
                push_char(&mut word, c);
                proof {
                    assert(text@.take(end + 1) =~= text@.take(end).push(c));
                    end = end + 1;
                }
            }
        }
    }
    proof {
        lemma_first_space(text@, end);
    }
    word
}

} // verus!
