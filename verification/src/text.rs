//! Small helpers on texts.

use vstd::prelude::*;
use vstd::string::StringExecFns;

verus! {

/// The characters of an optional text.
pub open spec fn text_of(text: Option<String>) -> Option<Seq<char>> {
    match text {
        Some(s) => Some(s@),
        None => None,
    }
}

/// The characters of each of a sequence of texts.
pub open spec fn texts_of(texts: Seq<String>) -> Seq<Seq<char>> {
    texts.map_values(|text: String| text@)
}

/// The pieces put together with `sep` between neighbours.
pub open spec fn join(parts: Seq<Seq<char>>, sep: Seq<char>) -> Seq<char>
    decreases parts.len(),
{
    if parts.len() == 0 {
        Seq::<char>::empty()
    } else if parts.len() == 1 {
        parts[0]
    } else {
        join(parts.drop_last(), sep) + sep + parts.last()
    }
}

/// A copy of an optional text.
pub fn copy_text(text: &Option<String>) -> (copy: Option<String>)
    ensures
        text_of(copy) == text_of(*text),
{
    match text {
        Some(s) => Some(s.clone()),
        None => None,
    }
}

/// The texts put together with `sep` between neighbours.
pub fn join_texts(parts: &Vec<String>, sep: &str) -> (whole: String)
    ensures
        whole@ == join(texts_of(parts@), sep@),
{
    let mut whole = String::new();
    let mut i: usize = 0;
    while i < parts.len()
        invariant
            i <= parts.len(),
            whole@ == join(texts_of(parts@).take(i as int), sep@),
        decreases parts.len() - i,
    {
        proof {
            let next = texts_of(parts@).take(i + 1);
            assert(next.drop_last() == texts_of(parts@).take(i as int));
            assert(next.last() == parts@[i as int]@);
            assert(Seq::<char>::empty() + parts@[i as int]@ == parts@[i as int]@);
        }
        if i > 0 {
            whole.append(sep);
        }
        whole.append(parts[i].as_str());
        i = i + 1;
    }
    proof {
        assert(texts_of(parts@).take(parts.len() as int) == texts_of(parts@));
    }
    whole
}

/// What `str::to_lowercase` makes of a text: its lower-case form.
pub uninterp spec fn lowercase_of(text: Seq<char>) -> Seq<char>;

/// What `str::trim` makes of a text: the text without leading and trailing
/// white space.
pub uninterp spec fn stripped_of(text: Seq<char>) -> Seq<char>;

/// Calls `str::to_lowercase`. The lower-case form of a text is a function of
/// the text alone, and the contract names it.
#[verifier::external_body]
pub(crate) fn lowercase(text: &str) -> (lower: String)
    ensures
        lower@ == lowercase_of(text@),
{
    text.to_lowercase()
}

/// Calls `str::trim` and copies what is left. The trimmed text is a function
/// of the text alone, and the contract names it.
#[verifier::external_body]
pub(crate) fn strip(text: &str) -> (stripped: String)
    ensures
        stripped@ == stripped_of(text@),
{
    text.trim().to_string()
}

} // verus!
