//! Splitting text into terms, and the text normalisations that std provides.
use vstd::prelude::*;

verus! {

/// The words that `str::split_whitespace` yields for a text.
pub uninterp spec fn words_of(s: Seq<char>) -> Seq<Seq<char>>;

/// The text that `str::to_lowercase` yields.
pub uninterp spec fn lower_of(s: Seq<char>) -> Seq<char>;

/// The text that `str::trim` yields.
pub uninterp spec fn trimmed(s: Seq<char>) -> Seq<char>;

/// The words of each text in turn, concatenated.
pub open spec fn all_words(texts: Seq<Seq<char>>) -> Seq<Seq<char>>
    decreases texts.len(),
{
    if texts.len() == 0 {
        seq![]
    } else {
        all_words(texts.drop_last()) + words_of(texts.last())
    }
}

/// Relies on `str::split_whitespace`: its words depend on the text alone, and
/// an empty text has none.
#[verifier::external_body]
fn split_words(s: &str) -> (r: Vec<String>)
    ensures
        r@.map_values(|w: String| w@) == words_of(s@),
        s@.len() == 0 ==> r@.len() == 0,
{
    s.split_whitespace().map(|w| w.to_string()).collect()
}

/// Relies on `str::to_lowercase`: its result depends on the text alone.
#[verifier::external_body]
pub(crate) fn lowercase(s: &str) -> (r: String)
    ensures
        r@ == lower_of(s@),
{
    s.to_lowercase()
}

/// Relies on `str::trim`: its result depends on the text alone.
#[verifier::external_body]
pub(crate) fn trim(s: &str) -> (r: String)
    ensures
        r@ == trimmed(s@),
{
    s.trim().to_string()
}

/// The terms of a text: its whitespace-separated words, in order, with their
/// case kept.
pub fn string_to_terms(s: &str) -> (r: Vec<String>)
    ensures
        r@.map_values(|w: String| w@) == words_of(s@),
{
    split_words(s)
}

} // verus!
