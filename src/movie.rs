//! The record extracted from one detail page, and the terms it is filed under.
use std::sync::Arc;
use vstd::prelude::*;
use crate::terms::{string_to_terms, words_of, all_words};

verus! {

/// A record shared between the index entries that hold it.
pub type ItemType = Arc<Movie>;

/// One extracted record. Its identity is its name alone.
pub struct Movie {
    pub name: String,
    pub actors: Vec<String>,
    pub year: Option<String>,
    pub director: Option<String>,
}

/// What a record holds, as mathematical values.
pub struct MovieView {
    pub name: Seq<char>,
    pub actors: Seq<Seq<char>>,
    pub year: Option<Seq<char>>,
    pub director: Option<Seq<char>>,
}

pub open spec fn opt_text(o: Option<String>) -> Option<Seq<char>> {
    match o {
        Some(s) => Some(s@),
        None => None,
    }
}

pub open spec fn opt_words(o: Option<Seq<char>>) -> Seq<Seq<char>> {
    match o {
        Some(s) => words_of(s),
        None => seq![],
    }
}

impl View for Movie {
    type V = MovieView;

    open spec fn view(&self) -> MovieView {
        MovieView {
            name: self.name@,
            actors: self.actors@.map_values(|a: String| a@),
            year: opt_text(self.year),
            director: opt_text(self.director),
        }
    }
}

impl MovieView {
    /// The terms a record is filed under: the words of its name, then of its
    /// year, of its director, and of each actor in order.
    pub open spec fn terms(self) -> Seq<Seq<char>> {
        words_of(self.name) + opt_words(self.year) + opt_words(self.director) + all_words(
            self.actors,
        )
    }
}

proof fn lemma_views_concat(a: Seq<String>, b: Seq<String>)
    ensures
        (a + b).map_values(|t: String| t@) == a.map_values(|t: String| t@) + b.map_values(
            |t: String| t@,
        ),
{
    assert((a + b).map_values(|t: String| t@) =~= a.map_values(|t: String| t@) + b.map_values(
        |t: String| t@,
    ));
}

impl PartialEq for Movie {
    fn eq(&self, other: &Movie) -> (r: bool) {
        self.name == other.name
    }
}

impl vstd::std_specs::cmp::PartialEqSpecImpl for Movie {
    open spec fn obeys_eq_spec() -> bool {
        true
    }

    open spec fn eq_spec(&self, other: &Movie) -> bool {
        self.name@ == other.name@
    }
}

impl Movie {
    /// A record with the given name and no other field.
    pub fn new(name: String) -> (r: Movie)
        ensures
            r@ == (MovieView { name: name@, actors: seq![], year: None, director: None }),
    {
        let r = Movie { name, actors: Vec::new(), year: None, director: None };
        assert(r@.actors =~= seq![]);
        r
    }

    /// Appends the terms of an optional text.
    fn extend_with(terms: &mut Vec<String>, text: &Option<String>)
        ensures
            final(terms)@.map_values(|t: String| t@) == old(terms)@.map_values(|t: String| t@)
                + opt_words(opt_text(*text)),
    {
        match text {
            Some(s) => {
                let mut w = string_to_terms(s.as_str());
                proof { lemma_views_concat(terms@, w@); }
                terms.append(&mut w);
            },
            None => {
                assert(terms@.map_values(|t: String| t@) + seq![] =~= terms@.map_values(
                    |t: String| t@,
                ));
            },
        }
    }

    /// The terms this record is filed under, as `MovieView::terms` orders them.
    pub fn index_terms(&self) -> (r: Vec<String>)
        ensures
            r@.map_values(|t: String| t@) == self@.terms(),
    {
        let mut terms = string_to_terms(self.name.as_str());
        Self::extend_with(&mut terms, &self.year);
        Self::extend_with(&mut terms, &self.director);
        let ghost head = terms@.map_values(|t: String| t@);
        let mut i: usize = 0;
        assert(all_words(self@.actors.take(0)) =~= seq![]);
        assert(head + seq![] =~= head);
        while i < self.actors.len()
            invariant
                i <= self.actors.len(),
                head == words_of(self@.name) + opt_words(self@.year) + opt_words(self@.director),
                terms@.map_values(|t: String| t@) == head + all_words(self@.actors.take(i as int)),
            decreases self.actors.len() - i,
        {
            let mut w = string_to_terms(self.actors[i].as_str());
            proof {
                lemma_views_concat(terms@, w@);
                assert(self@.actors.take(i + 1).drop_last() =~= self@.actors.take(i as int));
                assert(self@.actors.take(i + 1).last() == self.actors@[i as int]@);
                assert(head + all_words(self@.actors.take(i as int)) + words_of(self.actors@[i as int]@)
                    =~= head + all_words(self@.actors.take(i + 1)));
            }
            terms.append(&mut w);
            i += 1;
        }
        assert(self@.actors.take(self.actors.len() as int) =~= self@.actors);
        terms
    }
}

} // verus!
