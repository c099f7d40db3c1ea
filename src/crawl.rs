//! The decisions of a crawl that need no network: where it starts, and how a
//! fetched detail page reaches the index.
use std::sync::Arc;
use vstd::prelude::*;
use vstd::string::StringExecFns;
use crate::index::{InvertedIndex, IndexView, Storage, file_under};
use crate::movie::{Movie, MovieView};
use crate::page::{extract_movie, page_record, listing_path, texts, ExtractError};
use crate::terms::lower_of;

verus! {

/// The site whose listing pages are crawled.
pub const URL_BASE: &'static str = "http://www.imdb.com";

/// The query that selects and orders the first listing page.
pub const FIRST_LISTING_QUERY: &'static str = "?groups=top_1000&sort=user_rating&view=simple";

/// The index after filing `m` under each of `terms` in turn, each lowercased.
pub open spec fn file_all(ix: IndexView, terms: Seq<Seq<char>>, m: MovieView) -> IndexView
    decreases terms.len(),
{
    if terms.len() == 0 {
        ix
    } else {
        file_under(file_all(ix, terms.drop_last(), m), lower_of(terms.last()), m)
    }
}

/// The first listing page of the site at `base`.
pub fn first_listing_url(base: &str) -> (r: String)
    ensures
        r@ == base@ + listing_path() + FIRST_LISTING_QUERY@,
{
    let mut url = base.to_owned();
    url.append("/search/title");
    url.append(FIRST_LISTING_QUERY);
    url
}

/// Files a record under every term it derives.
pub fn index_movie(index: &mut InvertedIndex, movie: Movie)
    ensures
        final(index).view() == file_all(old(index).view(), movie@.terms(), movie@),
{
    let terms = movie.index_terms();
    let ghost m = movie@;
    let item: Arc<Movie> = Arc::new(movie);
    let ghost ts = texts(terms@);
    assert(ts == m.terms());
    let mut i: usize = 0;
    assert(ts.take(0) =~= Seq::<Seq<char>>::empty());
    while i < terms.len()
        invariant
            i <= terms@.len(),
            item@ == m,
            ts == texts(terms@),
            index.view() == file_all(old(index).view(), ts.take(i as int), m),
        decreases terms.len() - i,
    {
        index.add_key_value(terms[i].as_str(), &item);
        proof {
            assert(ts.take(i + 1).drop_last() =~= ts.take(i as int));
            assert(ts.take(i + 1).last() == terms@[i as int]@);
        }
        i += 1;
    }
    assert(ts.take(terms@.len() as int) =~= ts);
}

/// Reads a fetched detail page and files its record under every term it
/// derives; a page without a title leaves the index as it was.
pub fn index_detail_page(index: &mut InvertedIndex, page: &str) -> (r: Result<(), ExtractError>)
    ensures
        match page_record(page@) {
            Some(m) => r is Ok && final(index).view() == file_all(old(index).view(), m.terms(), m),
            None => r == Err::<(), ExtractError>(ExtractError::MissingTitle) && final(index).view()
                == old(index).view(),
        },
{
    match extract_movie(page) {
        Ok(movie) => {
            index_movie(index, movie);
            Ok(())
        },
        Err(e) => Err(e),
    }
}

} // verus!
