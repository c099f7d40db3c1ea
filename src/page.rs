//! Reading listing pages and detail pages, through the `select` HTML crate.
use select::document::Document;
use select::predicate::{Attr, Class, Name, Predicate};
use vstd::prelude::*;
use crate::movie::{Movie, MovieView};
use crate::terms::{trim, trimmed};
use vstd::string::StringExecFns;

verus! {

/// Texts, in document order, of the elements named `tag` that lie inside an
/// element of class `class`, as `select` finds them in `page`.
pub uninterp spec fn class_tag_texts(page: Seq<char>, class: Seq<char>, tag: Seq<char>) -> Seq<Seq<char>>;

/// `href` attributes, in document order, of the elements named `tag` that lie
/// inside an element of class `class`, as `select` finds them in `page`.
pub uninterp spec fn class_tag_hrefs(page: Seq<char>, class: Seq<char>, tag: Seq<char>) -> Seq<Option<Seq<char>>>;

/// `href` attributes, in document order, of the elements of class `class`, as
/// `select` finds them in `page`.
pub uninterp spec fn class_hrefs(page: Seq<char>, class: Seq<char>) -> Seq<Option<Seq<char>>>;

/// Texts, in document order, of the elements named `tag` that lie inside an
/// element whose attribute `attr` is `value`, as `select` finds them in `page`.
pub uninterp spec fn attr_tag_texts(page: Seq<char>, attr: Seq<char>, value: Seq<char>, tag: Seq<char>) -> Seq<Seq<char>>;

/// Texts, in document order, of the elements whose attribute `inner` is
/// `inner_value` that lie inside an element whose attribute `attr` is `value`,
/// as `select` finds them in `page`.
pub uninterp spec fn attr_attr_texts(
    page: Seq<char>,
    attr: Seq<char>,
    value: Seq<char>,
    inner: Seq<char>,
    inner_value: Seq<char>,
) -> Seq<Seq<char>>;

pub open spec fn opt_texts(s: Seq<Option<String>>) -> Seq<Option<Seq<char>>> {
    s.map_values(|o: Option<String>| crate::movie::opt_text(o))
}

pub open spec fn texts(s: Seq<String>) -> Seq<Seq<char>> {
    s.map_values(|t: String| t@)
}

/// Relies on `select`'s `Document::from`, `find` with
/// `Class(class).descendant(Name(tag))`, and `Node::text`.
#[verifier::external_body]
fn select_class_tag_texts(page: &str, class: &str, tag: &str) -> (r: Vec<String>)
    ensures
        texts(r@) == class_tag_texts(page@, class@, tag@),
{
    let document = Document::from(page);
    document.find(Class(class).descendant(Name(tag))).map(|n| n.text()).collect()
}

/// Relies on `select`'s `Document::from`, `find` with
/// `Class(class).descendant(Name(tag))`, and `Node::attr("href")`.
#[verifier::external_body]
fn select_class_tag_hrefs(page: &str, class: &str, tag: &str) -> (r: Vec<Option<String>>)
    ensures
        opt_texts(r@) == class_tag_hrefs(page@, class@, tag@),
{
    let document = Document::from(page);
    document.find(Class(class).descendant(Name(tag))).map(|n| n.attr("href").map(|s| s.to_string())).collect()
}

/// Relies on `select`'s `Document::from`, `find` with `Class(class)`, and
/// `Node::attr("href")`.
#[verifier::external_body]
fn select_class_hrefs(page: &str, class: &str) -> (r: Vec<Option<String>>)
    ensures
        opt_texts(r@) == class_hrefs(page@, class@),
{
    let document = Document::from(page);
    document.find(Class(class)).map(|n| n.attr("href").map(|s| s.to_string())).collect()
}

/// Relies on `select`'s `Document::from`, `find` with
/// `Attr(attr, value).descendant(Name(tag))`, and `Node::text`.
#[verifier::external_body]
fn select_attr_tag_texts(page: &str, attr: &str, value: &str, tag: &str) -> (r: Vec<String>)
    ensures
        texts(r@) == attr_tag_texts(page@, attr@, value@, tag@),
{
    let document = Document::from(page);
    document.find(Attr(attr, value).descendant(Name(tag))).map(|n| n.text()).collect()
}

/// Relies on `select`'s `Document::from`, `find` with
/// `Attr(attr, value).descendant(Attr(inner, inner_value))`, and `Node::text`.
#[verifier::external_body]
fn select_attr_attr_texts(page: &str, attr: &str, value: &str, inner: &str, inner_value: &str) -> (r: Vec<String>)
    ensures
        texts(r@) == attr_attr_texts(page@, attr@, value@, inner@, inner_value@),
{
    let document = Document::from(page);
    document.find(Attr(attr, value).descendant(Attr(inner, inner_value))).map(|n| n.text()).collect()
}

/// Why a detail page gave no record.
#[derive(Clone, Copy, Debug, PartialEq, Eq, Structural)]
pub enum ExtractError {
    /// The page has no title element.
    MissingTitle,
}

pub open spec fn first_text(s: Seq<Seq<char>>) -> Option<Seq<char>> {
    if s.len() > 0 {
        Some(s[0])
    } else {
        None
    }
}

/// The first text, trimmed; none where there is no text.
pub open spec fn first_trimmed(s: Seq<Seq<char>>) -> Option<Seq<char>> {
    match first_text(s) {
        Some(t) => Some(trimmed(t)),
        None => None,
    }
}

pub open spec fn trim_all(s: Seq<Seq<char>>) -> Seq<Seq<char>> {
    s.map_values(|t: Seq<char>| trimmed(t))
}

/// The record a detail page describes: its title as the name, the first year
/// link's text, the first director's name, and every actor's name in order,
/// each trimmed. No record where the page has no title.
pub open spec fn page_record(page: Seq<char>) -> Option<MovieView> {
    let titles = class_tag_texts(page, "title_wrapper"@, "h1"@);
    if titles.len() == 0 {
        None
    } else {
        Some(
            MovieView {
                name: trimmed(titles[0]),
                actors: trim_all(attr_attr_texts(page, "itemprop"@, "actors"@, "itemprop"@, "name"@)),
                year: first_trimmed(attr_tag_texts(page, "id"@, "titleYear"@, "a"@)),
                director: first_trimmed(
                    attr_attr_texts(page, "itemprop"@, "creator"@, "itemprop"@, "name"@),
                ),
            },
        )
    }
}

/// The links of a listing page, each prefixed with `base`; a link element
/// without an `href` gives none.
pub open spec fn present_links(base: Seq<char>, hrefs: Seq<Option<Seq<char>>>) -> Seq<Seq<char>>
    decreases hrefs.len(),
{
    if hrefs.len() == 0 {
        seq![]
    } else {
        present_links(base, hrefs.drop_last()) + match hrefs.last() {
            Some(h) => seq![base + h],
            None => seq![],
        }
    }
}

/// The path under which listing pages live.
pub open spec fn listing_path() -> Seq<char> {
    "/search/title"@
}

/// The next listing page: the `href` of the first element of class
/// `lister-page-next`, under the listing path. None where there is no such
/// element, or where it has no `href`.
pub open spec fn next_listing(base: Seq<char>, page: Seq<char>) -> Option<Seq<char>> {
    let nexts = class_hrefs(page, "lister-page-next"@);
    if nexts.len() == 0 {
        None
    } else {
        match nexts[0] {
            Some(h) => Some(base + listing_path() + h),
            None => None,
        }
    }
}

fn first_trimmed_of(v: &Vec<String>) -> (r: Option<String>)
    ensures
        crate::movie::opt_text(r) == first_trimmed(texts(v@)),
{
    if v.len() > 0 {
        assert(texts(v@)[0] == v@[0]@);
        Some(trim(v[0].as_str()))
    } else {
        None
    }
}

/// Reads the record that a detail page describes.
pub fn extract_movie(page: &str) -> (r: Result<Movie, ExtractError>)
    ensures
        match r {
            Ok(m) => page_record(page@) == Some(m@),
            Err(e) => page_record(page@) is None && e == ExtractError::MissingTitle,
        },
{
    let titles = select_class_tag_texts(page, "title_wrapper", "h1");
    if titles.len() == 0 {
        return Err(ExtractError::MissingTitle);
    }
    assert(texts(titles@)[0] == titles@[0]@);
    let mut movie = Movie::new(trim(titles[0].as_str()));
    movie.year = first_trimmed_of(&select_attr_tag_texts(page, "id", "titleYear", "a"));
    movie.director = first_trimmed_of(
        &select_attr_attr_texts(page, "itemprop", "creator", "itemprop", "name"),
    );
    let actors = select_attr_attr_texts(page, "itemprop", "actors", "itemprop", "name");
    let ghost names = texts(actors@);
    assert(movie.actors@.len() == movie@.actors.len());
    let mut i: usize = 0;
    while i < actors.len()
        invariant
            i <= actors@.len(),
            names == texts(actors@),
            titles@.len() > 0,
            movie.actors@.len() == i,
            movie.name@ == trimmed(texts(titles@)[0]),
            texts(movie.actors@) == trim_all(names.take(i as int)),
            crate::movie::opt_text(movie.year) == first_trimmed(
                attr_tag_texts(page@, "id"@, "titleYear"@, "a"@),
            ),
            crate::movie::opt_text(movie.director) == first_trimmed(
                attr_attr_texts(page@, "itemprop"@, "creator"@, "itemprop"@, "name"@),
            ),
        decreases actors.len() - i,
    {
        let a = trim(actors[i].as_str());
        let ghost before = movie.actors@;
        movie.actors.push(a);
        proof {
            assert(movie.actors@ == before.push(a));
            assert(names[i as int] == actors@[i as int]@);
            assert forall|k: int| 0 <= k < i + 1 implies #[trigger] texts(movie.actors@)[k]
                == trim_all(names.take(i + 1))[k] by {
                assert(texts(movie.actors@)[k] == movie.actors@[k]@);
                if k < i {
                    assert(movie.actors@[k] == before[k]);
                    assert(texts(before)[k] == before[k]@);
                    assert(texts(before)[k] == trim_all(names.take(i as int))[k]);
                }
            }
            assert(texts(movie.actors@) =~= trim_all(names.take(i + 1)));
        }
        i += 1;
    }
    assert(names.take(actors@.len() as int) =~= names);
    assert(movie@.actors == texts(movie.actors@));
    Ok(movie)
}

/// What a listing page asks for next: the detail pages it links to, and the
/// next listing page, if any.
pub struct ListingStep {
    pub detail_urls: Vec<String>,
    pub next_url: Option<String>,
}

/// Reads a listing page: the detail links in document order, each under
/// `base`, and the next listing page.
pub fn listing_step(base: &str, page: &str) -> (r: ListingStep)
    ensures
        texts(r.detail_urls@) == present_links(
            base@,
            class_tag_hrefs(page@, "lister-item-header"@, "a"@),
        ),
        crate::movie::opt_text(r.next_url) == next_listing(base@, page@),
{
    let hrefs = select_class_tag_hrefs(page, "lister-item-header", "a");
    let ghost hv = opt_texts(hrefs@);
    let mut detail_urls: Vec<String> = Vec::new();
    let mut i: usize = 0;
    while i < hrefs.len()
        invariant
            i <= hrefs@.len(),
            hv == opt_texts(hrefs@),
            texts(detail_urls@) == present_links(base@, hv.take(i as int)),
        decreases hrefs.len() - i,
    {
        let ghost before = detail_urls@;
        proof {
            assert(hv.take(i + 1).drop_last() =~= hv.take(i as int));
            assert(hv.take(i + 1).last() == crate::movie::opt_text(hrefs@[i as int]));
        }
        match &hrefs[i] {
            Some(h) => {
                let mut url = base.to_owned();
                url.append(h.as_str());
                detail_urls.push(url);
                proof {
                    assert(texts(detail_urls@) =~= texts(before) + seq![base@ + h@]);
                }
            },
            None => {
                assert(texts(detail_urls@) =~= texts(before) + seq![]);
            },
        }
        i += 1;
    }
    assert(hv.take(hrefs@.len() as int) =~= hv);
    let nexts = select_class_hrefs(page, "lister-page-next");
    let mut next_url: Option<String> = None;
    if nexts.len() > 0 {
        assert(opt_texts(nexts@)[0] == crate::movie::opt_text(nexts@[0]));
        match &nexts[0] {
            Some(h) => {
                let mut url = base.to_owned();
                url.append("/search/title");
                url.append(h.as_str());
                next_url = Some(url);
            },
            None => {},
        }
    }
    ListingStep { detail_urls, next_url }
}

} // verus!
