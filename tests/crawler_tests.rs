use std::collections::HashMap;
use std::sync::{Arc, Mutex};

use crawler::{
    extract_movie, first_listing_url, index_detail_page, index_movie, listing_step,
    string_to_terms, ExtractError, InvertedIndex, ItemType, Movie, Storage, URL_BASE,
};

fn movie(name: &str, actors: &[&str], year: Option<&str>, director: Option<&str>) -> Movie {
    Movie {
        name: name.to_string(),
        actors: actors.iter().map(|a| a.to_string()).collect(),
        year: year.map(|y| y.to_string()),
        director: director.map(|d| d.to_string()),
    }
}

fn names(items: &[ItemType]) -> Vec<String> {
    let mut v: Vec<String> = items.iter().map(|m| m.name.clone()).collect();
    v.sort();
    v
}

fn detail_page(title: &str, year: Option<&str>, director: Option<&str>, actors: &[&str]) -> String {
    let mut s = String::from("<html><body>");
    s.push_str(&format!("<div class=\"title_wrapper\"><h1>{}</h1></div>", title));
    if let Some(y) = year {
        s.push_str(&format!("<span id=\"titleYear\">(<a href=\"/year/{}\">{}</a>)</span>", y, y));
    }
    if let Some(d) = director {
        s.push_str(&format!("<div itemprop=\"creator\"><span itemprop=\"name\">{}</span></div>", d));
    }
    for a in actors {
        s.push_str(&format!("<div itemprop=\"actors\"><span itemprop=\"name\">{}</span></div>", a));
    }
    s.push_str("</body></html>");
    s
}

fn listing_page(links: &[&str], next: Option<Option<&str>>) -> String {
    let mut s = String::from("<html><body>");
    for l in links {
        s.push_str(&format!("<h3 class=\"lister-item-header\"><span>1.</span><a href=\"{}\">x</a></h3>", l));
    }
    match next {
        Some(Some(h)) => s.push_str(&format!("<a class=\"lister-page-next next-page\" href=\"{}\">Next</a>", h)),
        Some(None) => s.push_str("<a class=\"lister-page-next next-page\">Next</a>"),
        None => {}
    }
    s.push_str("</body></html>");
    s
}

#[test]
fn terms_split_on_whitespace_runs() {
    assert_eq!(string_to_terms("The  Dark\tKnight\n"), vec!["The", "Dark", "Knight"]);
    assert!(string_to_terms("").is_empty());
    assert!(string_to_terms("   ").is_empty());
}

#[test]
fn new_movie_has_only_a_name() {
    let m = Movie::new("Heat".to_string());
    assert_eq!(m.name, "Heat");
    assert!(m.actors.is_empty());
    assert_eq!(m.year, None);
    assert_eq!(m.director, None);
}

#[test]
fn index_terms_in_declared_order() {
    let m = movie("The Godfather", &["Marlon Brando", "Al Pacino"], Some("1972"), Some("Francis Ford Coppola"));
    assert_eq!(
        m.index_terms(),
        vec!["The", "Godfather", "1972", "Francis", "Ford", "Coppola", "Marlon", "Brando", "Al", "Pacino"]
    );
    assert_eq!(Movie::new("Up".to_string()).index_terms(), vec!["Up"]);
}

#[test]
fn records_equal_by_name_only() {
    let a = movie("Heat", &["Al Pacino"], Some("1995"), None);
    let b = movie("Heat", &[], None, Some("Michael Mann"));
    assert!(a == b);
    assert!(a != movie("heat", &[], None, None));
}

#[test]
fn filed_record_found_under_each_term_only() {
    let mut index = InvertedIndex::new();
    let m = movie("Heat", &["Al Pacino"], Some("1995"), None);
    index_movie(&mut index, m);
    for t in ["heat", "al", "pacino", "1995"] {
        assert_eq!(names(&index.query(t)), vec!["Heat"]);
    }
    assert!(index.query("mann").is_empty());
    assert!(index.query("al pacino").is_empty());
}

#[test]
fn absent_term_gives_empty_result() {
    let index = InvertedIndex::new();
    assert!(index.query("anything").is_empty());
    let mut index = InvertedIndex::new();
    index.add_key_value("heat", &Arc::new(Movie::new("Heat".to_string())));
    assert!(index.query("cold").is_empty());
    assert!(index.query("").is_empty());
}

#[test]
fn same_record_twice_listed_once() {
    let mut index = InvertedIndex::new();
    let r = Arc::new(movie("Heat", &[], Some("1995"), None));
    index.add_key_value("crime", &r);
    index.add_key_value("crime", &r);
    let other = Arc::new(movie("Heat", &["Val Kilmer"], None, None));
    index.add_key_value("crime", &other);
    let found = index.query("crime");
    assert_eq!(found.len(), 1);
    assert_eq!(found[0].year, Some("1995".to_string()));
    assert!(found[0].actors.is_empty());
}

#[test]
fn insert_key_is_lowercased() {
    let mut index = InvertedIndex::new();
    let r = Arc::new(Movie::new("Heat".to_string()));
    index.add_key_value("Director", &r);
    assert_eq!(names(&index.query("director")), vec!["Heat"]);
}

#[test]
fn query_key_is_lowercased() {
    let mut index = InvertedIndex::new();
    let r = Arc::new(Movie::new("Heat".to_string()));
    index.add_key_value("director", &r);
    assert_eq!(names(&index.query("DIRECTOR")), vec!["Heat"]);
    assert_eq!(names(&index.query("Director")), vec!["Heat"]);
}

#[test]
fn concurrent_filing_loses_nothing() {
    for _round in 0..5 {
        let shared = Arc::new(Mutex::new(InvertedIndex::new()));
        let pool = threadpool::ThreadPool::new(8);
        for w in 0..8usize {
            for k in 0..20usize {
                let shared = Arc::clone(&shared);
                pool.execute(move || {
                    let n = w * 20 + k;
                    let m = movie(&format!("Film{}", n), &["Shared Star"], None, Some(&format!("Maker{}", n % 3)));
                    let mut index = shared.lock().unwrap();
                    index_movie(&mut index, m);
                });
            }
        }
        pool.join();
        assert_eq!(pool.panic_count(), 0);
        let index = shared.lock().unwrap();
        assert_eq!(index.query("star").len(), 160);
        assert_eq!(index.query("shared").len(), 160);
        let makers: usize = (0..3).map(|i| index.query(&format!("maker{}", i)).len()).sum();
        assert_eq!(makers, 160);
        assert_eq!(index.query("film7").len(), 1);
    }
}

#[test]
fn detail_page_with_title_only() {
    let page = "<html><body><div class=\"title_wrapper\"><h1>  Alone  </h1></div></body></html>";
    let m = extract_movie(page).unwrap();
    assert_eq!(m.name, "Alone");
    assert!(m.actors.is_empty());
    assert_eq!(m.year, None);
    assert_eq!(m.director, None);
}

#[test]
fn detail_page_without_title_fails() {
    let page = "<html><body><h1>Loose</h1><div itemprop=\"actors\"><span itemprop=\"name\">Someone</span></div></body></html>";
    assert!(matches!(extract_movie(page), Err(ExtractError::MissingTitle)));
    let mut index = InvertedIndex::new();
    assert_eq!(index_detail_page(&mut index, page), Err(ExtractError::MissingTitle));
    assert!(index.query("someone").is_empty());
    assert!(index.query("loose").is_empty());
}

#[test]
fn detail_page_all_fields() {
    let page = detail_page(" Heat\n", Some("1995"), Some(" Michael Mann "), &["Al Pacino", " Robert De Niro "]);
    let m = extract_movie(&page).unwrap();
    assert_eq!(m.name, "Heat");
    assert_eq!(m.year, Some("1995".to_string()));
    assert_eq!(m.director, Some("Michael Mann".to_string()));
    assert_eq!(m.actors, vec!["Al Pacino", "Robert De Niro"]);
}

#[test]
fn listing_page_links_and_next() {
    let page = listing_page(&["/title/tt1/", "/title/tt2/"], Some(Some("?page=2")));
    let step = listing_step("http://x.org", &page);
    assert_eq!(step.detail_urls, vec!["http://x.org/title/tt1/", "http://x.org/title/tt2/"]);
    assert_eq!(step.next_url, Some("http://x.org/search/title?page=2".to_string()));
}

#[test]
fn listing_page_without_next_ends() {
    let step = listing_step("http://x.org", &listing_page(&[], None));
    assert!(step.detail_urls.is_empty());
    assert_eq!(step.next_url, None);
}

#[test]
fn next_link_without_href_ends() {
    let step = listing_step("http://x.org", &listing_page(&["/title/tt9/"], Some(None)));
    assert_eq!(step.detail_urls, vec!["http://x.org/title/tt9/"]);
    assert_eq!(step.next_url, None);
}

#[test]
fn first_listing_url_of_site() {
    assert_eq!(
        first_listing_url(URL_BASE),
        "http://www.imdb.com/search/title?groups=top_1000&sort=user_rating&view=simple"
    );
}

fn walk(site: &HashMap<String, String>, base: &str, start: String) -> (InvertedIndex, usize, usize) {
    let mut index = InvertedIndex::new();
    let mut listing_fetches = 0usize;
    let mut detail_fetches = 0usize;
    let mut url = Some(start);
    while let Some(page_url) = url.take() {
        listing_fetches += 1;
        let step = listing_step(base, &site[&page_url]);
        for d in step.detail_urls.iter() {
            detail_fetches += 1;
            index_detail_page(&mut index, &site[d]).unwrap();
        }
        url = step.next_url;
    }
    (index, listing_fetches, detail_fetches)
}

#[test]
fn chain_of_listing_pages_terminates() {
    let base = "http://x.org";
    let mut site = HashMap::new();
    for i in 1..=5 {
        let next = if i < 5 { Some(format!("?page={}", i + 1)) } else { None };
        site.insert(
            format!("{}/search/title?page={}", base, i),
            listing_page(&[], next.as_deref().map(Some)),
        );
    }
    let (_, listings, details) = walk(&site, base, format!("{}/search/title?page=1", base));
    assert_eq!(listings, 5);
    assert_eq!(details, 0);
}

#[test]
fn end_to_end_two_listing_pages() {
    let base = "http://x.org";
    let mut site = HashMap::new();
    site.insert(
        format!("{}/search/title?page=1", base),
        listing_page(&["/title/a/", "/title/b/"], Some(Some("?page=2"))),
    );
    site.insert(format!("{}/search/title?page=2", base), listing_page(&["/title/c/"], None));
    site.insert(format!("{}/title/a/", base), detail_page("Alpha", Some("2001"), Some("Ann Lee"), &["Jane Doe", "Bob Roe"]));
    site.insert(format!("{}/title/b/", base), detail_page("Beta", None, None, &["Jane Doe"]));
    site.insert(format!("{}/title/c/", base), detail_page("Gamma", Some("2003"), None, &["Sam Poe", "Jane Doe"]));
    let (index, listings, details) = walk(&site, base, format!("{}/search/title?page=1", base));
    assert_eq!(listings, 2);
    assert_eq!(details, 3);
    assert_eq!(names(&index.query("jane")), vec!["Alpha", "Beta", "Gamma"]);
    assert_eq!(names(&index.query("doe")), vec!["Alpha", "Beta", "Gamma"]);
    assert_eq!(names(&index.query("2003")), vec!["Gamma"]);
}

#[test]
fn detail_page_fields_are_trimmed() {
    let page = detail_page("\n  Ran  ", Some(" 1985\n"), Some("\tAkira Kurosawa "), &["  Tatsuya Nakadai"]);
    let m = extract_movie(&page).unwrap();
    assert_eq!(m.name, "Ran");
    assert_eq!(m.year, Some("1985".to_string()));
    assert_eq!(m.director, Some("Akira Kurosawa".to_string()));
    assert_eq!(m.actors, vec!["Tatsuya Nakadai"]);
    let mut index = InvertedIndex::new();
    assert_eq!(index_detail_page(&mut index, &page), Ok(()));
    assert_eq!(names(&index.query("KUROSAWA")), vec!["Ran"]);
    assert_eq!(names(&index.query("1985")), vec!["Ran"]);
}
