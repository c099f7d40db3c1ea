//! A crawler's core: records extracted from detail pages, the terms they are
//! filed under, and an inverted index from term to records.

mod terms;
mod movie;
mod index;
mod page;
mod crawl;
mod laws;

pub use movie::{Movie, MovieView, ItemType};
pub use terms::{string_to_terms, words_of, all_words, lower_of, trimmed};
pub use index::{InvertedIndex, IndexView, Storage, bucket_of, file_under, lists_exactly, item_views};
pub use page::{
    ExtractError, ListingStep, extract_movie, listing_step, page_record, next_listing,
    present_links, class_tag_texts, class_tag_hrefs, class_hrefs, attr_tag_texts,
    attr_attr_texts,
};
pub use crawl::{URL_BASE, FIRST_LISTING_QUERY, file_all, first_listing_url, index_movie, index_detail_page};
pub use laws::{
    lemma_file_under_union, lemma_filed_record_found, lemma_filed_record_kept,
    lemma_absent_term_lists_nothing, lemma_file_under_idempotent, lemma_listed_once,
    lemma_case_insensitive, lemma_filings_commute,
};
