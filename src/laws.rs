//! Laws of the index, stated over its model and proved.
use vstd::prelude::*;
use crate::crawl::file_all;
use crate::index::{IndexView, bucket_of, file_under, lists_exactly};
use crate::movie::MovieView;
use crate::terms::lower_of;

verus! {

/// Filing a record changes only the bucket of its term, and there it adds the
/// record's name to the names already present: nothing is ever lost.
pub proof fn lemma_file_under_union(ix: IndexView, term: Seq<char>, m: MovieView, t: Seq<char>)
    ensures
        bucket_of(file_under(ix, term, m), t).dom() == if t == term {
            bucket_of(ix, t).dom().insert(m.name)
        } else {
            bucket_of(ix, t).dom()
        },
        bucket_of(ix, t).submap_of(bucket_of(file_under(ix, term, m), t)),
        t != term ==> bucket_of(file_under(ix, term, m), t) == bucket_of(ix, t),
{
    if t == term {
        let b = bucket_of(ix, t);
        if b.contains_key(m.name) {
            assert(b.dom().insert(m.name) =~= b.dom());
        } else {
            assert(b.insert(m.name, m).dom() =~= b.dom().insert(m.name));
        }
    }
}

/// Filing under a term grows every bucket of the index.
proof fn lemma_file_all_grows(ix: IndexView, terms: Seq<Seq<char>>, m: MovieView, t: Seq<char>)
    ensures
        bucket_of(ix, t).submap_of(bucket_of(file_all(ix, terms, m), t)),
    decreases terms.len(),
{
    if terms.len() > 0 {
        lemma_file_all_grows(ix, terms.drop_last(), m, t);
        lemma_file_under_union(file_all(ix, terms.drop_last(), m), lower_of(terms.last()), m, t);
    }
}

/// A record filed under a sequence of terms is found, by its name, under the
/// lowercase form of each of them; under any other term the index is as it
/// was before.
pub proof fn lemma_filed_record_found(ix: IndexView, terms: Seq<Seq<char>>, m: MovieView)
    ensures
        forall|k: int| 0 <= k < terms.len() ==> #[trigger] bucket_of(file_all(ix, terms, m), lower_of(terms[k])).contains_key(m.name),
        forall|t: Seq<char>| (forall|k: int| 0 <= k < terms.len() ==> #[trigger] lower_of(terms[k]) != t) ==> bucket_of(file_all(ix, terms, m), t) == bucket_of(ix, t),
    decreases terms.len(),
{
    if terms.len() > 0 {
        let init = terms.drop_last();
        let before = file_all(ix, init, m);
        let last = lower_of(terms.last());
        lemma_filed_record_found(ix, init, m);
        assert forall|k: int| 0 <= k < terms.len() implies #[trigger] bucket_of(file_all(ix, terms, m), lower_of(terms[k])).contains_key(m.name) by {
            lemma_file_under_union(before, last, m, lower_of(terms[k]));
            if k < terms.len() - 1 {
                assert(init[k] == terms[k]);
                assert(bucket_of(before, lower_of(init[k])).contains_key(m.name));
            }
        }
        assert forall|t: Seq<char>| (forall|k: int| 0 <= k < terms.len() ==> #[trigger] lower_of(terms[k]) != t) implies bucket_of(file_all(ix, terms, m), t) == bucket_of(ix, t) by {
            assert(lower_of(terms[terms.len() - 1]) != t);
            assert forall|k: int| 0 <= k < init.len() implies #[trigger] lower_of(init[k]) != t by {
                assert(init[k] == terms[k]);
            }
            lemma_file_under_union(before, last, m, t);
        }
    }
}

/// Once filed, a record stays findable under every term of every later filing.
pub proof fn lemma_filed_record_kept(ix: IndexView, terms: Seq<Seq<char>>, m: MovieView, later: Seq<Seq<char>>, other: MovieView)
    ensures
        forall|k: int| 0 <= k < terms.len() ==> #[trigger] bucket_of(file_all(file_all(ix, terms, m), later, other), lower_of(terms[k])).contains_key(m.name),
{
    lemma_filed_record_found(ix, terms, m);
    assert forall|k: int| 0 <= k < terms.len() implies #[trigger] bucket_of(file_all(file_all(ix, terms, m), later, other), lower_of(terms[k])).contains_key(m.name) by {
        assert(bucket_of(file_all(ix, terms, m), lower_of(terms[k])).contains_key(m.name));
        lemma_file_all_grows(file_all(ix, terms, m), later, other, lower_of(terms[k]));
    }
}

/// A term that holds no bucket lists no record.
pub proof fn lemma_absent_term_lists_nothing(ix: IndexView, t: Seq<char>, r: Seq<MovieView>)
    requires
        !ix.contains_key(t),
        lists_exactly(r, bucket_of(ix, t)),
    ensures
        r.len() == 0,
{
    if r.len() > 0 {
        assert(bucket_of(ix, t).contains_key(r[0].name));
    }
}

/// Filing a record under a term where a record of the same name already is
/// changes nothing: filing the same record twice is filing it once.
pub proof fn lemma_file_under_idempotent(ix: IndexView, term: Seq<char>, m: MovieView, again: MovieView)
    requires
        again.name == m.name,
    ensures
        file_under(file_under(ix, term, m), term, again) == file_under(ix, term, m),
{
    let once = file_under(ix, term, m);
    assert(bucket_of(once, term).contains_key(m.name));
    assert(once.insert(term, bucket_of(once, term)) =~= once);
}

/// A listing of a bucket holds each of its names exactly once.
pub proof fn lemma_listed_once(r: Seq<MovieView>, b: Map<Seq<char>, MovieView>, n: Seq<char>)
    requires
        lists_exactly(r, b),
        b.contains_key(n),
    ensures
        exists|i: int| 0 <= i < r.len() && r[i].name == n && forall|j: int| 0 <= j < r.len() && #[trigger] r[j].name == n ==> j == i,
{
    let i = choose|i: int| 0 <= i < r.len() && #[trigger] r[i].name == n;
    assert forall|j: int| 0 <= j < r.len() && #[trigger] r[j].name == n implies j == i by {
        if j < i {
            assert(r[j].name != r[i].name);
        } else if i < j {
            assert(r[i].name != r[j].name);
        }
    }
}

/// Filing goes by the lowercase form of a key: a record filed under one key is
/// found under every key with the same lowercase form.
pub proof fn lemma_case_insensitive(ix: IndexView, key: Seq<char>, other: Seq<char>, m: MovieView)
    requires
        lower_of(key) == lower_of(other),
    ensures
        bucket_of(file_under(ix, lower_of(key), m), lower_of(other)).contains_key(m.name),
{
}

/// Two filings give the same names under every term in either order: the
/// index's names are a union, whatever order concurrent writers take.
pub proof fn lemma_filings_commute(ix: IndexView, t1: Seq<char>, a: MovieView, t2: Seq<char>, b: MovieView, t: Seq<char>)
    ensures
        bucket_of(file_under(file_under(ix, t1, a), t2, b), t).dom() == bucket_of(
            file_under(file_under(ix, t2, b), t1, a),
            t,
        ).dom(),
{
    lemma_file_under_union(ix, t1, a, t);
    lemma_file_under_union(ix, t2, b, t);
    lemma_file_under_union(file_under(ix, t1, a), t2, b, t);
    lemma_file_under_union(file_under(ix, t2, b), t1, a, t);
    let d = bucket_of(ix, t).dom();
    if t == t1 && t == t2 {
        assert(d.insert(a.name).insert(b.name) =~= d.insert(b.name).insert(a.name));
    }
}

} // verus!
