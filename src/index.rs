//! The inverted index: from a lowercased term to the records filed under it,
//! one per name.
use std::sync::Arc;
use vstd::prelude::*;
use vstd::map::*;
use crate::movie::{ItemType, MovieView};
use crate::terms::{lower_of, lowercase};

verus! {

/// What the index holds: each term maps to the records under it, keyed by name.
pub type IndexView = Map<Seq<char>, Map<Seq<char>, MovieView>>;

/// The records under a term; none where the term was never filed.
pub open spec fn bucket_of(ix: IndexView, term: Seq<char>) -> Map<Seq<char>, MovieView> {
    if ix.contains_key(term) {
        ix[term]
    } else {
        Map::empty()
    }
}

/// The index after filing record `m` under `term`: a record whose name is
/// already there is kept, and `m` is then dropped.
pub open spec fn file_under(ix: IndexView, term: Seq<char>, m: MovieView) -> IndexView {
    let b = bucket_of(ix, term);
    ix.insert(
        term,
        if b.contains_key(m.name) {
            b
        } else {
            b.insert(m.name, m)
        },
    )
}

/// A sequence of records lists exactly those of a bucket, each once, in some
/// order.
pub open spec fn lists_exactly(r: Seq<MovieView>, b: Map<Seq<char>, MovieView>) -> bool {
    &&& forall|i: int| 0 <= i < r.len() ==> b.contains_key(#[trigger] r[i].name) && b[r[i].name] == r[i]
    &&& forall|n: Seq<char>| b.contains_key(n) ==> exists|i: int| 0 <= i < r.len() && #[trigger] r[i].name == n
    &&& forall|i: int, j: int| 0 <= i < j < r.len() ==> r[i].name != r[j].name
}

pub open spec fn item_views(items: Seq<ItemType>) -> Seq<MovieView> {
    items.map_values(|a: ItemType| a@)
}

/// Relies on `Arc::clone`: the clone points to the same record.
#[verifier::external_body]
fn share(a: &ItemType) -> (r: ItemType)
    ensures
        r@ == a@,
{
    Arc::clone(a)
}

struct Bucket {
    term: String,
    items: Vec<ItemType>,
}

spec fn names_distinct(items: Seq<ItemType>) -> bool {
    forall|a: int, b: int| 0 <= a < b < items.len() ==> items[a]@.name != items[b]@.name
}

spec fn holds_name(items: Seq<ItemType>, n: Seq<char>) -> bool {
    exists|j: int| 0 <= j < items.len() && items[j]@.name == n
}

spec fn bucket_view(items: Seq<ItemType>) -> Map<Seq<char>, MovieView> {
    Map::new(
        |n: Seq<char>| holds_name(items, n),
        |n: Seq<char>| items[choose|j: int| 0 <= j < items.len() && items[j]@.name == n]@,
    )
}

spec fn holds_term(bs: Seq<Bucket>, t: Seq<char>) -> bool {
    exists|i: int| 0 <= i < bs.len() && bs[i].term@ == t
}

spec fn buckets_view(bs: Seq<Bucket>) -> IndexView {
    Map::new(
        |t: Seq<char>| holds_term(bs, t),
        |t: Seq<char>| bucket_view(bs[choose|i: int| 0 <= i < bs.len() && bs[i].term@ == t].items@),
    )
}

spec fn buckets_wf(bs: Seq<Bucket>) -> bool {
    &&& forall|a: int, b: int| 0 <= a < b < bs.len() ==> bs[a].term@ != bs[b].term@
    &&& forall|i: int| 0 <= i < bs.len() ==> names_distinct(#[trigger] bs[i].items@)
}

proof fn lemma_bucket_push(items: Seq<ItemType>, x: ItemType)
    requires
        names_distinct(items),
        !holds_name(items, x@.name),
    ensures
        names_distinct(items.push(x)),
        bucket_view(items.push(x)) == bucket_view(items).insert(x@.name, x@),
{
    let p = items.push(x);
    assert forall|a: int, b: int| 0 <= a < b < p.len() implies p[a]@.name != p[b]@.name by {
        if b == items.len() {
            assert(items[a]@.name == p[a]@.name);
        } else {
            assert(p[a] == items[a] && p[b] == items[b]);
        }
    }
    assert forall|n: Seq<char>| holds_name(p, n) == (holds_name(items, n) || n == x@.name) by {
        if holds_name(items, n) {
            let j = choose|j: int| 0 <= j < items.len() && items[j]@.name == n;
            assert(p[j] == items[j]);
        }
        if n == x@.name {
            assert(p[items.len() as int] == x);
        }
        if holds_name(p, n) && n != x@.name {
            let j = choose|j: int| 0 <= j < p.len() && p[j]@.name == n;
            assert(p[j] == items[j]);
        }
    }
    assert_maps_equal!(bucket_view(p), bucket_view(items).insert(x@.name, x@), n => {
        if holds_name(p, n) {
            let j = choose|j: int| 0 <= j < p.len() && p[j]@.name == n;
            if n == x@.name {
                assert(p[items.len() as int] == x);
                assert(j == items.len());
            } else {
                let k = choose|k: int| 0 <= k < items.len() && items[k]@.name == n;
                assert(p[k] == items[k]);
                assert(j == k);
            }
        }
    });
}

proof fn lemma_bucket_lists(items: Seq<ItemType>)
    requires
        names_distinct(items),
    ensures
        lists_exactly(item_views(items), bucket_view(items)),
{
    let r = item_views(items);
    let b = bucket_view(items);
    assert forall|i: int| 0 <= i < r.len() implies b.contains_key(#[trigger] r[i].name) && b[r[i].name] == r[i] by {
        assert(r[i] == items[i]@);
        assert(holds_name(items, items[i]@.name));
        let j = choose|j: int| 0 <= j < items.len() && items[j]@.name == items[i]@.name;
        assert(j == i);
    }
    assert forall|n: Seq<char>| b.contains_key(n) implies exists|i: int| 0 <= i < r.len() && #[trigger] r[i].name == n by {
        let j = choose|j: int| 0 <= j < items.len() && items[j]@.name == n;
        assert(r[j].name == n);
    }
}

proof fn lemma_buckets_update(bs: Seq<Bucket>, i: int, nb: Bucket)
    requires
        buckets_wf(bs),
        0 <= i < bs.len(),
        nb.term@ == bs[i].term@,
        names_distinct(nb.items@),
    ensures
        buckets_wf(bs.update(i, nb)),
        buckets_view(bs.update(i, nb)) == buckets_view(bs).insert(nb.term@, bucket_view(nb.items@)),
{
    let u = bs.update(i, nb);
    assert forall|a: int, b: int| 0 <= a < b < u.len() implies u[a].term@ != u[b].term@ by {
        assert(u[a].term@ == bs[a].term@ && u[b].term@ == bs[b].term@);
    }
    assert forall|k: int| 0 <= k < u.len() implies names_distinct(#[trigger] u[k].items@) by {
        if k != i {
            assert(u[k] == bs[k]);
        }
    }
    assert forall|t: Seq<char>| holds_term(u, t) == holds_term(bs, t) by {
        if holds_term(bs, t) {
            let j = choose|j: int| 0 <= j < bs.len() && bs[j].term@ == t;
            assert(u[j].term@ == t);
        }
        if holds_term(u, t) {
            let j = choose|j: int| 0 <= j < u.len() && u[j].term@ == t;
            assert(bs[j].term@ == t);
        }
    }
    assert_maps_equal!(buckets_view(u), buckets_view(bs).insert(nb.term@, bucket_view(nb.items@)), t => {
        if holds_term(u, t) {
            let j = choose|j: int| 0 <= j < u.len() && u[j].term@ == t;
            let k = choose|k: int| 0 <= k < bs.len() && bs[k].term@ == t;
            assert(bs[j].term@ == t);
            assert(j == k);
            if t == nb.term@ {
                assert(j == i);
            } else {
                assert(u[j] == bs[j]);
            }
        }
    });
}

proof fn lemma_buckets_push(bs: Seq<Bucket>, nb: Bucket)
    requires
        buckets_wf(bs),
        !holds_term(bs, nb.term@),
        names_distinct(nb.items@),
    ensures
        buckets_wf(bs.push(nb)),
        buckets_view(bs.push(nb)) == buckets_view(bs).insert(nb.term@, bucket_view(nb.items@)),
{
    let p = bs.push(nb);
    let last = bs.len() as int;
    assert forall|a: int, b: int| 0 <= a < b < p.len() implies p[a].term@ != p[b].term@ by {
        assert(p[a] == bs[a]);
        if b != last {
            assert(p[b] == bs[b]);
        }
    }
    assert forall|k: int| 0 <= k < p.len() implies names_distinct(#[trigger] p[k].items@) by {
        if k != last {
            assert(p[k] == bs[k]);
        }
    }
    assert forall|t: Seq<char>| holds_term(p, t) == (holds_term(bs, t) || t == nb.term@) by {
        if holds_term(bs, t) {
            let j = choose|j: int| 0 <= j < bs.len() && bs[j].term@ == t;
            assert(p[j] == bs[j]);
        }
        if t == nb.term@ {
            assert(p[last] == nb);
        }
        if holds_term(p, t) && t != nb.term@ {
            let j = choose|j: int| 0 <= j < p.len() && p[j].term@ == t;
            assert(p[j] == bs[j]);
        }
    }
    assert_maps_equal!(buckets_view(p), buckets_view(bs).insert(nb.term@, bucket_view(nb.items@)), t => {
        if holds_term(p, t) {
            let j = choose|j: int| 0 <= j < p.len() && p[j].term@ == t;
            if t == nb.term@ {
                assert(p[last] == nb);
                assert(j == last);
            } else {
                let k = choose|k: int| 0 <= k < bs.len() && bs[k].term@ == t;
                assert(p[k] == bs[k]);
                assert(j == k);
            }
        }
    });
}

fn find_term(bs: &Vec<Bucket>, t: &String) -> (r: Option<usize>)
    ensures
        match r {
            Some(i) => i < bs@.len() && bs@[i as int].term@ == t@,
            None => !holds_term(bs@, t@),
        },
{
    let mut i: usize = 0;
    while i < bs.len()
        invariant
            i <= bs@.len(),
            forall|k: int| 0 <= k < i ==> bs@[k].term@ != t@,
        decreases bs.len() - i,
    {
        if bs[i].term == *t {
            return Some(i);
        }
        i += 1;
    }
    None
}

fn find_name(items: &Vec<ItemType>, n: &String) -> (r: bool)
    ensures
        r == holds_name(items@, n@),
{
    let mut j: usize = 0;
    while j < items.len()
        invariant
            j <= items@.len(),
            forall|k: int| 0 <= k < j ==> items@[k]@.name != n@,
        decreases items.len() - j,
    {
        if items[j].name == *n {
            return true;
        }
        j += 1;
    }
    false
}

/// An inverted index from lowercased terms to records, a record at most once
/// per name under each term.
pub struct InvertedIndex {
    buckets: Vec<Bucket>,
}

impl InvertedIndex {
    #[verifier::type_invariant]
    spec fn wf(&self) -> bool {
        buckets_wf(self.buckets@)
    }

    pub closed spec fn view(&self) -> IndexView {
        buckets_view(self.buckets@)
    }

    /// An index with no term.
    pub fn new() -> (r: InvertedIndex)
        ensures
            r.view() == IndexView::empty(),
    {
        let r = InvertedIndex { buckets: Vec::new() };
        assert(r.view() =~= IndexView::empty());
        r
    }
}

/// Storage of values under text keys.
pub trait Storage<T: Clone> {
    /// Files `value` under `key`.
    fn add_key_value(&mut self, key: &str, value: &T);

    /// The values filed under `key`.
    fn query(&self, key: &str) -> Vec<T>;
}

impl Storage<ItemType> for InvertedIndex {
    /// Files the record under the lowercase form of `key`, unless a record of
    /// the same name is already there.
    fn add_key_value(&mut self, key: &str, value: &ItemType)
        ensures
            final(self).view() == file_under(old(self).view(), lower_of(key@), value@),
    {
        proof { use_type_invariant(&*self); }
        let mut bs: Vec<Bucket> = Vec::new();
        std::mem::swap(&mut bs, &mut self.buckets);
        let ghost old_bs = bs@;
        let term = lowercase(key);
        match find_term(&bs, &term) {
            Some(i) => {
                let ghost ob = bs@[i as int];
                assert(buckets_view(old_bs).contains_key(term@));
                assert(buckets_view(old_bs)[term@] == bucket_view(ob.items@)) by {
                    let j = choose|j: int| 0 <= j < old_bs.len() && old_bs[j].term@ == term@;
                    assert(j == i);
                }
                if !find_name(&bs[i].items, &value.name) {
                    let v = share(value);
                    bs[i].items.push(v);
                    proof {
                        lemma_bucket_push(ob.items@, v);
                        lemma_buckets_update(old_bs, i as int, bs@[i as int]);
                        assert(bs@ == old_bs.update(i as int, bs@[i as int]));
                    }
                } else {
                    assert(buckets_view(old_bs).insert(term@, bucket_view(ob.items@)) =~= buckets_view(old_bs));
                }
            },
            None => {
                let mut items: Vec<ItemType> = Vec::new();
                let v = share(value);
                items.push(v);
                let nb = Bucket { term, items };
                proof {
                    let e = Seq::<ItemType>::empty();
                    assert(bucket_view(e) =~= Map::<Seq<char>, MovieView>::empty());
                    lemma_bucket_push(e, v);
                    assert(e.push(v) == nb.items@);
                    lemma_buckets_push(old_bs, nb);
                }
                bs.push(nb);
            },
        }
        self.buckets = bs;
    }

    /// The records filed under the lowercase form of `key`, each once; none
    /// where that term was never filed.
    fn query(&self, key: &str) -> (r: Vec<ItemType>)
        ensures
            lists_exactly(item_views(r@), bucket_of(self.view(), lower_of(key@))),
    {
        proof { use_type_invariant(self); }
        let term = lowercase(key);
        let mut out: Vec<ItemType> = Vec::new();
        match find_term(&self.buckets, &term) {
            Some(i) => {
                let items = &self.buckets[i].items;
                assert(names_distinct(items@));
                let mut j: usize = 0;
                while j < items.len()
                    invariant
                        j <= items@.len(),
                        out@.len() == j,
                        item_views(out@) == item_views(items@).take(j as int),
                    decreases items.len() - j,
                {
                    let v = share(&items[j]);
                    let ghost before = out@;
                    out.push(v);
                    proof {
                        assert(out@ == before.push(v));
                        assert(v@ == items@[j as int]@);
                        assert forall|k: int| 0 <= k < j + 1 implies #[trigger] item_views(out@)[k]
                            == item_views(items@)[k] by {
                            assert(item_views(out@)[k] == out@[k]@);
                            assert(item_views(items@)[k] == items@[k]@);
                            if k < j {
                                assert(out@[k] == before[k]);
                                assert(item_views(before)[k] == before[k]@);
                                assert(item_views(before)[k] == item_views(items@).take(j as int)[k]);
                            } else {
                                assert(out@[k] == v);
                            }
                        }
                        assert(item_views(out@) =~= item_views(items@).take(j + 1));
                    }
                    j += 1;
                }
                proof {
                    assert(item_views(items@).take(j as int) =~= item_views(items@));
                    lemma_bucket_lists(items@);
                    let k = choose|k: int| 0 <= k < self.buckets@.len() && self.buckets@[k].term@ == term@;
                    assert(k == i);
                }
            },
            None => {
                assert(item_views(out@) =~= Seq::<MovieView>::empty());
            },
        }
        out
    }
}

} // verus!
