//! The lexical inverted index and the integer statistics behind BM25
//! scoring.
//!
//! The index owns, per document id, the normalised term sequence of the
//! document.  All counting — term frequencies, document frequencies,
//! document lengths and the corpus totals — is computed here and proved
//! exact; turning those counts into real-valued BM25 scores is floating
//! point and happens outside the verified core, which then ranks the
//! resulting scores with `ranking::rank_top_k`.

use vstd::prelude::*;
use crate::core_types::LuCastraError;
use crate::strutil::str_eq;
use crate::tokenizer::{Tokenizer, spec_terms, views_of};

verus! {

/// One indexed document: its id and its normalised terms.
pub type DocEntry = (Seq<char>, Seq<Seq<char>>);

/// Whether some entry of `s` carries the id `id`.
pub open spec fn spec_contains_id(s: Seq<DocEntry>, id: Seq<char>) -> bool {
    exists|i: int| 0 <= i < s.len() && (#[trigger] s[i]).0 == id
}

/// The index of the entry carrying `id`.
pub open spec fn spec_id_index(s: Seq<DocEntry>, id: Seq<char>) -> int {
    choose|i: int| 0 <= i < s.len() && (#[trigger] s[i]).0 == id
}

/// Document ids are pairwise distinct.
pub open spec fn spec_unique_ids(s: Seq<DocEntry>) -> bool {
    forall|i: int, j: int| 0 <= i < j < s.len() ==> (#[trigger] s[i]).0 != (#[trigger] s[j]).0
}

/// Adding or replacing a document: an existing entry for `id` is replaced in
/// place, a new id is appended.
pub open spec fn spec_upsert(s: Seq<DocEntry>, id: Seq<char>, terms: Seq<Seq<char>>) -> Seq<
    DocEntry,
> {
    if spec_contains_id(s, id) {
        s.update(spec_id_index(s, id), (id, terms))
    } else {
        s.push((id, terms))
    }
}

/// The terms stored for `id`, if any (first matching entry).
pub open spec fn spec_lookup(s: Seq<DocEntry>, id: Seq<char>) -> Option<Seq<Seq<char>>>
    decreases s.len(),
{
    if s.len() == 0 {
        None
    } else if s[0].0 == id {
        Some(s[0].1)
    } else {
        spec_lookup(s.drop_first(), id)
    }
}

/// How often term `t` occurs in `terms`.
pub open spec fn spec_count(terms: Seq<Seq<char>>, t: Seq<char>) -> nat
    decreases terms.len(),
{
    if terms.len() == 0 {
        0
    } else {
        spec_count(terms.drop_last(), t) + if terms.last() == t {
            1nat
        } else {
            0nat
        }
    }
}

/// In how many documents of `s` the term `t` occurs.
pub open spec fn spec_df(s: Seq<DocEntry>, t: Seq<char>) -> nat
    decreases s.len(),
{
    if s.len() == 0 {
        0
    } else {
        spec_df(s.drop_last(), t) + if spec_count(s.last().1, t) > 0 {
            1nat
        } else {
            0nat
        }
    }
}

/// The summed length, in terms, of all documents of `s`.
pub open spec fn spec_total_len(s: Seq<DocEntry>) -> nat
    decreases s.len(),
{
    if s.len() == 0 {
        0
    } else {
        spec_total_len(s.drop_last()) + s.last().1.len()
    }
}

/// The distinct members of `q`, keeping the order of first occurrence.
pub open spec fn spec_dedup(q: Seq<Seq<char>>) -> Seq<Seq<char>>
    decreases q.len(),
{
    if q.len() == 0 {
        Seq::empty()
    } else {
        let d = spec_dedup(q.drop_last());
        if d.contains(q.last()) {
            d
        } else {
            d.push(q.last())
        }
    }
}

/// Whether the document terms contain at least one of the query terms.
pub open spec fn spec_any_match(terms: Seq<Seq<char>>, q: Seq<Seq<char>>) -> bool {
    exists|j: int| 0 <= j < q.len() && spec_count(terms, #[trigger] q[j]) > 0
}

/// Per-query-term frequencies within one document.
pub open spec fn spec_tfs(terms: Seq<Seq<char>>, q: Seq<Seq<char>>) -> Seq<nat> {
    q.map_values(|t: Seq<char>| spec_count(terms, t))
}

/// The statistics rows for the documents of `s` that match at least one
/// query term, in index order: id, length in terms, and the per-query-term
/// frequencies.
pub open spec fn spec_matched(s: Seq<DocEntry>, q: Seq<Seq<char>>) -> Seq<
    (Seq<char>, nat, Seq<nat>),
>
    decreases s.len(),
{
    if s.len() == 0 {
        Seq::empty()
    } else {
        let rest = spec_matched(s.drop_last(), q);
        if spec_any_match(s.last().1, q) {
            rest.push((s.last().0, s.last().1.len(), spec_tfs(s.last().1, q)))
        } else {
            rest
        }
    }
}

/// A distinct query term together with the number of documents containing
/// it.
pub struct TermDf {
    pub term: String,
    pub df: usize,
}

/// One matching document: its id, its length in terms, and its term
/// frequency for every entry of `SearchStats::terms`, in the same order.
pub struct DocStats {
    pub doc_id: String,
    pub doc_len: usize,
    pub tfs: Vec<usize>,
}

/// Everything a BM25 scorer needs about a query: corpus size and total
/// length, the distinct query terms with their document frequencies, and
/// the matching documents with their term frequencies.
pub struct SearchStats {
    pub doc_count: usize,
    pub total_len: u128,
    pub terms: Vec<TermDf>,
    pub docs: Vec<DocStats>,
}

pub open spec fn term_df_view(t: TermDf) -> (Seq<char>, nat) {
    (t.term@, t.df as nat)
}

pub open spec fn doc_stats_view(d: DocStats) -> (Seq<char>, nat, Seq<nat>) {
    (d.doc_id@, d.doc_len as nat, d.tfs@.map_values(|x: usize| x as nat))
}

/// Inverted index with exact BM25 statistics.
pub struct BM25Index {
    docs: Vec<(String, Vec<String>)>,
}

impl View for BM25Index {
    type V = Seq<DocEntry>;

    closed spec fn view(&self) -> Seq<DocEntry> {
        self.docs@.map_values(|p: (String, Vec<String>)| (p.0@, views_of(p.1@)))
    }
}

impl BM25Index {
    pub open spec fn wf(&self) -> bool {
        spec_unique_ids(self@)
    }

    pub fn new() -> (r: BM25Index)
        ensures
            r@ =~= Seq::<DocEntry>::empty(),
            r.wf(),
    {
        BM25Index { docs: Vec::new() }
    }

    /// The position of the entry for `doc_id`, if there is one.
    fn find(&self, doc_id: &str) -> (r: Option<usize>)
        ensures
            (match r {
                Some(i) => i < self.docs@.len() && self@[i as int].0 == doc_id@,
                None => !spec_contains_id(self@, doc_id@),
            }),
    {
        let mut i: usize = 0;
        while i < self.docs.len()
            invariant
                i <= self.docs@.len(),
                forall|j: int| 0 <= j < i ==> (#[trigger] self@[j]).0 != doc_id@,
            decreases self.docs@.len() - i,
        {
            if str_eq(self.docs[i].0.as_str(), doc_id) {
                return Some(i);
            }
            i += 1;
        }
        None
    }

    /// Tokenises and stopword-filters `content` and stores the result under
    /// `doc_id`, replacing any earlier entry for that id.  Cannot fail; the
    /// `Result` is kept for interface stability.
    pub fn add_document(&mut self, doc_id: &str, content: &str) -> (r: Result<
        (),
        LuCastraError,
    >)
        requires
            old(self).wf(),
        ensures
            r.is_ok(),
            final(self).wf(),
            final(self)@ == spec_upsert(old(self)@, doc_id@, spec_terms(content@)),
    {
        let tokens = Tokenizer::remove_stopwords(Tokenizer::tokenize(content));
        let ghost terms = spec_terms(content@);
        assert(views_of(tokens@) == terms);
        match self.find(doc_id) {
            Some(i) => {
                let ghost s = self@;
                proof {
                    assert(s[i as int].0 == doc_id@);
                    assert(spec_contains_id(s, doc_id@));
                    let w = spec_id_index(s, doc_id@);
                    assert(0 <= w < s.len() && s[w].0 == doc_id@);
                    if w < i as int {
                        assert(s[w].0 != s[i as int].0);
                    }
                    if (i as int) < w {
                        assert(s[i as int].0 != s[w].0);
                    }
                    assert(w == i as int);
                }
                let id = doc_id.to_owned();
                self.docs[i] = (id, tokens);
                assert(self@ =~= s.update(i as int, (doc_id@, terms)));
                proof {
                    let s2 = self@;
                    assert(forall|x: int| 0 <= x < s2.len() ==> (#[trigger] s2[x]).0 == s[x].0);
                    assert(spec_unique_ids(s2));
                }
            },
            None => {
                let ghost s = self@;
                let id = doc_id.to_owned();
                self.docs.push((id, tokens));
                assert(self@ =~= s.push((doc_id@, terms)));
            },
        }
        Ok(())
    }

    /// Number of indexed documents.
    pub fn doc_count(&self) -> (r: usize)
        ensures
            r == self@.len(),
    {
        self.docs.len()
    }

    /// Drops every document.
    pub fn clear(&mut self)
        ensures
            final(self)@ =~= Seq::<DocEntry>::empty(),
            final(self).wf(),
    {
        self.docs = Vec::new();
    }

    /// How often `t` occurs in `terms`.
    fn count_in(terms: &Vec<String>, t: &str) -> (r: usize)
        ensures
            r == spec_count(views_of(terms@), t@),
    {
        let ghost v = views_of(terms@);
        let mut n: usize = 0;
        let mut i: usize = 0;
        while i < terms.len()
            invariant
                i <= terms@.len(),
                v == views_of(terms@),
                n == spec_count(v.take(i as int), t@),
                n <= i,
            decreases terms@.len() - i,
        {
            assert(v.take(i + 1).drop_last() =~= v.take(i as int));
            assert(v.take(i + 1).last() == v[i as int]);
            if str_eq(terms[i].as_str(), t) {
                n += 1;
            }
            i += 1;
        }
        assert(v.take(v.len() as int) =~= v);
        n
    }

    /// In how many documents `t` occurs.
    fn doc_freq(&self, t: &str) -> (r: usize)
        ensures
            r == spec_df(self@, t@),
    {
        let ghost s = self@;
        let mut n: usize = 0;
        let mut i: usize = 0;
        while i < self.docs.len()
            invariant
                i <= self.docs@.len(),
                s == self@,
                n == spec_df(s.take(i as int), t@),
                n <= i,
            decreases self.docs@.len() - i,
        {
            assert(s.take(i + 1).drop_last() =~= s.take(i as int));
            assert(s.take(i + 1).last() == s[i as int]);
            if Self::count_in(&self.docs[i].1, t) > 0 {
                n += 1;
            }
            i += 1;
        }
        assert(s.take(s.len() as int) =~= s);
        n
    }

    /// The distinct members of `tokens`, in order of first occurrence.
    fn dedup(tokens: &Vec<String>) -> (r: Vec<String>)
        ensures
            views_of(r@) == spec_dedup(views_of(tokens@)),
    {
        let ghost v = views_of(tokens@);
        let mut out: Vec<String> = Vec::new();
        let mut i: usize = 0;
        while i < tokens.len()
            invariant
                i <= tokens@.len(),
                v == views_of(tokens@),
                views_of(out@) == spec_dedup(v.take(i as int)),
            decreases tokens@.len() - i,
        {
            assert(v.take(i + 1).drop_last() =~= v.take(i as int));
            assert(v.take(i + 1).last() == v[i as int]);
            let mut seen = false;
            let mut j: usize = 0;
            while j < out.len()
                invariant
                    j <= out@.len(),
                    i < tokens@.len(),
                    v == views_of(tokens@),
                    seen ==> views_of(out@).contains(v[i as int]),
                    !seen ==> forall|k: int|
                        0 <= k < j ==> views_of(out@)[k] != v[i as int],
                decreases out@.len() - j,
            {
                if str_eq(out[j].as_str(), tokens[i].as_str()) {
                    seen = true;
                    assert(views_of(out@)[j as int] == v[i as int]);
                }
                j += 1;
            }
            if !seen {
                assert(!views_of(out@).contains(v[i as int]));
                let ghost o0 = views_of(out@);
                let tc = tokens[i].clone();
                out.push(tc);
                assert(views_of(out@) =~= o0.push(v[i as int]));
            }
            i += 1;
        }
        assert(v.take(v.len() as int) =~= v);
        out
    }

    /// Gathers the exact integer statistics that BM25 scoring needs for
    /// `query`: the corpus counts, the distinct normalised query terms with
    /// their document frequencies, and every document containing at least
    /// one query term, with its per-term frequencies.
    pub fn search_stats(&self, query: &str) -> (r: SearchStats)
        requires
            self.wf(),
        ensures
            r.doc_count == self@.len(),
            r.total_len == spec_total_len(self@),
            views_of(r.terms@.map_values(|t: TermDf| t.term)) == spec_dedup(spec_terms(query@)),
            r.terms@.map_values(|t: TermDf| term_df_view(t)) == spec_dedup(spec_terms(query@)).map_values(
                |t: Seq<char>| (t, spec_df(self@, t)),
            ),
            r.docs@.map_values(|x: DocStats| doc_stats_view(x)) == spec_matched(
                self@,
                spec_dedup(spec_terms(query@)),
            ),
    {
        let tokens = Tokenizer::remove_stopwords(Tokenizer::tokenize(query));
        let q = Self::dedup(&tokens);
        let ghost qd = spec_dedup(spec_terms(query@));
        assert(views_of(q@) == qd);

        let mut terms: Vec<TermDf> = Vec::new();
        let mut i: usize = 0;
        while i < q.len()
            invariant
                i <= q@.len(),
                views_of(q@) == qd,
                self.wf(),
                terms@.map_values(|t: TermDf| term_df_view(t)) == qd.take(i as int).map_values(
                    |t: Seq<char>| (t, spec_df(self@, t)),
                ),
                views_of(terms@.map_values(|t: TermDf| t.term)) == qd.take(i as int),
            decreases q@.len() - i,
        {
            let ghost t0 = terms@;
            let df = self.doc_freq(q[i].as_str());
            let tc = q[i].clone();
            terms.push(TermDf { term: tc, df });
            assert(terms@.map_values(|t: TermDf| term_df_view(t)) =~= t0.map_values(|t: TermDf| term_df_view(t)).push(
                (qd[i as int], spec_df(self@, qd[i as int])),
            ));
            assert(qd.take(i + 1).map_values(|t: Seq<char>| (t, spec_df(self@, t))) =~= qd.take(
                i as int,
            ).map_values(|t: Seq<char>| (t, spec_df(self@, t))).push(
                (qd[i as int], spec_df(self@, qd[i as int])),
            ));
            assert(views_of(terms@.map_values(|t: TermDf| t.term)) =~= qd.take(i + 1));
            i += 1;
        }
        assert(qd.take(qd.len() as int) =~= qd);

        let mut docs: Vec<DocStats> = Vec::new();
        let mut total: u128 = 0;
        let mut d: usize = 0;
        while d < self.docs.len()
            invariant
                d <= self.docs@.len(),
                views_of(q@) == qd,
                total == spec_total_len(self@.take(d as int)),
                total <= 0xffff_ffff_ffff_ffff * (d as int),
                docs@.map_values(|x: DocStats| doc_stats_view(x)) == spec_matched(self@.take(d as int), qd),
            decreases self.docs@.len() - d,
        {
            let ghost s = self@;
            assert(s.take(d + 1).drop_last() =~= s.take(d as int));
            assert(s.take(d + 1).last() == s[d as int]);
            let entry_terms = &self.docs[d].1;
            let ghost tv = views_of(entry_terms@);
            assert(tv == s[d as int].1);

            let mut tfs: Vec<usize> = Vec::new();
            let mut matched = false;
            let mut j: usize = 0;
            while j < q.len()
                invariant
                    j <= q@.len(),
                    views_of(q@) == qd,
                    tv == views_of(entry_terms@),
                    tfs@.map_values(|x: usize| x as nat) == spec_tfs(tv, qd.take(j as int)),
                    matched == spec_any_match(tv, qd.take(j as int)),
                decreases q@.len() - j,
            {
                let ghost tfs0 = tfs@;
                let tf = Self::count_in(entry_terms, q[j].as_str());
                tfs.push(tf);
                assert(tfs@.map_values(|x: usize| x as nat) =~= tfs0.map_values(
                    |x: usize| x as nat,
                ).push(spec_count(tv, qd[j as int])));
                assert(spec_tfs(tv, qd.take(j + 1)) =~= spec_tfs(tv, qd.take(j as int)).push(
                    spec_count(tv, qd[j as int]),
                ));
                if tf > 0 {
                    matched = true;
                }
                proof {
                    if spec_any_match(tv, qd.take(j + 1)) && !spec_any_match(
                        tv,
                        qd.take(j as int),
                    ) {
                        let w = choose|w: int|
                            0 <= w < qd.take(j + 1).len() && spec_count(
                                tv,
                                #[trigger] qd.take(j + 1)[w],
                            ) > 0;
                        assert(w == j);
                    }
                    if spec_count(tv, qd[j as int]) > 0 {
                        assert(qd.take(j + 1)[j as int] == qd[j as int]);
                        assert(spec_any_match(tv, qd.take(j + 1)));
                    }
                    if spec_any_match(tv, qd.take(j as int)) {
                        let w = choose|w: int|
                            0 <= w < qd.take(j as int).len() && spec_count(
                                tv,
                                #[trigger] qd.take(j as int)[w],
                            ) > 0;
                        assert(qd.take(j + 1)[w] == qd[w]);
                        assert(spec_any_match(tv, qd.take(j + 1)));
                    }
                }
                j += 1;
            }
            assert(qd.take(qd.len() as int) =~= qd);

            let doc_len = entry_terms.len();
            proof {
                let m: int = 0xffff_ffff_ffff_ffff;
                assert(doc_len as int <= m);
                assert(m * (d as int) + m == m * ((d as int) + 1)) by (nonlinear_arith);
                assert(m * ((d as int) + 1) <= m * 0x1_0000_0000_0000_0000) by (nonlinear_arith)
                    requires
                        m == 0xffff_ffff_ffff_ffff,
                        0 <= (d as int) + 1 <= 0x1_0000_0000_0000_0000,
                ;
            }
            total = total + doc_len as u128;

            if matched {
                let ghost docs0 = docs@;
                let idc = self.docs[d].0.clone();
                docs.push(DocStats { doc_id: idc, doc_len, tfs });
                assert(docs@.map_values(|x: DocStats| doc_stats_view(x)) =~= docs0.map_values(|x: DocStats| doc_stats_view(x)).push((s[d as int].0, s[d as int].1.len(), spec_tfs(s[d as int].1, qd))));
            }
            d += 1;
        }
        assert(self@.take(self@.len() as int) =~= self@);

        SearchStats { doc_count: self.docs.len(), total_len: total, terms, docs }
    }
}

/// Number of entries of `s` that carry the id `id`.
pub open spec fn spec_id_count(s: Seq<DocEntry>, id: Seq<char>) -> nat
    decreases s.len(),
{
    if s.len() == 0 {
        0
    } else {
        spec_id_count(s.drop_last(), id) + if s.last().0 == id {
            1nat
        } else {
            0nat
        }
    }
}

/// With pairwise-distinct ids, an id occurs exactly once or not at all.
pub proof fn lemma_id_count_unique(s: Seq<DocEntry>, id: Seq<char>)
    requires
        spec_unique_ids(s),
    ensures
        spec_id_count(s, id) == if spec_contains_id(s, id) {
            1nat
        } else {
            0nat
        },
    decreases s.len(),
{
    if s.len() > 0 {
        let d = s.drop_last();
        assert forall|i: int, j: int| 0 <= i < j < d.len() implies (#[trigger] d[i]).0 != (
        #[trigger] d[j]).0 by {
            assert(s[i].0 != s[j].0);
        }
        lemma_id_count_unique(d, id);
        let last: int = s.len() - 1;
        if s[last].0 == id {
            if spec_contains_id(d, id) {
                let j = choose|j: int| 0 <= j < d.len() && (#[trigger] d[j]).0 == id;
                assert(s[j].0 != s[last].0);
                assert(false);
            }
            assert(spec_contains_id(s, id));
        } else {
            if spec_contains_id(s, id) {
                let j = choose|j: int| 0 <= j < s.len() && (#[trigger] s[j]).0 == id;
                assert(j < last);
                assert(d[j].0 == id);
                assert(spec_contains_id(d, id));
            }
            if spec_contains_id(d, id) {
                let j = choose|j: int| 0 <= j < d.len() && (#[trigger] d[j]).0 == id;
                assert(s[j].0 == id);
                assert(spec_contains_id(s, id));
            }
        }
    }
}

/// With pairwise-distinct ids the entry for an id is at one position only.
proof fn lemma_id_index_unique(s: Seq<DocEntry>, id: Seq<char>, i: int)
    requires
        spec_unique_ids(s),
        0 <= i < s.len(),
        s[i].0 == id,
    ensures
        spec_contains_id(s, id),
        spec_id_index(s, id) == i,
{
    assert(spec_contains_id(s, id));
    let w = spec_id_index(s, id);
    assert(0 <= w < s.len() && s[w].0 == id);
    if w < i {
        assert(s[w].0 != s[i].0);
    }
    if i < w {
        assert(s[i].0 != s[w].0);
    }
}

/// Adding or replacing a document keeps ids pairwise distinct, and leaves
/// exactly one entry for the touched id, carrying the new terms.
pub proof fn lemma_upsert_wf(s: Seq<DocEntry>, id: Seq<char>, terms: Seq<Seq<char>>)
    requires
        spec_unique_ids(s),
    ensures
        spec_unique_ids(spec_upsert(s, id, terms)),
        spec_contains_id(spec_upsert(s, id, terms), id),
        spec_id_count(spec_upsert(s, id, terms), id) == 1,
        spec_upsert(s, id, terms)[spec_id_index(spec_upsert(s, id, terms), id)].1 == terms,
{
    let s2 = spec_upsert(s, id, terms);
    if spec_contains_id(s, id) {
        let i = spec_id_index(s, id);
        assert(0 <= i < s.len() && s[i].0 == id);
        assert(forall|x: int| 0 <= x < s2.len() ==> (#[trigger] s2[x]).0 == s[x].0);
        assert(spec_unique_ids(s2));
        lemma_id_index_unique(s2, id, i);
    } else {
        let n: int = s.len() as int;
        assert(s2[n].0 == id);
        assert forall|a: int, b: int| 0 <= a < b < s2.len() implies (#[trigger] s2[a]).0 != (
        #[trigger] s2[b]).0 by {
            if b < n {
                assert(s[a].0 != s[b].0);
            } else {
                assert(s2[a].0 == s[a].0);
                assert(!spec_contains_id(s, id));
                if s[a].0 == id {
                    assert(spec_contains_id(s, id));
                }
            }
        }
        lemma_id_index_unique(s2, id, n);
    }
    lemma_id_count_unique(s2, id);
}

/// Re-indexing the same id is idempotent in its effect on the index: the
/// second add wins outright, so exactly one entry remains for the id and
/// it reflects only the latest content, while every other document is
/// untouched.
pub proof fn lemma_reindex_latest_wins(
    s: Seq<DocEntry>,
    id: Seq<char>,
    t1: Seq<Seq<char>>,
    t2: Seq<Seq<char>>,
)
    requires
        spec_unique_ids(s),
    ensures
        spec_upsert(spec_upsert(s, id, t1), id, t2) == spec_upsert(s, id, t2),
        spec_id_count(spec_upsert(spec_upsert(s, id, t1), id, t2), id) == 1,
{
    let s1 = spec_upsert(s, id, t1);
    lemma_upsert_wf(s, id, t1);
    lemma_upsert_wf(s1, id, t2);
    if spec_contains_id(s, id) {
        let i = spec_id_index(s, id);
        assert(0 <= i < s.len() && s[i].0 == id);
        assert(s1 == s.update(i, (id, t1)));
        lemma_id_index_unique(s1, id, i);
        assert(spec_upsert(s1, id, t2) == s1.update(i, (id, t2)));
        assert(s1.update(i, (id, t2)) =~= s.update(i, (id, t2)));
    } else {
        let n: int = s.len() as int;
        assert(s1 == s.push((id, t1)));
        assert(s1[n].0 == id);
        lemma_id_index_unique(s1, id, n);
        assert(spec_upsert(s1, id, t2) == s1.update(n, (id, t2)));
        assert(s1.update(n, (id, t2)) =~= s.push((id, t2)));
    }
    lemma_upsert_wf(s, id, t2);
    lemma_id_count_unique(spec_upsert(s, id, t2), id);
}

/// A term occurs in no more documents than the corpus holds.  This is the
/// integer heart of BM25 non-negativity under the "+1" IDF variant: with
/// the document frequency n at most the corpus size N, the IDF argument
/// (N - n + 0.5) / (n + 0.5) + 1 is at least 1, so its logarithm — and
/// with it every per-term score, a product of non-negative factors — is
/// non-negative.
pub proof fn lemma_df_within_corpus(s: Seq<DocEntry>, t: Seq<char>)
    ensures
        spec_df(s, t) <= s.len(),
    decreases s.len(),
{
    if s.len() > 0 {
        lemma_df_within_corpus(s.drop_last(), t);
    }
}

/// A term's frequency within a document never exceeds the document's
/// length, so the BM25 term-frequency fraction is well behaved.
pub proof fn lemma_tf_within_doc(terms: Seq<Seq<char>>, t: Seq<char>)
    ensures
        spec_count(terms, t) <= terms.len(),
    decreases terms.len(),
{
    if terms.len() > 0 {
        lemma_tf_within_doc(terms.drop_last(), t);
    }
}

} // verus!
