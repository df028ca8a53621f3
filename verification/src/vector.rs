//! Flat vector-similarity index.
//!
//! Documents carry dense embeddings; all embeddings that live in the index
//! at once share one dimensionality, fixed by the first successful insert
//! and enforced on every later insert and query.  Embedding components and
//! similarity scores are IEEE 754 single-precision bit patterns (`u32`);
//! computing cosine similarities is floating point and happens outside the
//! verified core, which validates dimensions, stores documents, and ranks
//! given similarity scores.

use vstd::prelude::*;
use vstd::multiset::Multiset;
use vstd::seq_lib::group_seq_properties;
use crate::ranking::spec_score_key;
use crate::spec_min;

verus! {

#[derive(Debug)]
pub enum VectorError {
    IndexError(String),
    DimensionMismatch { expected: usize, got: usize },
    EmptyEmbeddings,
}

/// A stored document: assigned id, path, embedding bit patterns, snippet.
pub struct VectorDocument {
    pub id: usize,
    pub path: String,
    pub embedding: Vec<u32>,
    pub snippet: String,
}

/// One search hit: the document's path and snippet with its similarity
/// score (an IEEE 754 single, as bits).
pub struct VectorSearchResult {
    pub path: String,
    pub score: u32,
    pub snippet: String,
}

/// Descending by score, pairwise.
pub open spec fn spec_results_sorted(s: Seq<VectorSearchResult>) -> bool {
    forall|a: int, b: int|
        0 <= a < b < s.len() ==> spec_score_key((#[trigger] s[b]).score) <= spec_score_key(
            (#[trigger] s[a]).score,
        )
}

/// Exhaustive (linear-scan) vector index over cosine similarity.
pub struct VectorIndex {
    documents: Vec<VectorDocument>,
    dimensions: Option<usize>,
    next_id: usize,
}

impl VectorIndex {
    pub closed spec fn spec_docs(&self) -> Seq<VectorDocument> {
        self.documents@
    }

    pub closed spec fn spec_dims(&self) -> Option<usize> {
        self.dimensions
    }

    pub closed spec fn spec_next_id(&self) -> usize {
        self.next_id
    }

    /// All live embeddings share the fixed dimensionality, ids are the
    /// positions, and the id counter equals the document count.
    pub open spec fn wf(&self) -> bool {
        &&& self.spec_next_id() == self.spec_docs().len()
        &&& (forall|i: int|
            0 <= i < self.spec_docs().len() ==> (#[trigger] self.spec_docs()[i]).id == i)
        &&& (self.spec_docs().len() > 0 <==> self.spec_dims() is Some)
        &&& (forall|i: int|
            0 <= i < self.spec_docs().len() ==> (#[trigger] self.spec_docs()[i]).embedding@.len()
                == self.spec_dims()->0)
        &&& (self.spec_dims() is Some ==> self.spec_dims()->0 > 0)
    }

    pub fn new() -> (r: VectorIndex)
        ensures
            r.wf(),
            r.spec_docs() =~= Seq::<VectorDocument>::empty(),
            r.spec_dims() is None,
    {
        VectorIndex { documents: Vec::new(), dimensions: None, next_id: 0 }
    }

    /// Appends a document under a fresh sequential id.  Rejects empty
    /// embeddings, and embeddings whose length differs from the
    /// dimensionality fixed by the first insert; a rejected insert leaves
    /// the index unchanged.
    pub fn add_document(&mut self, path: String, embedding: Vec<u32>, snippet: String) -> (r:
        Result<usize, VectorError>)
        requires
            old(self).wf(),
        ensures
            final(self).wf(),
            embedding@.len() == 0 ==> r == Err::<usize, VectorError>(VectorError::EmptyEmbeddings)
                && *final(self) == *old(self),
            (embedding@.len() > 0 && old(self).spec_dims() is Some && embedding@.len() != old(
                self,
            ).spec_dims()->0) ==> ({
                &&& r == Err::<usize, VectorError>(
                    VectorError::DimensionMismatch {
                        expected: old(self).spec_dims()->0,
                        got: embedding.len(),
                    },
                )
                &&& *final(self) == *old(self)
            }),
            (embedding@.len() > 0 && (old(self).spec_dims() is None || old(self).spec_dims()->0
                == embedding@.len())) ==> {
                &&& r == Ok::<usize, VectorError>(old(self).spec_docs().len() as usize)
                &&& final(self).spec_docs() == old(self).spec_docs().push(
                    VectorDocument {
                        id: old(self).spec_docs().len() as usize,
                        path: path,
                        embedding: embedding,
                        snippet: snippet,
                    },
                )
                &&& final(self).spec_dims() == Some(embedding@.len() as usize)
            },
    {
        if embedding.len() == 0 {
            return Err(VectorError::EmptyEmbeddings);
        }
        match self.dimensions {
            Some(d) => {
                if embedding.len() != d {
                    return Err(VectorError::DimensionMismatch {
                        expected: d,
                        got: embedding.len(),
                    });
                }
            },
            None => {
                self.dimensions = Some(embedding.len());
            },
        }
        let id = self.next_id;
        self.documents.push(VectorDocument { id, path, embedding, snippet });
        self.next_id = self.documents.len();
        Ok(id)
    }

    /// Checks a query embedding exactly as an insert would be checked.
    pub fn check_query(&self, query_embedding: &Vec<u32>) -> (r: Result<(), VectorError>)
        ensures
            (match r {
                Ok(()) => query_embedding@.len() > 0 && (self.spec_dims() is Some
                    ==> query_embedding@.len() == self.spec_dims()->0),
                Err(e) => (e == VectorError::EmptyEmbeddings && query_embedding@.len() == 0) || (
                self.spec_dims() is Some && query_embedding@.len() > 0 && query_embedding@.len()
                    != self.spec_dims()->0 && e == VectorError::DimensionMismatch {
                    expected: self.spec_dims()->0,
                    got: query_embedding.len(),
                }),
            }),
    {
        if query_embedding.len() == 0 {
            return Err(VectorError::EmptyEmbeddings);
        }
        if let Some(d) = self.dimensions {
            if query_embedding.len() != d {
                return Err(VectorError::DimensionMismatch {
                    expected: d,
                    got: query_embedding.len(),
                });
            }
        }
        Ok(())
    }

    /// The stored documents, in insertion order.
    pub fn documents(&self) -> (r: &Vec<VectorDocument>)
        ensures
            r@ == self.spec_docs(),
    {
        &self.documents
    }

    /// Number of indexed documents.
    pub fn len(&self) -> (r: usize)
        ensures
            r == self.spec_docs().len(),
    {
        self.documents.len()
    }

    pub fn is_empty(&self) -> (r: bool)
        ensures
            r == (self.spec_docs().len() == 0),
    {
        self.documents.len() == 0
    }

    /// The fixed dimensionality, or `None` before the first insert.
    pub fn dimensions(&self) -> (r: Option<usize>)
        ensures
            r == self.spec_dims(),
    {
        self.dimensions
    }

    /// Drops all documents, forgets the dimensionality and restarts the id
    /// counter.
    pub fn clear(&mut self)
        ensures
            final(self).wf(),
            final(self).spec_docs() =~= Seq::<VectorDocument>::empty(),
            final(self).spec_dims() is None,
            final(self).spec_next_id() == 0,
    {
        self.documents = Vec::new();
        self.dimensions = None;
        self.next_id = 0;
    }

    /// Ranks the stored documents by the given per-document similarity
    /// scores (bit patterns, aligned with `documents()`), descending, and
    /// returns the best `k`: a prefix of some complete descending ordering
    /// of all rows.  Fails only if `sims` is not aligned with the stored
    /// documents.
    pub fn results_by_score(&self, sims: &Vec<u32>, k: usize) -> (r: Result<
        Vec<VectorSearchResult>,
        VectorError,
    >)
        ensures
            (sims@.len() == self.spec_docs().len()) <==> r is Ok,
            (match r {
                Ok(rows) => {
                    let all = Seq::new(
                        self.spec_docs().len(),
                        |i: int|
                            VectorSearchResult {
                                path: self.spec_docs()[i].path,
                                score: sims@[i],
                                snippet: self.spec_docs()[i].snippet,
                            },
                    );
                    &&& rows@.len() == spec_min(k as int, all.len() as int)
                    &&& spec_results_sorted(rows@)
                    &&& exists|full: Seq<VectorSearchResult>|
                        #![auto]
                        full.to_multiset() == all.to_multiset() && spec_results_sorted(full)
                            && rows@ == full.take(spec_min(k as int, all.len() as int))
                },
                Err(e) => e is IndexError,
            }),
    {
        broadcast use group_seq_properties;
        broadcast use vstd::seq_lib::group_to_multiset_ensures;
        broadcast use vstd::multiset::group_multiset_axioms;

        if sims.len() != self.documents.len() {
            return Err(
                VectorError::IndexError("similarity scores not aligned with documents".to_owned()),
            );
        }
        let ghost all = Seq::new(
            self.spec_docs().len(),
            |i: int|
                VectorSearchResult {
                    path: self.spec_docs()[i].path,
                    score: sims@[i],
                    snippet: self.spec_docs()[i].snippet,
                },
        );
        let mut rows: Vec<VectorSearchResult> = Vec::new();
        let mut i: usize = 0;
        while i < self.documents.len()
            invariant
                i <= self.documents@.len(),
                sims@.len() == self.documents@.len(),
                all == Seq::new(
                    self.spec_docs().len(),
                    |j: int|
                        VectorSearchResult {
                            path: self.spec_docs()[j].path,
                            score: sims@[j],
                            snippet: self.spec_docs()[j].snippet,
                        },
                ),
                rows@ == all.take(i as int),
            decreases self.documents@.len() - i,
        {
            let p = self.documents[i].path.clone();
            let sn = self.documents[i].snippet.clone();
            rows.push(VectorSearchResult { path: p, score: sims[i], snippet: sn });
            assert(rows@ =~= all.take(i + 1));
            i += 1;
        }
        assert(all.take(all.len() as int) =~= all);

        let mut sorted: Vec<VectorSearchResult> = Vec::new();
        let mut rest = rows;
        let ghost orig = rest@;
        while rest.len() > 0
            invariant
                sorted@.len() + rest@.len() == orig.len(),
                spec_results_sorted(sorted@),
                sorted@.to_multiset().add(rest@.to_multiset()) == orig.to_multiset(),
            decreases rest@.len(),
        {
            let ghost rest0 = rest@;
            let item = rest.pop().unwrap();
            proof {
                assert(rest0.drop_last().push(rest0.last()) =~= rest0);
                vstd::seq_lib::to_multiset_build(rest0.drop_last(), rest0.last());
                assert(rest0.to_multiset() == rest0.drop_last().to_multiset().insert(
                    rest0.last(),
                ));
            }
            let key = crate::ranking::score_key(item.score);
            let mut p: usize = 0;
            while p < sorted.len() && crate::ranking::score_key(sorted[p].score) >= key
                invariant
                    p <= sorted@.len(),
                    key == spec_score_key(item.score),
                    forall|a: int|
                        0 <= a < p ==> spec_score_key((#[trigger] sorted@[a]).score)
                            >= spec_score_key(item.score),
                decreases sorted@.len() - p,
            {
                p += 1;
            }
            assert(p == sorted@.len() || spec_score_key(sorted@[p as int].score)
                < spec_score_key(item.score));
            let ghost sorted0 = sorted@;
            sorted.insert(p, item);
            proof {
                let s2 = sorted@;
                assert(s2 == sorted0.insert(p as int, item));
                sorted0.insert_ensures(p as int, item);
                assert forall|a: int, b: int| 0 <= a < b < s2.len() implies spec_score_key(
                    (#[trigger] s2[b]).score,
                ) <= spec_score_key((#[trigger] s2[a]).score) by {
                    if b < p {
                        assert(s2[a] == sorted0[a] && s2[b] == sorted0[b]);
                    } else if b == p {
                        assert(s2[a] == sorted0[a]);
                    } else if a == p {
                        assert(s2[b] == sorted0[b - 1]);
                        assert(spec_score_key(sorted0[p as int].score) < spec_score_key(
                            item.score,
                        ));
                        if b - 1 > p {
                            assert(spec_score_key(sorted0[b - 1].score) <= spec_score_key(
                                sorted0[p as int].score,
                            ));
                        }
                    } else if a < p {
                        assert(s2[a] == sorted0[a] && s2[b] == sorted0[b - 1]);
                    } else {
                        assert(s2[a] == sorted0[a - 1] && s2[b] == sorted0[b - 1]);
                    }
                }
                vstd::seq_lib::to_multiset_insert(sorted0, p as int, item);
                assert(s2.to_multiset() == sorted0.to_multiset().insert(item));
                assert(sorted@.to_multiset().add(rest@.to_multiset()) =~= orig.to_multiset());
            }
        }
        let ghost full = sorted@;
        assert(rest@.to_multiset() =~= Multiset::<VectorSearchResult>::empty());
        assert(full.to_multiset() =~= orig.to_multiset());

        let keep = if k < sorted.len() {
            k
        } else {
            sorted.len()
        };
        sorted.truncate(keep);
        assert(sorted@ == full.subrange(0, keep as int));
        assert(full.take(keep as int) == full.subrange(0, keep as int));
        assert(full.to_multiset() == all.to_multiset() && spec_results_sorted(full) && sorted@
            == full.take(spec_min(k as int, all.len() as int)));
        Ok(sorted)
    }
}

/// Any two embeddings that live in a well-formed index at once have the
/// same length: the dimension invariant.
pub proof fn lemma_dimension_invariant(idx: &VectorIndex, i: int, j: int)
    requires
        idx.wf(),
        0 <= i < idx.spec_docs().len(),
        0 <= j < idx.spec_docs().len(),
    ensures
        idx.spec_docs()[i].embedding@.len() == idx.spec_docs()[j].embedding@.len(),
{
}

} // verus!
