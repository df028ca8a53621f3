//! Lexical search over raw documents: BM25 ranking plus snippet
//! extraction from the stored originals.

use vstd::prelude::*;
use crate::bm25::{BM25Index, SearchStats, spec_upsert};
use crate::core_types::LuCastraError;
use crate::strutil::{str_eq, take_chars};
use crate::tokenizer::spec_terms;

verus! {

/// One lexical search hit: the path, its BM25 score (an IEEE 754 single,
/// as bits), and the first 200 characters of the indexed content.
pub struct SearchResult {
    pub path: String,
    pub score: u32,
    pub snippet: String,
}

/// A stored raw document: path and full content.
pub type ContentEntry = (Seq<char>, Seq<char>);

pub open spec fn spec_contains_path(s: Seq<ContentEntry>, p: Seq<char>) -> bool {
    exists|i: int| 0 <= i < s.len() && (#[trigger] s[i]).0 == p
}

pub open spec fn spec_path_index(s: Seq<ContentEntry>, p: Seq<char>) -> int {
    choose|i: int| 0 <= i < s.len() && (#[trigger] s[i]).0 == p
}

pub open spec fn spec_unique_paths(s: Seq<ContentEntry>) -> bool {
    forall|i: int, j: int| 0 <= i < j < s.len() ==> (#[trigger] s[i]).0 != (#[trigger] s[j]).0
}

/// Store or replace the content held for a path.
pub open spec fn spec_store(s: Seq<ContentEntry>, p: Seq<char>, c: Seq<char>) -> Seq<
    ContentEntry,
> {
    if spec_contains_path(s, p) {
        s.update(spec_path_index(s, p), (p, c))
    } else {
        s.push((p, c))
    }
}

/// The content stored for a path, if any.
pub open spec fn spec_content_of(s: Seq<ContentEntry>, p: Seq<char>) -> Option<Seq<char>> {
    if spec_contains_path(s, p) {
        Some(s[spec_path_index(s, p)].1)
    } else {
        None
    }
}

/// The snippet served for a path: the first 200 characters of its stored
/// content, or a literal ellipsis if nothing is stored.
pub open spec fn spec_snippet_of(s: Seq<ContentEntry>, p: Seq<char>) -> Seq<char> {
    match spec_content_of(s, p) {
        Some(c) => if c.len() <= 200 {
            c
        } else {
            c.take(200)
        },
        None => "..."@,
    }
}

/// BM25-ranked document retrieval with snippets.
pub struct SearchService {
    index: BM25Index,
    documents: Vec<(String, String)>,
}

impl SearchService {
    pub closed spec fn spec_index(&self) -> Seq<crate::bm25::DocEntry> {
        self.index@
    }

    pub closed spec fn spec_contents(&self) -> Seq<ContentEntry> {
        self.documents@.map_values(|p: (String, String)| (p.0@, p.1@))
    }

    pub open spec fn wf(&self) -> bool {
        &&& crate::bm25::spec_unique_ids(self.spec_index())
        &&& spec_unique_paths(self.spec_contents())
    }

    pub fn new() -> (r: SearchService)
        ensures
            r.wf(),
            r.spec_index() =~= Seq::<crate::bm25::DocEntry>::empty(),
            r.spec_contents() =~= Seq::<ContentEntry>::empty(),
    {
        let r = SearchService { index: BM25Index::new(), documents: Vec::new() };
        proof {
            assert(r.spec_contents() =~= Seq::<ContentEntry>::empty());
        }
        r
    }

    /// Indexes `content` under `path` and keeps the raw content for
    /// snippets; re-indexing a path replaces both.
    pub fn index_document(&mut self, path: &str, content: &str) -> (r: Result<
        (),
        LuCastraError,
    >)
        requires
            old(self).wf(),
        ensures
            r.is_ok(),
            final(self).wf(),
            final(self).spec_index() == spec_upsert(
                old(self).spec_index(),
                path@,
                spec_terms(content@),
            ),
            final(self).spec_contents() == spec_store(
                old(self).spec_contents(),
                path@,
                content@,
            ),
    {
        let x = self.index.add_document(path, content);
        proof {
            assert(x.is_ok());
        }
        let ghost s = self.spec_contents();
        let found = self.find_path(path);
        match found {
            Some(i2) => {
                proof {
                    assert(s[i2 as int].0 == path@);
                    assert(spec_contains_path(s, path@));
                    let w = spec_path_index(s, path@);
                    assert(0 <= w < s.len() && s[w].0 == path@);
                    if w < i2 as int {
                        assert(s[w].0 != s[i2 as int].0);
                    }
                    if (i2 as int) < w {
                        assert(s[i2 as int].0 != s[w].0);
                    }
                    assert(w == i2 as int);
                }
                let pid = path.to_owned();
                let cid = content.to_owned();
                self.documents[i2] = (pid, cid);
                proof {
                    assert(self.spec_contents() =~= s.update(i2 as int, (path@, content@)));
                    let s2 = self.spec_contents();
                    assert(forall|x2: int|
                        0 <= x2 < s2.len() ==> (#[trigger] s2[x2]).0 == s[x2].0);
                    assert(spec_unique_paths(s2));
                }
            },
            None => {
                let pid = path.to_owned();
                let cid = content.to_owned();
                self.documents.push((pid, cid));
                proof {
                    assert(self.spec_contents() =~= s.push((path@, content@)));
                }
            },
        }
        Ok(())
    }

    /// The position of the entry for `path`, if there is one.
    fn find_path(&self, path: &str) -> (r: Option<usize>)
        ensures
            (match r {
                Some(i) => i < self.documents@.len() && self.spec_contents()[i as int].0
                    == path@,
                None => !spec_contains_path(self.spec_contents(), path@),
            }),
    {
        let ghost s = self.spec_contents();
        let mut i: usize = 0;
        while i < self.documents.len()
            invariant
                i <= self.documents@.len(),
                s == self.spec_contents(),
                forall|j: int| 0 <= j < i ==> (#[trigger] s[j]).0 != path@,
            decreases self.documents@.len() - i,
        {
            if str_eq(self.documents[i].0.as_str(), path) {
                return Some(i);
            }
            i += 1;
        }
        None
    }

    /// The exact BM25 statistics for `query`; see
    /// `BM25Index::search_stats`.
    pub fn search_stats(&self, query: &str) -> (r: SearchStats)
        requires
            self.wf(),
        ensures
            r.doc_count == self.spec_index().len(),
            r.total_len == crate::bm25::spec_total_len(self.spec_index()),
            r.terms@.map_values(|t: crate::bm25::TermDf| crate::bm25::term_df_view(t))
                == crate::bm25::spec_dedup(spec_terms(query@)).map_values(
                |t: Seq<char>| (t, crate::bm25::spec_df(self.spec_index(), t)),
            ),
            r.docs@.map_values(|d: crate::bm25::DocStats| crate::bm25::doc_stats_view(d))
                == crate::bm25::spec_matched(
                self.spec_index(),
                crate::bm25::spec_dedup(spec_terms(query@)),
            ),
    {
        self.index.search_stats(query)
    }

    /// Attaches snippets to ranked `(path, score)` pairs: the first 200
    /// characters of the stored content, or `"..."` if the path has no
    /// stored content.
    pub fn results_with_snippets(&self, ranked: &Vec<(String, u32)>) -> (r: Vec<SearchResult>)
        requires
            self.wf(),
        ensures
            r@.len() == ranked@.len(),
            forall|i: int|
                0 <= i < r@.len() ==> {
                    &&& (#[trigger] r@[i]).path@ == ranked@[i].0@
                    &&& r@[i].score == ranked@[i].1
                    &&& r@[i].snippet@ == spec_snippet_of(self.spec_contents(), ranked@[i].0@)
                },
    {
        let mut out: Vec<SearchResult> = Vec::new();
        let mut i: usize = 0;
        while i < ranked.len()
            invariant
                i <= ranked@.len(),
                self.wf(),
                out@.len() == i,
                forall|j: int|
                    0 <= j < i ==> {
                        &&& (#[trigger] out@[j]).path@ == ranked@[j].0@
                        &&& out@[j].score == ranked@[j].1
                        &&& out@[j].snippet@ == spec_snippet_of(
                            self.spec_contents(),
                            ranked@[j].0@,
                        )
                    },
            decreases ranked@.len() - i,
        {
            let path = ranked[i].0.clone();
            let snippet = self.snippet_for(path.as_str());
            out.push(SearchResult { path, score: ranked[i].1, snippet });
            i += 1;
        }
        out
    }

    /// The snippet for one path.
    fn snippet_for(&self, path: &str) -> (r: String)
        requires
            self.wf(),
        ensures
            r@ == spec_snippet_of(self.spec_contents(), path@),
    {
        let ghost s = self.spec_contents();
        let mut i: usize = 0;
        while i < self.documents.len()
            invariant
                i <= self.documents@.len(),
                s == self.spec_contents(),
                self.wf(),
                forall|j: int| 0 <= j < i ==> (#[trigger] s[j]).0 != path@,
            decreases self.documents@.len() - i,
        {
            if str_eq(self.documents[i].0.as_str(), path) {
                proof {
                    assert(s[i as int].0 == path@);
                    assert(spec_contains_path(s, path@));
                    let w = spec_path_index(s, path@);
                    assert(0 <= w < s.len() && s[w].0 == path@);
                    if w < i as int {
                        assert(s[w].0 != s[i as int].0);
                    }
                    if (i as int) < w {
                        assert(s[i as int].0 != s[w].0);
                    }
                    assert(w == i as int);
                }
                return take_chars(self.documents[i].1.as_str(), 200);
            }
            i += 1;
        }
        assert(!spec_contains_path(s, path@));
        "...".to_owned()
    }

    /// Number of stored documents.
    pub fn doc_count(&self) -> (r: usize)
        ensures
            r == self.spec_contents().len(),
    {
        self.documents.len()
    }

    /// Drops the index and all stored content.
    pub fn clear(&mut self)
        ensures
            final(self).wf(),
            final(self).spec_index() =~= Seq::<crate::bm25::DocEntry>::empty(),
            final(self).spec_contents() =~= Seq::<ContentEntry>::empty(),
    {
        self.index.clear();
        self.documents = Vec::new();
        proof {
            assert(self.spec_contents() =~= Seq::<ContentEntry>::empty());
        }
    }
}

} // verus!
