use lucastra::bm25::SearchStats;
use lucastra::ranking::rank_top_k;
use lucastra::search_service::SearchService;
use lucastra::tokenizer::Tokenizer;

/// The BM25 formula applied to the exact integer statistics the library
/// reports: ln((N - n + 0.5) / (n + 0.5) + 1) per term, saturating
/// term-frequency weighting with k1 = 1.5 and b = 0.75.
fn bm25_scores(stats: &SearchStats) -> Vec<(String, u32)> {
    const K1: f32 = 1.5;
    const B: f32 = 0.75;
    let n = stats.doc_count as f32;
    let avg = stats.total_len as f32 / n;
    let mut scored = Vec::new();
    for doc in &stats.docs {
        let mut score = 0.0f32;
        for (j, td) in stats.terms.iter().enumerate() {
            if td.df == 0 {
                continue;
            }
            let tf = doc.tfs[j] as f32;
            let idf = ((n - td.df as f32 + 0.5) / (td.df as f32 + 0.5) + 1.0).ln();
            let numerator = tf * (K1 + 1.0);
            let denominator = tf + K1 * (1.0 - B + B * (doc.doc_len as f32 / avg));
            score += idf * (numerator / denominator);
        }
        scored.push((doc.doc_id.clone(), score.to_bits()));
    }
    scored
}

#[test]
fn test_tokenize_basic() {
    let toks = Tokenizer::tokenize("Hello, World! a b42c");
    assert_eq!(toks, vec!["hello".to_string(), "world".to_string(), "b42c".to_string()]);
}

#[test]
fn test_is_stopword() {
    assert!(Tokenizer::is_stopword("the"));
    assert!(Tokenizer::is_stopword("from"));
    assert!(!Tokenizer::is_stopword("fox"));
    // The stopword set is closed: "an" is not in it.
    assert!(!Tokenizer::is_stopword("an"));
}

#[test]
fn test_token_filter_counts_utf8_bytes() {
    // "\u{e4}\u{f6}" is two characters but four UTF-8 bytes, so it
    // survives the more-than-two-bytes filter; "xy" is two bytes and is
    // dropped.
    let toks = Tokenizer::tokenize("\u{e4}\u{f6} xy");
    assert_eq!(toks, vec!["\u{e4}\u{f6}".to_string()]);
}

#[test]
fn test_remove_stopwords() {
    let toks = vec!["the".to_string(), "quick".to_string(), "fox".to_string()];
    assert_eq!(
        Tokenizer::remove_stopwords(toks),
        vec!["quick".to_string(), "fox".to_string()]
    );
}

#[test]
fn test_lexical_search_scenario() {
    let mut svc = SearchService::new();
    svc.index_document("a", "the quick brown fox").unwrap();
    svc.index_document("b", "the lazy dog").unwrap();

    let stats = svc.search_stats("fox");
    let scored = bm25_scores(&stats);
    let ranked = rank_top_k(scored, 5);
    let results = svc.results_with_snippets(&ranked);

    assert_eq!(results.len(), 1);
    assert_eq!(results[0].path, "a");
    assert!(f32::from_bits(results[0].score) > 0.0);
    assert_eq!(results[0].snippet, "the quick brown fox");

    let stats2 = svc.search_stats("cat");
    let scored2 = bm25_scores(&stats2);
    let ranked2 = rank_top_k(scored2, 5);
    assert!(ranked2.is_empty());
}

#[test]
fn test_reindex_same_id_keeps_latest() {
    let mut svc = SearchService::new();
    svc.index_document("doc", "alpha beta gamma").unwrap();
    svc.index_document("doc", "delta epsilon").unwrap();

    assert_eq!(svc.doc_count(), 1);

    let old_term = svc.search_stats("alpha");
    assert!(old_term.docs.is_empty());

    let new_term = svc.search_stats("delta");
    assert_eq!(new_term.docs.len(), 1);
    assert_eq!(new_term.docs[0].doc_id, "doc");
}

#[test]
fn test_bm25_per_term_scores_nonnegative() {
    let mut svc = SearchService::new();
    svc.index_document("a", "apples and oranges and pears").unwrap();
    svc.index_document("b", "apples only here").unwrap();
    svc.index_document("c", "nothing relevant").unwrap();

    let stats = svc.search_stats("apples oranges nothing");
    let n = stats.doc_count as f32;
    let avg = stats.total_len as f32 / n;
    for doc in &stats.docs {
        for (j, td) in stats.terms.iter().enumerate() {
            if td.df == 0 {
                continue;
            }
            let tf = doc.tfs[j] as f32;
            let idf = ((n - td.df as f32 + 0.5) / (td.df as f32 + 0.5) + 1.0).ln();
            let denominator = tf + 1.5 * (1.0 - 0.75 + 0.75 * (doc.doc_len as f32 / avg));
            let per_term = idf * (tf * 2.5) / denominator;
            assert!(per_term >= 0.0);
        }
    }
}

#[test]
fn test_snippet_is_first_200_chars() {
    let mut svc = SearchService::new();
    let long = "words ".repeat(100);
    svc.index_document("long", &long).unwrap();
    let stats = svc.search_stats("words");
    let ranked = rank_top_k(bm25_scores(&stats), 1);
    let results = svc.results_with_snippets(&ranked);
    assert_eq!(results[0].snippet.chars().count(), 200);
}

#[test]
fn test_clear_empties_index() {
    let mut svc = SearchService::new();
    svc.index_document("a", "something searchable").unwrap();
    svc.clear();
    assert_eq!(svc.doc_count(), 0);
    assert!(svc.search_stats("something").docs.is_empty());
}

#[test]
fn test_empty_query_returns_no_results() {
    let mut svc = SearchService::new();
    svc.index_document("a", "something").unwrap();
    let stats = svc.search_stats("");
    assert!(stats.terms.is_empty());
    assert!(stats.docs.is_empty());
    // A query of only stopwords and short tokens filters to nothing too.
    let stats2 = svc.search_stats("the a of to");
    assert!(stats2.terms.is_empty());
}

#[test]
fn test_short_tokens_are_discarded() {
    let toks = Tokenizer::tokenize("go to AB abc");
    assert_eq!(toks, vec!["abc".to_string()]);
}

#[test]
fn test_duplicate_query_terms_counted_once() {
    let mut svc = SearchService::new();
    svc.index_document("a", "fox fox fox").unwrap();
    let stats = svc.search_stats("fox fox");
    assert_eq!(stats.terms.len(), 1);
    assert_eq!(stats.docs.len(), 1);
    assert_eq!(stats.docs[0].tfs[0], 3);
}

#[test]
fn test_missing_content_snippet_placeholder() {
    let svc = SearchService::new();
    let ranked = vec![("ghost".to_string(), 1.0f32.to_bits())];
    let results = svc.results_with_snippets(&ranked);
    assert_eq!(results[0].snippet, "...");
}
