use lucastra::vector::{VectorError, VectorIndex};

fn bits(v: &[f32]) -> Vec<u32> {
    v.iter().map(|x| x.to_bits()).collect()
}

fn cosine(a: &[f32], b: &[f32]) -> f32 {
    let dot: f32 = a.iter().zip(b.iter()).map(|(x, y)| x * y).sum();
    let na: f32 = a.iter().map(|x| x * x).sum::<f32>().sqrt();
    let nb: f32 = b.iter().map(|x| x * x).sum::<f32>().sqrt();
    if na == 0.0 || nb == 0.0 {
        0.0
    } else {
        dot / (na * nb)
    }
}

fn floats(v: &[u32]) -> Vec<f32> {
    v.iter().map(|x| f32::from_bits(*x)).collect()
}

#[test]
fn test_vector_index_add_document() {
    let mut index = VectorIndex::new();
    let embedding = bits(&[0.1, 0.2, 0.3]);

    let id = index
        .add_document("/test/doc1.txt".to_string(), embedding, "Test document".to_string())
        .unwrap();
    assert_eq!(id, 0);
    assert_eq!(index.len(), 1);
    assert_eq!(index.dimensions(), Some(3));
}

#[test]
fn test_vector_index_dimension_mismatch() {
    let mut index = VectorIndex::new();
    index
        .add_document("/test/doc1.txt".to_string(), bits(&[0.1, 0.2, 0.3]), "Doc 1".to_string())
        .unwrap();

    let result = index.add_document(
        "/test/doc2.txt".to_string(),
        bits(&[0.1, 0.2]), // Wrong dimension
        "Doc 2".to_string(),
    );

    assert!(matches!(
        result,
        Err(VectorError::DimensionMismatch { expected: 3, got: 2 })
    ));
    assert_eq!(index.len(), 1);
}

#[test]
fn test_vector_index_empty_embeddings() {
    let mut index = VectorIndex::new();
    let result = index.add_document("/test/doc.txt".to_string(), vec![], "Empty".to_string());
    assert!(matches!(result, Err(VectorError::EmptyEmbeddings)));
}

#[test]
fn test_vector_index_clear() {
    let mut index = VectorIndex::new();
    index
        .add_document("/test/doc.txt".to_string(), bits(&[1.0, 0.0]), "Test".to_string())
        .unwrap();

    assert_eq!(index.len(), 1);
    index.clear();
    assert_eq!(index.len(), 0);
    assert_eq!(index.dimensions(), None);
}

#[test]
fn test_vector_index_search() {
    let mut index = VectorIndex::new();

    index
        .add_document(
            "/test/doc1.txt".to_string(),
            bits(&[1.0, 0.0, 0.0]),
            "Document about X".to_string(),
        )
        .unwrap();
    index
        .add_document(
            "/test/doc2.txt".to_string(),
            bits(&[0.0, 1.0, 0.0]),
            "Document about Y".to_string(),
        )
        .unwrap();
    index
        .add_document(
            "/test/doc3.txt".to_string(),
            bits(&[0.7, 0.7, 0.0]),
            "Document about X and Y".to_string(),
        )
        .unwrap();

    // Query similar to doc1
    let query = [0.9f32, 0.1, 0.0];
    let qbits = bits(&query);
    index.check_query(&qbits).unwrap();

    let sims: Vec<u32> = index
        .documents()
        .iter()
        .map(|d| cosine(&floats(&d.embedding), &query).to_bits())
        .collect();
    let results = index.results_by_score(&sims, 2).unwrap();

    assert_eq!(results.len(), 2);
    assert_eq!(results[0].path, "/test/doc1.txt");
    assert!(f32::from_bits(results[0].score) > 0.9);
    assert_eq!(results[1].path, "/test/doc3.txt");
}

#[test]
fn test_query_dimension_checks() {
    let mut index = VectorIndex::new();
    index
        .add_document("/d".to_string(), bits(&[0.5, 0.5, 0.5]), "d".to_string())
        .unwrap();

    assert!(matches!(
        index.check_query(&vec![]),
        Err(VectorError::EmptyEmbeddings)
    ));
    assert!(matches!(
        index.check_query(&bits(&[1.0])),
        Err(VectorError::DimensionMismatch { expected: 3, got: 1 })
    ));
    assert!(index.check_query(&bits(&[1.0, 2.0, 3.0])).is_ok());
}

#[test]
fn test_results_need_aligned_scores() {
    let mut index = VectorIndex::new();
    index
        .add_document("/d".to_string(), bits(&[1.0]), "d".to_string())
        .unwrap();
    let r = index.results_by_score(&vec![], 1);
    assert!(matches!(r, Err(VectorError::IndexError(_))));
}

#[test]
fn test_ids_are_sequential_per_generation() {
    let mut index = VectorIndex::new();
    let a = index.add_document("/a".to_string(), bits(&[1.0]), "a".to_string()).unwrap();
    let b = index.add_document("/b".to_string(), bits(&[2.0]), "b".to_string()).unwrap();
    assert_eq!((a, b), (0, 1));
    index.clear();
    let c = index.add_document("/c".to_string(), bits(&[3.0]), "c".to_string()).unwrap();
    assert_eq!(c, 0);
}
