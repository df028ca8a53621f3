use lucastra::cache::EmbeddingCache;

fn bits(v: &[f32]) -> Vec<u32> {
    v.iter().map(|x| x.to_bits()).collect()
}

#[test]
fn test_memory_tier_round_trip() {
    let mut cache = EmbeddingCache::new();
    let embedding = bits(&[0.1, 0.2, 0.3]);

    assert!(cache.memory_get("Hello, world!", "test-model").is_none());

    cache.store_in_memory("Hello, world!", "test-model", embedding.clone());
    let retrieved = cache.memory_get("Hello, world!", "test-model").unwrap();
    assert_eq!(retrieved, embedding);

    assert!(cache.memory_get("Hello, world!", "other-model").is_none());
}

#[test]
fn test_hash_is_deterministic_and_keyed_on_both_parts() {
    let h1 = EmbeddingCache::hash_text("some text", "model-a");
    let h2 = EmbeddingCache::hash_text("some text", "model-a");
    assert_eq!(h1, h2);
    assert_ne!(h1, EmbeddingCache::hash_text("some text", "model-b"));
    assert_ne!(h1, EmbeddingCache::hash_text("other text", "model-a"));
}

#[test]
fn test_memory_eviction_respects_capacity() {
    let mut cache = EmbeddingCache::with_capacity(2);
    cache.store_in_memory("one", "m", bits(&[1.0]));
    cache.store_in_memory("two", "m", bits(&[2.0]));
    cache.store_in_memory("three", "m", bits(&[3.0]));
    assert_eq!(cache.entry_count(), 2);
    assert!(cache.memory_get("one", "m").is_none());
    assert!(cache.memory_get("three", "m").is_some());
}

#[test]
fn test_entry_codec_round_trip() {
    let emb = bits(&[0.25, -1.5, 3.75]);
    let hash = EmbeddingCache::hash_text("cached text", "bge-small");
    let encoded = EmbeddingCache::encode_entry(hash, &emb, "bge-small", 1_700_000_000);
    let (h, e, m, t) = EmbeddingCache::decode_entry(&encoded).unwrap();
    assert_eq!(h, hash);
    assert_eq!(e, emb);
    assert_eq!(m, "bge-small");
    assert_eq!(t, 1_700_000_000);
}

#[test]
fn test_entry_codec_negative_timestamp() {
    let emb = bits(&[0.5]);
    let encoded = EmbeddingCache::encode_entry(7, &emb, "m", -12345);
    let (_, _, _, t) = EmbeddingCache::decode_entry(&encoded).unwrap();
    assert_eq!(t, -12345);
}

#[test]
fn test_decode_rejects_malformed() {
    assert!(EmbeddingCache::decode_entry(&vec![]).is_none());
    assert!(EmbeddingCache::decode_entry(&vec![0u8; 31]).is_none());
    let mut bad = EmbeddingCache::encode_entry(1, &bits(&[1.0]), "m", 0);
    bad.pop();
    assert!(EmbeddingCache::decode_entry(&bad).is_none());
}

#[test]
fn test_cache_expiry_rule() {
    let now: i64 = 1_700_000_000;
    let seven_days: i64 = 7 * 86400;
    let backdated = now - seven_days - 1;
    let fresh = now - 60;
    assert!(EmbeddingCache::is_expired(backdated, now, 7));
    assert!(!EmbeddingCache::is_expired(fresh, now, 7));
    // An entry written exactly at the cutoff survives.
    assert!(!EmbeddingCache::is_expired(now - seven_days, now, 7));
}

#[test]
fn test_expiry_of_decoded_entry() {
    let now: i64 = 1_700_000_000;
    let old_entry = EmbeddingCache::encode_entry(9, &bits(&[1.0]), "m", now - 30 * 86400);
    let new_entry = EmbeddingCache::encode_entry(10, &bits(&[2.0]), "m", now);
    let (_, _, _, t_old) = EmbeddingCache::decode_entry(&old_entry).unwrap();
    let (_, _, _, t_new) = EmbeddingCache::decode_entry(&new_entry).unwrap();
    assert!(EmbeddingCache::is_expired(t_old, now, 7));
    assert!(!EmbeddingCache::is_expired(t_new, now, 7));
}

#[test]
fn test_store_replaces_same_key() {
    let mut cache = EmbeddingCache::new();
    cache.store_in_memory("text", "m", bits(&[1.0]));
    cache.store_in_memory("text", "m", bits(&[2.0]));
    assert_eq!(cache.entry_count(), 1);
    assert_eq!(cache.memory_get("text", "m").unwrap(), bits(&[2.0]));
}

#[test]
fn test_entry_codec_empty_embedding_and_model() {
    let encoded = EmbeddingCache::encode_entry(0, &vec![], "", 0);
    let (h, e, m, t) = EmbeddingCache::decode_entry(&encoded).unwrap();
    assert_eq!((h, e.len(), m.as_str(), t), (0, 0, "", 0));
}
