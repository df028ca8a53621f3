use lucastra::ranking::rank_top_k;

#[test]
fn test_rank_orders_descending() {
    let scored = vec![
        ("small".to_string(), 0.5f32.to_bits()),
        ("big".to_string(), 2.0f32.to_bits()),
        ("negative".to_string(), (-1.0f32).to_bits()),
        ("zero".to_string(), 0.0f32.to_bits()),
    ];
    let ranked = rank_top_k(scored, 10);
    let names: Vec<&str> = ranked.iter().map(|p| p.0.as_str()).collect();
    assert_eq!(names, vec!["big", "small", "zero", "negative"]);
}

#[test]
fn test_rank_truncates_to_top_k() {
    let scored = vec![
        ("a".to_string(), 1.0f32.to_bits()),
        ("b".to_string(), 3.0f32.to_bits()),
        ("c".to_string(), 2.0f32.to_bits()),
    ];
    let ranked = rank_top_k(scored, 2);
    assert_eq!(ranked.len(), 2);
    assert_eq!(ranked[0].0, "b");
    assert_eq!(ranked[1].0, "c");
}

#[test]
fn test_rank_k_larger_than_input() {
    let scored = vec![("only".to_string(), 1.5f32.to_bits())];
    let ranked = rank_top_k(scored, 9);
    assert_eq!(ranked.len(), 1);
}

#[test]
fn test_rank_keeps_all_tied_scores() {
    let tied = 1.25f32.to_bits();
    let scored = vec![
        ("x".to_string(), tied),
        ("y".to_string(), tied),
        ("z".to_string(), 0.5f32.to_bits()),
    ];
    let ranked = rank_top_k(scored, 3);
    assert_eq!(ranked.len(), 3);
    // Both tied entries come before the lower score; their mutual order is
    // unspecified.
    assert_eq!(ranked[2].0, "z");
    let firsts: Vec<&str> = ranked[..2].iter().map(|p| p.0.as_str()).collect();
    assert!(firsts.contains(&"x") && firsts.contains(&"y"));
}
