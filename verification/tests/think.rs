use model_router::convert::think::codex_split_leading_think_block;

#[test]
fn test_codex_split_leading_think_block() {
    // Standard <think > block
    let text = "<think\nI am reasoning\n</think >The answer is 42";
    let result = codex_split_leading_think_block(text);
    assert!(result.is_some());
    let (reasoning, answer) = result.unwrap();
    assert_eq!(reasoning, "I am reasoning");
    assert_eq!(answer, "The answer is 42");

    // No think block
    let text = "Just a normal response";
    assert!(codex_split_leading_think_block(text).is_none());
}

#[test]
fn an_opening_tag_may_end_after_a_blank() {
    let split = |s: &str| codex_split_leading_think_block(s);
    assert_eq!(split("<think >r</think>a"), Some(("r".to_string(), "a".to_string())));
    assert_eq!(split("<think>r</think>a"), Some(("r".to_string(), "a".to_string())));
    assert_eq!(split("<think\n>r</think>a"), Some((">r".to_string(), "a".to_string())));
    assert_eq!(split("<think r > s</think>a"), Some(("r > s".to_string(), "a".to_string())));
}
