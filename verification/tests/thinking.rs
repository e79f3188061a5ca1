use nanorp::thinking::parse_thinking;

#[test]
fn plain_text_has_no_reasoning() {
    let p = parse_thinking("Hello there!");
    assert!(p.reasoning.is_none());
    assert!(!p.reasoning_open);
    assert_eq!(p.answer, "Hello there!");
}

#[test]
fn completed_think_block_is_split() {
    let p = parse_thinking("<think>pondering deeply</think>The answer is 42.");
    assert_eq!(p.reasoning.as_deref(), Some("pondering deeply"));
    assert!(!p.reasoning_open);
    assert_eq!(p.answer, "The answer is 42.");
}

#[test]
fn unclosed_think_block_is_streaming() {
    let p = parse_thinking("<think>still thinking");
    assert_eq!(p.reasoning.as_deref(), Some("still thinking"));
    assert!(p.reasoning_open);
    assert!(p.answer.is_empty());
}

#[test]
fn empty_reasoning_is_dropped() {
    let p = parse_thinking("<think>  </think>Answer.");
    assert!(p.reasoning.is_none());
    assert_eq!(p.answer, "Answer.");
}

#[test]
fn leading_whitespace_before_think_is_ignored() {
    let p = parse_thinking("  \n<think> a </think>\n  b ");
    assert_eq!(p.reasoning.as_deref(), Some("a"));
    assert!(!p.reasoning_open);
    assert_eq!(p.answer, "b ");
}
