use brainfuck::tokenize::tokenize;
use brainfuck::tokenize::Operator;

#[test]
fn tokenize_empty_is_empty() {
    let tokens = tokenize(String::new());
    assert_eq!(tokens.len(), 0);
}

#[test]
fn tokenize_all_operators() {
    let tokens = tokenize("+-><.,[]".to_string());
    assert_eq!(
        tokens,
        vec![
            Operator::IncCell,
            Operator::DecCell,
            Operator::IncPtr,
            Operator::DecPtr,
            Operator::Print,
            Operator::Read,
            Operator::JumpZero,
            Operator::Loop,
        ]
    );
}

#[test]
fn tokenize_drops_unrecognized_characters() {
    // Comments vanish; the recognized characters keep their relative order.
    let source = "a + b [ c - d ] e .";
    let tokens = tokenize(source.to_string());
    assert_eq!(
        tokens,
        vec![
            Operator::IncCell,
            Operator::JumpZero,
            Operator::DecCell,
            Operator::Loop,
            Operator::Print,
        ]
    );
    // Never more operators than source characters.
    assert!(tokens.len() <= source.chars().count());
}

#[test]
fn tokenize_comment_only_source() {
    let tokens = tokenize("hello world 123".to_string());
    assert_eq!(tokens.len(), 0);
}
