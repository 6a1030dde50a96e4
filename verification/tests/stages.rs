//! Tests of the pipeline's stages, one by one: lexer output, Reverse
//! Polish order, tree construction, validation, simplification, and
//! single-node evaluation.

use decalc::analyzer::lexer::tokenize;
use decalc::analyzer::parser::{parse, reverse_polish};
use decalc::analyzer::semantic_analyzer::{opimize, process};
use decalc::analyzer::syntax_tree::{SyntaxNode, SyntaxTree};
use decalc::analyzer::token::{BinOps, Delim, Kind, Paren, Token, UnOps};
use decalc::error::Error;
use decalc::interpreter::engine::evaluate;
use decalc::interpreter::interpreter::interprete;
use decalc::number::{number_from_literal, Number};

fn chars(text: &str) -> Vec<char> {
    text.chars().collect()
}

#[test]
fn tokenize_classifies_each_character() {
    let toks = tokenize("min(1, 23)^-4.5").unwrap();
    let kinds: Vec<&Kind> = toks.iter().map(|t| &t.kind).collect();
    assert_eq!(kinds.len(), 9);
    assert_eq!(*kinds[0], Kind::Func(chars("min")));
    assert_eq!(*kinds[1], Kind::Parenthesis(Paren::Open));
    assert_eq!(*kinds[2], Kind::Number(chars("1")));
    assert_eq!(*kinds[3], Kind::Delimiter(Delim::Comma));
    assert_eq!(*kinds[4], Kind::Number(chars("23")));
    assert_eq!(*kinds[5], Kind::Parenthesis(Paren::Close));
    assert_eq!(*kinds[6], Kind::BinaryOperator(BinOps::Pow));
    // The lexer leaves every operator binary; the reorderer resolves it.
    assert_eq!(*kinds[7], Kind::BinaryOperator(BinOps::Minus));
    assert_eq!(*kinds[8], Kind::Number(chars("4.5")));
}

#[test]
fn tokenize_records_positions() {
    let toks = tokenize("12 +x").unwrap();
    assert_eq!((toks[0].line, toks[0].column), (1, 1));
    assert_eq!((toks[1].line, toks[1].column), (1, 4));
    assert_eq!((toks[2].line, toks[2].column), (1, 5));
}

#[test]
fn tokenize_rejects_second_dot() {
    assert_eq!(tokenize("7..2").unwrap_err(), Error::UnexpectedDot { line: 1, column: 3 });
}

#[test]
fn reverse_polish_orders_by_precedence() {
    let rpn = reverse_polish(tokenize("1+2*3").unwrap()).unwrap();
    let kinds: Vec<&Kind> = rpn.iter().map(|t| &t.kind).collect();
    assert_eq!(*kinds[0], Kind::Number(chars("1")));
    assert_eq!(*kinds[1], Kind::Number(chars("2")));
    assert_eq!(*kinds[2], Kind::Number(chars("3")));
    assert_eq!(*kinds[3], Kind::BinaryOperator(BinOps::Mult));
    assert_eq!(*kinds[4], Kind::BinaryOperator(BinOps::Plus));
}

#[test]
fn reverse_polish_marks_call_arguments() {
    let rpn = reverse_polish(tokenize("min(3,4)").unwrap()).unwrap();
    let kinds: Vec<&Kind> = rpn.iter().map(|t| &t.kind).collect();
    assert_eq!(*kinds[0], Kind::Delimiter(Delim::FuncArgs));
    assert_eq!(*kinds[1], Kind::Number(chars("3")));
    assert_eq!(*kinds[2], Kind::Number(chars("4")));
    assert_eq!(*kinds[3], Kind::Func(chars("min")));
}

#[test]
fn reverse_polish_resolves_unary_signs() {
    let rpn = reverse_polish(tokenize("-3+4").unwrap()).unwrap();
    let kinds: Vec<&Kind> = rpn.iter().map(|t| &t.kind).collect();
    assert_eq!(*kinds[0], Kind::Number(chars("3")));
    assert_eq!(*kinds[1], Kind::UnaryOperator(UnOps::Minus));
    assert_eq!(*kinds[2], Kind::Number(chars("4")));
    assert_eq!(*kinds[3], Kind::BinaryOperator(BinOps::Plus));
}

#[test]
fn round_trip_reorder_build_interpret() {
    // The Reorderer, the Tree Builder, and the Interpreter compose to
    // evaluate "3+4" without the semantic pass in between.
    let rpn = reverse_polish(tokenize("3+4").unwrap()).unwrap();
    let tree = SyntaxTree::build(rpn).unwrap();
    assert_eq!(interprete(&tree).unwrap(), Number { mantissa: 7, scale: 0 });
}

#[test]
fn build_keeps_source_order_of_operands() {
    let tree = parse(tokenize("8-2").unwrap()).unwrap();
    let root = tree.get_root().unwrap();
    assert_eq!(root.value.kind, Kind::BinaryOperator(BinOps::Minus));
    let children = root.get_children();
    assert_eq!(children[0].value.kind, Kind::Number(chars("8")));
    assert_eq!(children[1].value.kind, Kind::Number(chars("2")));
}

#[test]
fn build_rejects_an_empty_queue() {
    assert_eq!(SyntaxTree::build(Vec::new()).unwrap_err(), Error::EmptyExpression);
}

#[test]
fn process_accepts_full_operators() {
    let tree = parse(tokenize("1+2*3").unwrap()).unwrap();
    assert!(process(&tree).is_ok());
}

#[test]
fn process_rejects_missing_operands() {
    let tree = parse(tokenize("3+").unwrap()).unwrap();
    assert!(matches!(process(&tree).unwrap_err(), Error::WrongArity { .. }));
}

#[test]
fn process_rejects_a_rootless_tree() {
    assert_eq!(process(&SyntaxTree::new()).unwrap_err(), Error::EmptyExpression);
}

#[test]
fn opimize_elides_unary_plus() {
    let tree = opimize(parse(tokenize("+3").unwrap()).unwrap()).unwrap();
    let root = tree.get_root().unwrap();
    assert_eq!(root.value.kind, Kind::Number(chars("3")));
    assert_eq!(root.get_children().len(), 0);
}

#[test]
fn opimize_folds_sign_into_literal() {
    let tree = opimize(parse(tokenize("-3").unwrap()).unwrap()).unwrap();
    let root = tree.get_root().unwrap();
    assert_eq!(root.value.kind, Kind::Number(chars("-3")));
    assert_eq!(root.get_children().len(), 0);
}

#[test]
fn opimize_cancels_double_negation() {
    let tree = opimize(parse(tokenize("--3").unwrap()).unwrap()).unwrap();
    let root = tree.get_root().unwrap();
    assert_eq!(root.value.kind, Kind::Number(chars("3")));
}

#[test]
fn opimize_twice_changes_nothing() {
    for text in ["+3", "--3", "-(1+2)", "min(-1,2)", "3-(-4)", "1+2*3", "-+-3"] {
        let once = opimize(parse(tokenize(text).unwrap()).unwrap()).unwrap();
        let twice = opimize(opimize(parse(tokenize(text).unwrap()).unwrap()).unwrap()).unwrap();
        assert_eq!(once, twice, "second pass changed the tree of {:?}", text);
        assert_eq!(interprete(&once).unwrap(), interprete(&twice).unwrap());
    }
}

#[test]
fn opimize_keeps_the_value() {
    for (text, value) in [("+3", 3), ("--3", 3), ("-(1+2)", -3), ("3-(-4)", 7)] {
        let tree = parse(tokenize(text).unwrap()).unwrap();
        let simplified = opimize(tree).unwrap();
        assert_eq!(interprete(&simplified).unwrap(), Number { mantissa: value, scale: 0 });
    }
}

#[test]
fn evaluate_applies_one_operator() {
    let plus = Token::binary_op('+', 1, 1).unwrap();
    let args = vec![Number::new(1, 0), Number::new(2, 0)];
    assert_eq!(evaluate(&plus, &args).unwrap(), Number { mantissa: 3, scale: 0 });
}

#[test]
fn evaluate_reads_a_literal() {
    let lit = Token::number(chars("4.25"), 1, 1);
    assert_eq!(evaluate(&lit, &Vec::new()).unwrap(), Number { mantissa: 425, scale: 2 });
}

#[test]
fn evaluate_negates() {
    let minus = Token::unary_op('-', 1, 1).unwrap();
    let args = vec![Number::new(5, 0)];
    assert_eq!(evaluate(&minus, &args).unwrap(), Number { mantissa: -5, scale: 0 });
}

#[test]
fn evaluate_rejects_unknown_names() {
    let f = Token::function(chars("median"), 1, 1);
    let args = vec![Number::new(5, 0)];
    assert_eq!(evaluate(&f, &args).unwrap_err(), Error::UnknownFunction { line: 1, column: 1 });
}

#[test]
fn number_from_literal_reads_exact_decimals() {
    assert_eq!(number_from_literal(&chars("12")), Some(Number { mantissa: 12, scale: 0 }));
    assert_eq!(number_from_literal(&chars("1.50")), Some(Number { mantissa: 150, scale: 2 }));
    assert_eq!(number_from_literal(&chars("-3")), Some(Number { mantissa: -3, scale: 0 }));
    assert_eq!(number_from_literal(&chars(".5")), Some(Number { mantissa: 5, scale: 1 }));
    assert_eq!(number_from_literal(&chars("5.")), Some(Number { mantissa: 5, scale: 0 }));
    assert_eq!(number_from_literal(&chars("")), None);
    assert_eq!(number_from_literal(&chars(".")), None);
    assert_eq!(number_from_literal(&chars("1-2")), None);
}

#[test]
fn tree_helpers_link_children() {
    let mut node = SyntaxNode::new(Token::binary_op('*', 1, 2).unwrap());
    node.add_child(SyntaxNode::new(Token::number(chars("2"), 1, 1)));
    node.add_child(SyntaxNode::new(Token::number(chars("3"), 1, 3)));
    assert_eq!(node.get_children().len(), 2);
    let mut tree = SyntaxTree::new();
    assert!(tree.get_root().is_none());
    tree.set_root(Some(node));
    assert_eq!(interprete(&tree).unwrap(), Number { mantissa: 6, scale: 0 });
    let other = SyntaxTree::with_root(None);
    assert!(other.get_root().is_none());
}
