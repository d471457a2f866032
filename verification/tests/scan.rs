use hello::cluster::{Cluster, Part, Traits};
use hello::scan::scan;
use hello::token::{Kind, Token};

const LETTER: Traits =
    Traits { white_space: false, ident_start: true, ident_continue: true, syntax: false };
const MARK: Traits =
    Traits { white_space: false, ident_start: false, ident_continue: true, syntax: false };
const SIGN: Traits =
    Traits { white_space: false, ident_start: false, ident_continue: false, syntax: true };
const BLANK: Traits =
    Traits { white_space: true, ident_start: false, ident_continue: false, syntax: false };
const OTHER: Traits =
    Traits { white_space: false, ident_start: false, ident_continue: false, syntax: false };

fn line<'a>(clusters: &[(&'a str, Traits)]) -> Vec<Cluster<'a>> {
    clusters.iter().map(|(text, traits)| Cluster { text, traits: *traits }).collect()
}

fn ident(text: &str) -> Token {
    Token::Identifier(text.to_string())
}

fn symbol(text: &str) -> Token {
    Token::Symbol(text.to_string())
}

#[test]
fn opening_goes_by_precedence() {
    assert_eq!(LETTER.opening(), Part::Token(Kind::Identifier));
    assert_eq!(SIGN.opening(), Part::Token(Kind::Symbol));
    assert_eq!(BLANK.opening(), Part::WhiteSpace);
    assert_eq!(OTHER.opening(), Part::Unrecognized);
    assert_eq!(MARK.opening(), Part::Unrecognized);
    let all = Traits { white_space: true, ident_start: true, ident_continue: true, syntax: true };
    assert_eq!(all.opening(), Part::WhiteSpace);
    let both = Traits { white_space: false, ident_start: true, ident_continue: true, syntax: true };
    assert_eq!(both.opening(), Part::Token(Kind::Identifier));
}

#[test]
fn continuing_goes_by_the_open_class_alone() {
    assert!(LETTER.continues(Kind::Identifier));
    assert!(!LETTER.continues(Kind::Symbol));
    assert!(MARK.continues(Kind::Identifier));
    assert!(SIGN.continues(Kind::Symbol));
    assert!(!SIGN.continues(Kind::Identifier));
    assert!(!BLANK.continues(Kind::Identifier));
    assert!(!BLANK.continues(Kind::Symbol));
    let blank_mark =
        Traits { white_space: true, ident_start: false, ident_continue: true, syntax: false };
    assert!(blank_mark.continues(Kind::Identifier));
}

#[test]
fn scan_of_nothing() {
    let out = scan(&Vec::new());
    assert!(out.tokens.is_empty());
    assert!(out.unrecognized.is_empty());
}

#[test]
fn scan_takes_the_longest_run() {
    let clusters = line(&[
        ("a", LETTER),
        ("b", LETTER),
        ("_", MARK),
        ("+", SIGN),
        ("+", SIGN),
        ("c", LETTER),
    ]);
    let out = scan(&clusters);
    assert_eq!(out.tokens, vec![ident("ab_"), symbol("++"), ident("c")]);
    assert!(out.unrecognized.is_empty());
}

#[test]
fn scan_skips_white_space() {
    let clusters = line(&[(" ", BLANK), ("a", LETTER), (" ", BLANK), (" ", BLANK), ("b", LETTER)]);
    let out = scan(&clusters);
    assert_eq!(out.tokens, vec![ident("a"), ident("b")]);
    assert!(out.unrecognized.is_empty());
}

#[test]
fn scan_sets_unrecognized_clusters_aside() {
    let clusters = line(&[("?", OTHER), ("a", LETTER), ("!", OTHER), ("_", MARK), ("b", LETTER)]);
    let out = scan(&clusters);
    assert_eq!(out.tokens, vec![ident("a"), ident("b")]);
    assert_eq!(out.unrecognized, vec!["?".to_string(), "!".to_string(), "_".to_string()]);
}

#[test]
fn scan_lets_an_open_token_take_what_continues_it() {
    let blank_mark =
        Traits { white_space: true, ident_start: false, ident_continue: true, syntax: false };
    let clusters = line(&[("a", LETTER), (" ", blank_mark), ("b", LETTER)]);
    let out = scan(&clusters);
    assert_eq!(out.tokens, vec![ident("a b")]);
    let clusters = line(&[(" ", blank_mark), ("b", LETTER)]);
    let out = scan(&clusters);
    assert_eq!(out.tokens, vec![ident("b")]);
}

#[test]
fn scan_of_white_space_only() {
    let clusters = line(&[(" ", BLANK), ("\t", BLANK), (" ", BLANK)]);
    let out = scan(&clusters);
    assert!(out.tokens.is_empty());
    assert!(out.unrecognized.is_empty());
}

#[test]
fn scan_of_one_run_is_one_token() {
    let clusters = line(&[("a", LETTER), ("1", MARK), ("_", MARK), ("b", LETTER)]);
    let out = scan(&clusters);
    assert_eq!(out.tokens, vec![ident("a1_b")]);
    let clusters = line(&[("=", SIGN), ("=", SIGN), ("=", SIGN)]);
    let out = scan(&clusters);
    assert_eq!(out.tokens, vec![symbol("===")]);
}

#[test]
fn scan_keeps_the_boundary_between_classes() {
    let first = line(&[("a", LETTER), ("b", LETTER)]);
    let second = line(&[("+", SIGN), ("-", SIGN)]);
    let mut joined = first.clone();
    joined.extend(second.iter().copied());
    let mut apart = scan(&first).tokens;
    apart.extend(scan(&second).tokens);
    assert_eq!(scan(&joined).tokens, apart);
    assert_eq!(apart, vec![ident("ab"), symbol("+-")]);
}

#[test]
fn scan_merges_across_a_cut_that_a_token_runs_over() {
    let sign_mark =
        Traits { white_space: false, ident_start: false, ident_continue: true, syntax: true };
    let first = line(&[("a", LETTER)]);
    let second = line(&[("+", sign_mark)]);
    assert_eq!(scan(&first).tokens, vec![ident("a")]);
    assert_eq!(scan(&second).tokens, vec![symbol("+")]);
    let joined = line(&[("a", LETTER), ("+", sign_mark)]);
    assert_eq!(scan(&joined).tokens, vec![ident("a+")]);
}
