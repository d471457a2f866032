use hello::classifier::Classifier;
use hello::cmdline::Exit;
use hello::session::{
    diagnostic, diagnostics, is_blank, is_pattern_white_space, render, Fault, Input, Session,
    Step, PROMPT,
};
use hello::token::Token;

fn ident(text: &str) -> Token {
    Token::Identifier(text.to_string())
}

fn symbol(text: &str) -> Token {
    Token::Symbol(text.to_string())
}

#[test]
fn pattern_white_space_is_eleven_characters() {
    let white: Vec<char> = (0..=0x10FFFFu32)
        .filter_map(char::from_u32)
        .filter(|c| is_pattern_white_space(*c))
        .collect();
    assert_eq!(
        white,
        vec![
            '\t', '\n', '\u{b}', '\u{c}', '\r', ' ', '\u{85}', '\u{200e}', '\u{200f}', '\u{2028}',
            '\u{2029}'
        ]
    );
}

#[test]
fn blank_lines() {
    assert!(is_blank(""));
    assert!(is_blank(" "));
    assert!(is_blank("\t"));
    assert!(is_blank("  \t \t  "));
    assert!(is_blank("\r\n"));
    assert!(is_blank(" \u{200e}\u{200f}\u{2028}\u{2029}\u{85}"));
}

#[test]
fn lines_that_are_not_blank() {
    assert!(!is_blank("a"));
    assert!(!is_blank("  a  "));
    assert!(!is_blank("   +"));
    assert!(!is_blank("\u{1}"));
    assert!(!is_blank("\u{a0}"));
    assert!(!is_blank(" \u{3000} "));
}

#[test]
fn render_shows_each_token_in_turn() {
    assert_eq!(render(&vec![]), "");
    assert_eq!(render(&vec![ident("a")]), "Identifier(a) ");
    assert_eq!(
        render(&vec![ident("abc"), symbol("+++"), ident("def")]),
        "Identifier(abc) Symbol(+++) Identifier(def) "
    );
}

#[test]
fn diagnostic_names_the_cluster() {
    assert_eq!(diagnostic("\u{1}"), "unrecognized grapheme: \u{1}");
    assert_eq!(diagnostic("_"), "unrecognized grapheme: _");
    assert_eq!(
        diagnostics(&vec!["_".to_string(), "\u{2}".to_string()]),
        vec!["unrecognized grapheme: _".to_string(), "unrecognized grapheme: \u{2}".to_string()]
    );
    assert!(diagnostics(&vec![]).is_empty());
}

#[test]
fn prompt() {
    assert_eq!(PROMPT, ">>> ");
}

#[test]
fn new_session_is_empty() {
    let session = Session::new();
    assert!(session.tokens().is_empty());
}

#[test]
fn session_shows_all_its_tokens_after_each_line() {
    let classifier = Classifier::new().unwrap();
    let mut session = Session::new();
    match session.submit(&classifier, "a = b") {
        Step::Show { diagnostics, rendering } => {
            assert!(diagnostics.is_empty());
            assert_eq!(rendering, "Identifier(a) Symbol(=) Identifier(b) ");
        }
        _ => panic!("the line is not blank"),
    }
    match session.submit(&classifier, "c") {
        Step::Show { diagnostics, rendering } => {
            assert!(diagnostics.is_empty());
            assert_eq!(rendering, "Identifier(a) Symbol(=) Identifier(b) Identifier(c) ");
        }
        _ => panic!("the line is not blank"),
    }
    assert_eq!(session.tokens(), &vec![ident("a"), symbol("="), ident("b"), ident("c")]);
}

#[test]
fn session_keeps_duplicates() {
    let classifier = Classifier::new().unwrap();
    let mut session = Session::new();
    session.submit(&classifier, "a a");
    session.submit(&classifier, "a");
    assert_eq!(session.tokens(), &vec![ident("a"), ident("a"), ident("a")]);
}

#[test]
fn session_reports_unrecognized_clusters() {
    let classifier = Classifier::new().unwrap();
    let mut session = Session::new();
    match session.submit(&classifier, "a\u{1}b") {
        Step::Show { diagnostics, rendering } => {
            assert_eq!(diagnostics, vec!["unrecognized grapheme: \u{1}".to_string()]);
            assert_eq!(rendering, "Identifier(a) Identifier(b) ");
        }
        _ => panic!("the line is not blank"),
    }
}

#[test]
fn line_without_tokens_shows_what_there_was() {
    let classifier = Classifier::new().unwrap();
    let mut session = Session::new();
    session.submit(&classifier, "x");
    match session.submit(&classifier, "\u{1}") {
        Step::Show { diagnostics, rendering } => {
            assert_eq!(diagnostics, vec!["unrecognized grapheme: \u{1}".to_string()]);
            assert_eq!(rendering, "Identifier(x) ");
        }
        _ => panic!("the line is not blank"),
    }
}

#[test]
fn blank_line_ends_the_session() {
    let classifier = Classifier::new().unwrap();
    for blank in ["", " ", "\t", "  \t  ", "\u{200e}"] {
        let mut session = Session::new();
        assert!(matches!(session.submit(&classifier, blank), Step::End));
        assert!(session.tokens().is_empty());
        session.submit(&classifier, "a+");
        assert!(matches!(session.submit(&classifier, blank), Step::End));
        assert_eq!(session.tokens(), &vec![ident("a"), symbol("+")]);
    }
}

#[test]
fn extend_adds_at_the_end() {
    let mut session = Session::new();
    assert_eq!(session.extend(vec![ident("a")]), "Identifier(a) ");
    assert_eq!(session.extend(vec![]), "Identifier(a) ");
    assert_eq!(
        session.extend(vec![symbol("+"), ident("a")]),
        "Identifier(a) Symbol(+) Identifier(a) "
    );
    assert_eq!(session.tokens(), &vec![ident("a"), symbol("+"), ident("a")]);
}

#[test]
fn white_space_class_is_pattern_white_space() {
    let classifier = Classifier::new().unwrap();
    let mut buffer = [0u8; 4];
    for c in (0..=0xFFFFu32).filter_map(char::from_u32) {
        let text: &str = c.encode_utf8(&mut buffer);
        assert_eq!(classifier.classify(text).white_space, is_pattern_white_space(c));
    }
}

#[test]
fn fault_reports() {
    assert_eq!(
        Fault::Setup.report("hello", "no terminal"),
        "hello: error: unable to create readline interface: no terminal"
    );
    assert_eq!(
        Fault::Read.report("hello", "Interrupted"),
        "hello: error: unable to read from stdin: Interrupted"
    );
    assert_eq!(Fault::Setup.exit(), Exit::Failure);
    assert_eq!(Fault::Read.exit(), Exit::Failure);
    assert_eq!(Fault::Read.exit().code(), 1);
}

#[test]
fn advance_takes_a_line_as_submit_does() {
    let classifier = Classifier::new().unwrap();
    let mut session = Session::new();
    let step = session.advance(&classifier, "hello", &Input::Line("a\u{1}+".to_string()));
    assert_eq!(
        step,
        Step::Show {
            diagnostics: vec!["unrecognized grapheme: \u{1}".to_string()],
            rendering: "Identifier(a) Symbol(+) ".to_string(),
        }
    );
    let step = session.advance(&classifier, "hello", &Input::Line("b".to_string()));
    assert_eq!(
        step,
        Step::Show {
            diagnostics: vec![],
            rendering: "Identifier(a) Symbol(+) Identifier(b) ".to_string(),
        }
    );
    let step = session.advance(&classifier, "hello", &Input::Line("  ".to_string()));
    assert_eq!(step, Step::End);
    assert_eq!(session.tokens(), &vec![ident("a"), symbol("+"), ident("b")]);
}

#[test]
fn end_of_input_ends_the_session() {
    let classifier = Classifier::new().unwrap();
    let mut session = Session::new();
    session.advance(&classifier, "hello", &Input::Line("a".to_string()));
    assert_eq!(session.advance(&classifier, "hello", &Input::End), Step::End);
    assert_eq!(session.tokens(), &vec![ident("a")]);
}

#[test]
fn line_that_cannot_be_read_is_fatal() {
    let classifier = Classifier::new().unwrap();
    let mut session = Session::new();
    session.advance(&classifier, "hello", &Input::Line("a".to_string()));
    let step = session.advance(&classifier, "hello", &Input::Failed("Interrupted".to_string()));
    assert_eq!(
        step,
        Step::Fail {
            report: "hello: error: unable to read from stdin: Interrupted".to_string(),
            exit: Exit::Failure,
        }
    );
    assert_eq!(session.tokens(), &vec![ident("a")]);
}
