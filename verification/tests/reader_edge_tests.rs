use rusp::evaluator::read;
use rusp::reader::{is_space, skip_spaces, Reader};
use rusp::types::RuspAtom::{Float, Int, Keyword, Symbol};
use rusp::types::RuspExp::Atom;
use rusp::types::{RuspAtom, RuspErr, RuspExp};

fn symbol(name: &str) -> RuspExp {
    Atom(Symbol(name.to_string()))
}

#[test]
fn numbers_and_symbols_are_told_apart() {
    assert_eq!(read("1.5").unwrap(), Atom(Float("1.5".to_string())));
    assert_eq!(read(".5").unwrap(), Atom(Float(".5".to_string())));
    assert_eq!(read("-.5").unwrap(), Atom(Float("-.5".to_string())));
    assert_eq!(read("+1.25").unwrap(), Atom(Float("+1.25".to_string())));
    assert_eq!(read("1.").unwrap(), symbol("1."));
    assert_eq!(read("1.2.3").unwrap(), symbol("1.2.3"));
    assert_eq!(read("1e5").unwrap(), symbol("1e5"));
    assert_eq!(read("-").unwrap(), symbol("-"));
    assert_eq!(read("+").unwrap(), symbol("+"));
    assert_eq!(read("-12").unwrap(), Atom(Int(-12)));
    assert_eq!(read("+12").unwrap(), Atom(Int(12)));
    assert_eq!(read("12a").unwrap(), symbol("12a"));
    assert_eq!(read("a;b").unwrap(), symbol("a;b"));
    assert_eq!(read(".").unwrap(), symbol("."));
}

#[test]
fn a_token_ends_at_white_space_or_a_parenthesis() {
    assert_eq!(read("abc def").unwrap(), symbol("abc"));
    assert_eq!(read("abc\tdef").unwrap(), symbol("abc"));
    assert_eq!(read("abc\ndef").unwrap(), symbol("abc"));
    assert_eq!(read("abc(def").unwrap(), symbol("abc"));
    assert_eq!(read("abc)def").unwrap(), symbol("abc"));
    assert_eq!(read("12)").unwrap(), Atom(Int(12)));
    assert_eq!(read("1.5(").unwrap(), Atom(Float("1.5".to_string())));
    assert_eq!(read("\u{3000}x").unwrap(), symbol("x"));
    assert_eq!(read("a\u{a0}b").unwrap(), symbol("a"));
    assert_eq!(read("a\"b").unwrap(), symbol("a\"b"));
    assert_eq!(read("a'b").unwrap(), symbol("a'b"));
}

#[test]
fn keywords_run_to_the_end_of_the_token() {
    assert_eq!(read(":abc").unwrap(), Atom(Keyword("abc".to_string())));
    assert_eq!(read(":").unwrap(), Atom(Keyword("".to_string())));
    assert_eq!(read(": a").unwrap(), Atom(Keyword("".to_string())));
    assert_eq!(read(":12").unwrap(), Atom(Keyword("12".to_string())));
    assert_eq!(read("(:a :b)").unwrap().to_string(), "(:a :b)");
}

#[test]
fn strings_take_two_escapes() {
    assert_eq!(
        read("\"hello world\"").unwrap(),
        Atom(RuspAtom::String("hello world".to_string()))
    );
    assert_eq!(read("\"\"").unwrap(), Atom(RuspAtom::String("".to_string())));
    assert_eq!(
        read("\"a\\\"b\"").unwrap(),
        Atom(RuspAtom::String("a\"b".to_string()))
    );
    assert_eq!(
        read("\"a\\\\b\"").unwrap(),
        Atom(RuspAtom::String("a\\b".to_string()))
    );
    assert_eq!(
        read("\"(not a list)\"").unwrap(),
        Atom(RuspAtom::String("(not a list)".to_string()))
    );
    assert_eq!(
        read("\"a\\nb\"").unwrap_err(),
        RuspErr::ReaderInvalidEscapeError { char: 'n' }
    );
    assert_eq!(read("\"abc").unwrap_err(), RuspErr::ReaderEofError);
    assert_eq!(read("\"abc\\").unwrap_err(), RuspErr::ReaderEofError);
    assert_eq!(read("\"").unwrap_err(), RuspErr::ReaderEofError);
}

#[test]
fn a_list_that_is_not_closed_is_the_end_of_input() {
    assert_eq!(read("(1 2").unwrap_err(), RuspErr::ReaderEofError);
    assert_eq!(read("(").unwrap_err(), RuspErr::ReaderEofError);
    assert_eq!(read("(a (b c)").unwrap_err(), RuspErr::ReaderEofError);
    assert_eq!(read("(a . b").unwrap_err(), RuspErr::ReaderEofError);
    assert_eq!(read("(a .").unwrap_err(), RuspErr::ReaderEofError);
    assert_eq!(read("'").unwrap_err(), RuspErr::ReaderEofError);
    assert_eq!(read("('").unwrap_err(), RuspErr::ReaderEofError);
    assert_eq!(read("(\"abc").unwrap_err(), RuspErr::ReaderEofError);
}

#[test]
fn a_dot_wants_one_expression_and_the_end_of_the_list() {
    assert_eq!(read("(a . )").unwrap_err(), RuspErr::ReaderError);
    assert_eq!(read("(a .)").unwrap_err(), RuspErr::ReaderError);
    assert_eq!(read("(a . b c)").unwrap_err(), RuspErr::ReaderError);
    assert_eq!(read("(1 . 2 3)").unwrap_err(), RuspErr::ReaderError);
    assert_eq!(read("(1 . 2 3").unwrap_err(), RuspErr::ReaderError);
    assert_eq!(read("(1 . 2 (").unwrap_err(), RuspErr::ReaderError);
    assert_eq!(read("(1 . 2").unwrap_err(), RuspErr::ReaderEofError);
    assert_eq!(read("(1 . 2  ").unwrap_err(), RuspErr::ReaderEofError);
    assert_eq!(read("(1 . ").unwrap_err(), RuspErr::ReaderEofError);
    assert_eq!(read("(1 . (2 3").unwrap_err(), RuspErr::ReaderEofError);
    assert_eq!(read("(a . b)").unwrap().to_string(), "(a . b)");
    assert_eq!(read("(a .b)").unwrap().to_string(), "(a . b)");
    assert_eq!(read("(a .5)").unwrap().to_string(), "(a . 5)");
    assert_eq!(read("(. a)").unwrap().to_string(), "(. a)");
    assert_eq!(read("( . )").unwrap().to_string(), "(.)");
}

#[test]
fn a_malformed_pair_leaves_the_cursor_at_the_fault() {
    let mut reader = Reader::new("(1 . 2 3) 4");
    assert_eq!(reader.read().unwrap_err(), RuspErr::ReaderError);
    assert_eq!(reader.read().unwrap(), Atom(Int(3)));
    let mut reader = Reader::new("(1 . ) 4");
    assert_eq!(reader.read().unwrap_err(), RuspErr::ReaderError);
    assert_eq!(reader.read().unwrap(), Atom(Int(4)));
}

#[test]
fn a_list_cut_short_is_the_end_of_input() {
    for text in ["(a (b c)", "(a (b c", "('a", "(a 'b (c) \"d\" ", "'(", "(a . (b", "(1.5 2.5"] {
        assert_eq!(read(text).unwrap_err(), RuspErr::ReaderEofError, "{:?}", text);
    }
}

#[test]
fn a_closing_parenthesis_alone_is_an_error() {
    assert_eq!(read(")").unwrap_err(), RuspErr::ReaderError);
    assert_eq!(read("  )").unwrap_err(), RuspErr::ReaderError);
    assert_eq!(read("')").unwrap_err(), RuspErr::ReaderError);
    assert_eq!(read("(')").unwrap_err(), RuspErr::ReaderError);
    assert_eq!(read("(a . ')").unwrap_err(), RuspErr::ReaderError);
}

#[test]
fn one_expression_is_read_at_a_time() {
    let mut reader = Reader::new(" 1 (2 3) four ");
    assert!(!reader.at_end());
    assert_eq!(reader.read().unwrap(), Atom(Int(1)));
    assert_eq!(reader.read().unwrap().to_string(), "(2 3)");
    assert!(!reader.at_end());
    assert_eq!(reader.read().unwrap(), symbol("four"));
    assert!(reader.at_end());
    assert_eq!(reader.read().unwrap_err(), RuspErr::ReaderEofError);
    assert_eq!(reader.read().unwrap_err(), RuspErr::ReaderEofError);
}

#[test]
fn nested_lists_are_read() {
    assert_eq!(read("((a) ((b)))").unwrap().to_string(), "((a) ((b)))");
    assert_eq!(read("(())").unwrap().to_string(), "(nil)");
    assert_eq!(read("(a(b)c)").unwrap().to_string(), "(a (b) c)");
    assert_eq!(read("(\"x\"y)").unwrap().to_string(), "(x y)");
}

#[test]
fn white_space_is_what_unicode_says() {
    for c in [' ', '\t', '\n', '\r', '\u{b}', '\u{c}', '\u{85}', '\u{a0}', '\u{1680}'] {
        assert!(is_space(c));
    }
    for c in ['\u{2000}', '\u{200a}', '\u{2028}', '\u{2029}', '\u{202f}', '\u{205f}', '\u{3000}'] {
        assert!(is_space(c));
    }
    for c in ['a', '0', '(', ')', '\u{8}', '\u{e}', '\u{200b}', '\u{feff}', '\u{0}'] {
        assert!(!is_space(c));
    }
    for code in 0u32..0x3100 {
        if let Some(c) = char::from_u32(code) {
            assert_eq!(is_space(c), c.is_whitespace());
        }
    }
    let chars: Vec<char> = "  \t x ".chars().collect();
    assert_eq!(skip_spaces(&chars, 0), 4);
    assert_eq!(skip_spaces(&chars, 4), 4);
    assert_eq!(skip_spaces(&chars, 5), 6);
    assert_eq!(skip_spaces(&chars, 6), 6);
}
