use rusp::reader::Reader;
use rusp::types::RuspAtom::{Float, Int, Keyword, Symbol};
use rusp::types::RuspErr;
use rusp::types::RuspExp;
use rusp::types::RuspExp::{Atom, Cons};

fn nil() -> RuspExp {
    Atom(Symbol("nil".to_string()))
}

fn float_of(exp: &RuspExp) -> f64 {
    match exp {
        Atom(Float(text)) => text.parse::<f64>().unwrap(),
        other => panic!("not a float: {:?}", other),
    }
}

#[test]
fn test_read_atom() {
    let input = "";
    let mut reader = Reader::new(input);
    let exp = reader.read().unwrap_err();
    assert_eq!(exp.to_string(), RuspErr::ReaderEofError.to_string());

    let input = "   ";
    let mut reader = Reader::new(input);
    let exp = reader.read().unwrap_err();
    assert_eq!(exp.to_string(), RuspErr::ReaderEofError.to_string());

    let input = "42";
    let mut reader = Reader::new(input);
    let exp = reader.read().unwrap();
    assert_eq!(exp, Atom(Int(42)));

    let input = "42.3";
    let mut reader = Reader::new(input);
    let exp = reader.read().unwrap();
    assert_eq!(exp, Atom(Float("42.3".to_string())));
    assert_eq!(float_of(&exp), 42.3);

    let input = "   42.3";
    let mut reader = Reader::new(input);
    let exp = reader.read().unwrap();
    assert_eq!(exp, Atom(Float("42.3".to_string())));
    assert_eq!(float_of(&exp), 42.3);

    let input = "a";
    let mut reader = Reader::new(input);
    let exp = reader.read().unwrap();
    assert_eq!(exp, Atom(Symbol('a'.to_string())));

    let input = "   a";
    let mut reader = Reader::new(input);
    let exp = reader.read().unwrap();
    assert_eq!(exp, Atom(Symbol('a'.to_string())));

    let input = "1+";
    let mut reader = Reader::new(input);
    let exp = reader.read().unwrap();
    assert_eq!(exp, Atom(Symbol("1+".to_string())));
}

#[test]
fn test_read_cons() {
    let input = "()";
    let mut reader = Reader::new(input);
    let exp = reader.read().unwrap();
    assert_eq!(exp, nil());

    let input = "(1 2 3)";
    let mut reader = Reader::new(input);
    let exp = reader.read().unwrap();
    assert_eq!(
        exp,
        Cons {
            car: Box::new(Atom(Int(1))),
            cdr: Box::new(Cons {
                car: Box::new(Atom(Int(2))),
                cdr: Box::new(Cons {
                    car: Box::new(Atom(Int(3))),
                    cdr: Box::new(nil()),
                }),
            }),
        }
    );

    let input = "(1 2 . 3)";
    let mut reader = Reader::new(input);
    let exp = reader.read().unwrap();
    assert_eq!(
        exp,
        Cons {
            car: Box::new(Atom(Int(1))),
            cdr: Box::new(Cons {
                car: Box::new(Atom(Int(2))),
                cdr: Box::new(Atom(Int(3))),
            }),
        }
    );

    let input = "(1 2 . 3";
    let mut reader = Reader::new(input);
    let exp = reader.read().unwrap_err();
    assert_eq!(exp.to_string(), RuspErr::ReaderEofError.to_string());
}

#[test]
fn read_keyword_and_quote() {
    let exp = Reader::new(":key").read().unwrap();
    assert_eq!(exp, Atom(Keyword("key".to_string())));
    let exp = Reader::new("'a").read().unwrap();
    assert_eq!(exp.to_string(), "'a");
    let exp = Reader::new("(quote a)").read().unwrap();
    assert_eq!(exp, Reader::new("'a").read().unwrap());
}
