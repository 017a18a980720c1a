#![allow(non_snake_case)]

use dna::Nuc;
use dna::ParseNucError;

#[test]
fn tryfrom_char_A() {
    let nucTryFromA = Nuc::try_from('A');
    match nucTryFromA {
        Ok(x) => assert_eq!(x, Nuc::A),
        Err(e) => println!(" {e:?} error is returned"),
    }
}

#[test]
fn tryfrom_char_C() {
    let nucTryFromC = Nuc::try_from('C');
    match nucTryFromC {
        Ok(x) => assert_eq!(x, Nuc::C),
        Err(e) => println!(" {e:?} error is returned"),
    }
}

#[test]
fn tryfrom_char_G() {
    let nucTryFromG = Nuc::try_from('G');
    match nucTryFromG {
        Ok(x) => assert_eq!(x, Nuc::G),
        Err(e) => println!(" {e:?} error is returned"),
    }
}

#[test]
fn tryfrom_char_T() {
    let nucTryFromT = Nuc::try_from('T');
    match nucTryFromT {
        Ok(x) => assert_eq!(x, Nuc::T),
        Err(e) => println!(" {e:?} error is returned"),
    }
}

#[test]
fn fromstr_a() {
    let nucFromStrA = Nuc::from_str("a");
    match nucFromStrA {
        Ok(x) => assert_eq!(x, Nuc::A),
        Err(e) => println!(" {e:?} error is returned"),
    }
}

#[test]
fn fromstr_c() {
    let nucFromStrC = Nuc::from_str("c");
    match nucFromStrC {
        Ok(x) => assert_eq!(x, Nuc::C),
        Err(e) => println!(" {e:?} error is returned"),
    }
}

#[test]
fn fromstr_g() {
    let nucFromStrG = Nuc::from_str("g");
    match nucFromStrG {
        Ok(x) => assert_eq!(x, Nuc::G),
        Err(e) => println!(" {e:?} error is returned"),
    }
}

#[test]
fn fromstr_t() {
    let nucFromStrT = Nuc::from_str("t");
    match nucFromStrT {
        Ok(x) => assert_eq!(x, Nuc::T),
        Err(e) => println!(" {e:?} error is returned"),
    }
}

#[test]
fn parse_char_accepts_all_eight_letters() {
    let cases = [
        ('A', Nuc::A),
        ('a', Nuc::A),
        ('C', Nuc::C),
        ('c', Nuc::C),
        ('G', Nuc::G),
        ('g', Nuc::G),
        ('T', Nuc::T),
        ('t', Nuc::T),
    ];
    for (c, expected) in cases {
        match Nuc::try_from(c) {
            Ok(n) => assert_eq!(n, expected),
            Err(_) => panic!("valid character rejected"),
        }
    }
}

#[test]
fn parse_char_rejects_everything_else() {
    for c in ['X', 'x', 'U', 'u', 'N', ' ', '1', '@', 'Z'] {
        match Nuc::try_from(c) {
            Ok(_) => panic!("invalid character accepted"),
            Err(ParseNucError(unit)) => assert_eq!(unit, c),
        }
    }
}

#[test]
fn parse_str_rejects_with_uppercased_token() {
    match Nuc::from_str("q") {
        Ok(_) => panic!("invalid token accepted"),
        Err(ParseNucError(unit)) => assert_eq!(unit, "Q"),
    }
    match Nuc::from_str("ac") {
        Ok(_) => panic!("two-character token accepted"),
        Err(ParseNucError(unit)) => assert_eq!(unit, "AC"),
    }
    match Nuc::from_str("") {
        Ok(_) => panic!("empty token accepted"),
        Err(ParseNucError(unit)) => assert_eq!(unit, ""),
    }
}

#[test]
fn code_round_trip() {
    for n in [Nuc::A, Nuc::C, Nuc::G, Nuc::T] {
        let code = n.code();
        assert!(code < 4);
        assert_eq!(Nuc::from_code(code), n);
    }
    assert_eq!(Nuc::A.code(), 0);
    assert_eq!(Nuc::C.code(), 1);
    assert_eq!(Nuc::G.code(), 2);
    assert_eq!(Nuc::T.code(), 3);
}
