use proc_macro2::{Delimiter as PmDelimiter, Spacing, TokenStream, TokenTree};
use spar_rust::spar_stream::SparStream;
use spar_rust::token::{Delimiter, Token};

fn delimiter(d: PmDelimiter) -> Delimiter {
    match d {
        PmDelimiter::Parenthesis => Delimiter::Parenthesis,
        PmDelimiter::Brace => Delimiter::Brace,
        PmDelimiter::Bracket => Delimiter::Bracket,
        PmDelimiter::None => Delimiter::Invisible,
    }
}

fn flatten_into(ts: TokenStream, out: &mut Vec<Token>) {
    for tt in ts {
        match tt {
            TokenTree::Group(g) => {
                out.push(Token::Open(delimiter(g.delimiter())));
                flatten_into(g.stream(), out);
                out.push(Token::Close(delimiter(g.delimiter())));
            }
            TokenTree::Ident(i) => out.push(Token::Ident(i.to_string())),
            TokenTree::Punct(p) => out.push(Token::Punct(p.as_char(), p.spacing() == Spacing::Joint)),
            TokenTree::Literal(l) => out.push(Token::Literal(l.to_string())),
        }
    }
}

fn tokens(src: &str) -> Vec<Token> {
    let ts: TokenStream = src.parse().unwrap();
    let mut v = Vec::new();
    flatten_into(ts, &mut v);
    v
}

fn parses(src: &str) -> bool {
    SparStream::try_from(&tokens(src)).is_ok()
}

const CORRECT: &[&str] = &[
    "{}",
    "INPUT(a), {}",
    "INPUT(a, b), {}",
    "OUTPUT(a), {}",
    "OUTPUT(a, b), {}",
    "INPUT(a), OUTPUT(a), {}",
    "INPUT(a, b), OUTPUT(a, b), {}",
    "REPLICATE = 1, {}",
    "INPUT(a), REPLICATE = 1, {}",
    "OUTPUT(a), REPLICATE = 1, {}",
    "INPUT(a), OUTPUT(b), REPLICATE = 1, {}",
    r#"INPUT(a), {
        let c = 3;
        STAGE({
            println!("Stages");
        });
        STAGE(INPUT(a), {
            println!("MAKE SURE THE MACRO DOES NOT ERASE THIS");
            println!("TESTING TWO STATEMENTS");
        });
        STAGE(INPUT(a, c), {});
        STAGE(OUTPUT(c), {});
        STAGE(OUTPUT(a, c), {});
        STAGE(INPUT(a, c), OUTPUT(a, c), {});
        STAGE(REPLICATE = 1, {});
        STAGE(INPUT(a), REPLICATE = 1, {});
        STAGE(OUTPUT(a), REPLICATE = 1, {});
        STAGE(INPUT(a), OUTPUT(c), REPLICATE = 1, {});
    }"#,
    r#"{
        for i in 0..3 {
            STAGE(INPUT(i), {
                println!("hi: {i}");
            });
        }
    }"#,
    r#"{
        while true {
            for i in 0..3 {
                match i {
                    0 => println!("hey"),
                    1 => println!("hi"),
                    2 => {
                        for j in i..5 {
                            STAGE(INPUT(j), {
                                println!("hi from stage: {j}");
                            });
                        }
                    }
                    _ => println!("OH NO"),
                }
            }
        }
    }"#,
];

const INCORRECT: &[&str] = &[
    "INPUT(), {}",
    "OUTPUT(), {}",
    "INPUT(10), {}",
    "INPUT(a) {}",
    "REPLICATE = 0, {}",
    "INPUT(a), INPUT(b), {}",
    "INPUT(a, a), {}",
    "INPUT(a)",
    "INPUT(a), {} {}",
    "INPUT(a), { STAGE(INPUT(a), {}) }",
    "INPUT(a), { STAGE(INPUT(a), {}); let b = 1; }",
    "INPUT(a), { STAGE(INPUT(a) {}); }",
    "INPUT(a), { } ,",
    "INPUT(a), { STAGE(INPUT(a), {},); }",
    "INPUT(a), { if a { STAGE(INPUT(a), {}); } if a { STAGE(INPUT(a), {}); } }",
];

#[test]
fn should_compile() {
    for src in CORRECT {
        assert!(parses(src), "refused: {}", src);
    }
}

#[test]
fn should_not_compile() {
    for src in INCORRECT {
        assert!(!parses(src), "accepted: {}", src);
    }
}
