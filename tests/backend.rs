use spar_rust::backend::{make_tuple, Collector, CrossbeamMessenger, Emitter, Messenger};
use spar_rust::decimal::{parse_u32, push_decimal};
use spar_rust::token::Token;

fn show(toks: &[Token]) -> String {
    let mut s = String::new();
    for t in toks {
        match t {
            Token::Ident(x) | Token::Literal(x) => s.push_str(x),
            Token::Punct(c, _) => s.push(*c),
            Token::Open(d) => s.push(match d {
                spar_rust::token::Delimiter::Parenthesis => '(',
                spar_rust::token::Delimiter::Brace => '{',
                spar_rust::token::Delimiter::Bracket => '[',
                spar_rust::token::Delimiter::Invisible => ' ',
            }),
            Token::Close(d) => s.push(match d {
                spar_rust::token::Delimiter::Parenthesis => ')',
                spar_rust::token::Delimiter::Brace => '}',
                spar_rust::token::Delimiter::Bracket => ']',
                spar_rust::token::Delimiter::Invisible => ' ',
            }),
        }
        s.push(' ');
    }
    s
}

fn names(list: &[&str]) -> Vec<String> {
    list.iter().map(|s| s.to_string()).collect()
}

#[test]
fn tuple_of_identifiers() {
    assert_eq!(show(&make_tuple(&names(&["a", "b", "c"]))), "( a , b , c ) ");
    assert_eq!(show(&make_tuple(&names(&["a"]))), "( a ) ");
    assert_eq!(show(&make_tuple(&names(&[]))), "( ) ");
}

#[test]
fn channel_lifecycle() {
    let mut m = CrossbeamMessenger::new();
    let created = m.prepare();
    assert_eq!(
        show(&created),
        "let ( ( channel_messenger_sender_0 , channel_messenger_receiver_0 ) ) = crossbeam_channel : : unbounded ( ) ; "
    );
    let (mut e, mut c) = m.channel(&names(&["a", "b"]));
    assert_eq!(show(&e.emit()), "let _ = channel_messenger_sender_0 . send ( ( a , b ) ) ; ");
    assert_eq!(
        show(&e.gen_clone()),
        "let channel_messenger_sender_0 = channel_messenger_sender_0 . clone ( ) ; "
    );
    assert_eq!(
        show(&c.collect()),
        "let ( a , b ) = match channel_messenger_receiver_0 . recv ( ) { Ok ( v ) = > v , Err ( _ ) = > return , } ; "
    );
    assert_eq!(
        show(&c.gen_clone()),
        "let channel_messenger_receiver_0 = channel_messenger_receiver_0 . clone ( ) ; "
    );
    assert!(m.finish().is_empty());
    assert!(m.emitter.is_none() && m.collector.is_none());
    let created = m.prepare();
    assert!(show(&created).contains("channel_messenger_sender_1 , channel_messenger_receiver_1"));
    assert_eq!(m.id, 2);
}

#[test]
fn decimal_numerals() {
    assert_eq!(parse_u32("0"), Some(0));
    assert_eq!(parse_u32("42"), Some(42));
    assert_eq!(parse_u32("007"), Some(7));
    assert_eq!(parse_u32("4294967295"), Some(u32::MAX));
    assert_eq!(parse_u32("4294967296"), None);
    assert_eq!(parse_u32("99999999999"), None);
    assert_eq!(parse_u32(""), None);
    assert_eq!(parse_u32("1_0"), None);
    assert_eq!(parse_u32("+1"), Some(1));
    assert_eq!(parse_u32("+"), None);
    assert_eq!(parse_u32("-1"), None);
    assert_eq!(parse_u32("++1"), None);
    let mut s = String::from("n");
    push_decimal(&mut s, 1907);
    assert_eq!(s, "n1907");
    let mut s = String::new();
    push_decimal(&mut s, 0);
    assert_eq!(s, "0");
}
