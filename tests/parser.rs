use proc_macro2::{Delimiter as PmDelimiter, Group, Ident, Literal, Punct, Spacing, Span, TokenStream, TokenTree};
use spar_rust::spar_stream::{parse_spar_stages, ErrorKind, SparAttrs, SparStage, SparStream, SparVar};
use spar_rust::token::{Delimiter, Token};

fn delimiter(d: PmDelimiter) -> Delimiter {
    match d {
        PmDelimiter::Parenthesis => Delimiter::Parenthesis,
        PmDelimiter::Brace => Delimiter::Brace,
        PmDelimiter::Bracket => Delimiter::Bracket,
        PmDelimiter::None => Delimiter::Invisible,
    }
}

fn pm_delimiter(d: Delimiter) -> PmDelimiter {
    match d {
        Delimiter::Parenthesis => PmDelimiter::Parenthesis,
        Delimiter::Brace => PmDelimiter::Brace,
        Delimiter::Bracket => PmDelimiter::Bracket,
        Delimiter::Invisible => PmDelimiter::None,
    }
}

fn flatten_into(ts: TokenStream, out: &mut Vec<Token>) {
    for tt in ts {
        match tt {
            TokenTree::Group(g) => {
                out.push(Token::Open(delimiter(g.delimiter())));
                flatten_into(g.stream(), out);
                out.push(Token::Close(delimiter(g.delimiter())));
            }
            TokenTree::Ident(i) => out.push(Token::Ident(i.to_string())),
            TokenTree::Punct(p) => out.push(Token::Punct(p.as_char(), p.spacing() == Spacing::Joint)),
            TokenTree::Literal(l) => out.push(Token::Literal(l.to_string())),
        }
    }
}

fn tokens(src: &str) -> Vec<Token> {
    let ts: TokenStream = src.parse().unwrap();
    let mut v = Vec::new();
    flatten_into(ts, &mut v);
    v
}

fn render(toks: &[Token]) -> String {
    let mut stack: Vec<(PmDelimiter, TokenStream)> = vec![(PmDelimiter::None, TokenStream::new())];
    for t in toks {
        let tt: TokenTree = match t {
            Token::Ident(s) => Ident::new(s, Span::call_site()).into(),
            Token::Punct(c, j) => {
                Punct::new(*c, if *j { Spacing::Joint } else { Spacing::Alone }).into()
            }
            Token::Literal(s) => s.parse::<Literal>().unwrap().into(),
            Token::Open(d) => {
                stack.push((pm_delimiter(*d), TokenStream::new()));
                continue;
            }
            Token::Close(_) => {
                let (d, inner) = stack.pop().unwrap();
                Group::new(d, inner).into()
            }
        };
        stack.last_mut().unwrap().1.extend(std::iter::once(tt));
    }
    stack.pop().unwrap().1.to_string()
}

fn text(src: &str) -> String {
    src.parse::<TokenStream>().unwrap().to_string()
}

fn vars(v: &[SparVar]) -> Vec<(String, String)> {
    v.iter().map(|x| (x.identifier.clone(), render(&x.var_type))).collect()
}

fn expect_vars(list: &[(&str, &str)]) -> Vec<(String, String)> {
    list.iter().map(|(a, b)| (a.to_string(), text(b))).collect()
}

fn stages_of(src: &str) -> Vec<SparStage> {
    let v = tokens(src);
    parse_spar_stages(&v, 0).unwrap().0
}

fn stage_error(src: &str) -> ErrorKind {
    let v = tokens(src);
    parse_spar_stages(&v, 0).unwrap_err().kind
}

const DUMMY: &str = "let mut a = 10; while true { a += 1; }";
const LOOP: &str = "while true { a += 1; }";
const LOOP3: &str = "while true { a += 1; b += 2, c += 3; }";

#[test]
fn top_level_code() {
    let v = tokens("let mut a = 10; while true { a += 1; STAGE({ let b = 10; }); }");
    let (_, code) = parse_spar_stages(&v, 0).unwrap();
    assert_eq!(
        text("let mut a = 10; while true { a += 1; __SPAR_MARKER__ }"),
        render(&code)
    );
}

#[test]
fn stage_no_attributes() {
    let mut stages = stages_of(&format!("STAGE({{ {} }});", DUMMY));
    assert_eq!(stages.len(), 1);
    let stage = stages.pop().unwrap();
    assert!(stage.attrs.input.is_empty());
    assert!(stage.attrs.output.is_empty());
    assert_eq!(stage.attrs.replicate, None);
    assert_eq!(render(&stage.code), text(DUMMY));
}

#[test]
fn stage_with_input() {
    let mut stages = stages_of(&format!("STAGE(INPUT(a: u32), {{ {} }});", LOOP));
    assert_eq!(stages.len(), 1);
    let input = vec![SparVar::new("a".to_string(), tokens("u32"))];
    let expected_attrs = SparAttrs::new(input, vec![], None);
    assert_eq!(stages.pop().unwrap(), SparStage::new(expected_attrs, tokens(LOOP), 0));
}

#[test]
fn stage_with_multiple_inputs() {
    let mut stages = stages_of(&format!("STAGE(INPUT(a: u32, b: u32, c: u32), {{ {} }});", LOOP3));
    assert_eq!(stages.len(), 1);
    let stage = stages.pop().unwrap();
    assert_eq!(
        vars(&stage.attrs.input),
        expect_vars(&[("a", "u32"), ("b", "u32"), ("c", "u32")])
    );
    assert!(stage.attrs.output.is_empty());
    assert_eq!(stage.attrs.replicate, None);
    assert_eq!(render(&stage.code), text(LOOP3));
}

#[test]
fn stage_with_output() {
    let mut stages = stages_of(&format!("STAGE(OUTPUT(a: u32), {{ {} }});", LOOP));
    assert_eq!(stages.len(), 1);
    let stage = stages.pop().unwrap();
    assert!(stage.attrs.input.is_empty());
    assert_eq!(vars(&stage.attrs.output), expect_vars(&[("a", "u32")]));
    assert_eq!(stage.attrs.replicate, None);
    assert_eq!(render(&stage.code), text(LOOP));
}

#[test]
fn stage_with_multiple_outputs() {
    let mut stages = stages_of(&format!("STAGE(OUTPUT(a: u32, b: u32, c: u32), {{ {} }});", LOOP3));
    assert_eq!(stages.len(), 1);
    let stage = stages.pop().unwrap();
    assert!(stage.attrs.input.is_empty());
    assert_eq!(
        vars(&stage.attrs.output),
        expect_vars(&[("a", "u32"), ("b", "u32"), ("c", "u32")])
    );
    assert_eq!(stage.attrs.replicate, None);
    assert_eq!(render(&stage.code), text(LOOP3));
}

#[test]
fn stage_with_replicate() {
    let mut stages = stages_of(&format!("STAGE(REPLICATE = 5, {{ {} }});", DUMMY));
    assert_eq!(stages.len(), 1);
    let stage = stages.pop().unwrap();
    assert!(stage.attrs.input.is_empty());
    assert!(stage.attrs.output.is_empty());
    assert_eq!(stage.attrs.replicate, Some(5));
    assert_eq!(render(&stage.code), text(DUMMY));
}

#[test]
fn multiple_stages() {
    let mut stages = stages_of(
        "STAGE({});
         STAGE(INPUT(a: u32), OUTPUT(b: u32), {});
         STAGE(INPUT(c: u32, d: u32), OUTPUT(e: u32, f: u32, g: u32), {});
         STAGE(INPUT(h: u32), OUTPUT(i: u32), REPLICATE = 5, {});",
    );
    assert_eq!(stages.len(), 4);
    stages.reverse();

    let s = stages.pop().unwrap();
    assert!(s.attrs.input.is_empty() && s.attrs.output.is_empty() && s.attrs.replicate.is_none());
    assert!(s.code.is_empty());

    let s = stages.pop().unwrap();
    assert_eq!(vars(&s.attrs.input), expect_vars(&[("a", "u32")]));
    assert_eq!(vars(&s.attrs.output), expect_vars(&[("b", "u32")]));
    assert_eq!(s.attrs.replicate, None);
    assert!(s.code.is_empty());

    let s = stages.pop().unwrap();
    assert_eq!(vars(&s.attrs.input), expect_vars(&[("c", "u32"), ("d", "u32")]));
    assert_eq!(
        vars(&s.attrs.output),
        expect_vars(&[("e", "u32"), ("f", "u32"), ("g", "u32")])
    );
    assert_eq!(s.attrs.replicate, None);
    assert!(s.code.is_empty());

    let s = stages.pop().unwrap();
    assert_eq!(vars(&s.attrs.input), expect_vars(&[("h", "u32")]));
    assert_eq!(vars(&s.attrs.output), expect_vars(&[("i", "u32")]));
    assert_eq!(s.attrs.replicate, Some(5));
    assert!(s.code.is_empty());
}

#[test]
fn complex_type() {
    let stages = stages_of("STAGE(INPUT(a: Vec<(u32, &'a mut u32)>), {});");
    assert_eq!(
        render(&stages[0].attrs.input[0].var_type),
        text("Vec<(u32, &'a mut u32)>")
    );
}

#[test]
fn input_cannot_be_a_literal() {
    assert_eq!(stage_error("STAGE(INPUT(10), {});"), ErrorKind::ExpectedVariable);
}

#[test]
fn input_cannot_be_empty() {
    assert_eq!(stage_error("STAGE(INPUT(), {});"), ErrorKind::EmptyInput);
}

#[test]
fn output_cannot_be_empty() {
    assert_eq!(stage_error("STAGE(OUTPUT(), {});"), ErrorKind::EmptyOutput);
}

#[test]
fn forgot_comma() {
    assert_eq!(stage_error("STAGE(REPLICATE = 4 {});"), ErrorKind::ExpectedComma);
}

#[test]
fn should_not_have_code_after_stages() {
    let v = tokens("STAGE(REPLICATE = 4 {}); let a = 5;");
    assert!(parse_spar_stages(&v, 0).is_err());
    let v = tokens("STAGE(REPLICATE = 4, {}); let a = 5;");
    assert_eq!(parse_spar_stages(&v, 0).unwrap_err().kind, ErrorKind::ExpectedStage);
}

// Errors of the attribute grammar, one input each.

#[test]
fn repeated_variable_name_is_refused() {
    assert_eq!(
        stage_error("STAGE(INPUT(a: u32, a: u32), {});"),
        ErrorKind::DuplicateVariable
    );
    assert_eq!(
        stage_error("STAGE(INPUT(a: u32), OUTPUT(b: u32, c: u8, b: u32), {});"),
        ErrorKind::DuplicateVariable
    );
}

#[test]
fn parsed_names_are_unique() {
    let stages = stages_of("STAGE(INPUT(a: u32, b: u32), OUTPUT(a: u32, b: u32), {});");
    let names: Vec<String> = stages[0].attrs.input.iter().map(|v| v.identifier.clone()).collect();
    assert_eq!(names, vec!["a".to_string(), "b".to_string()]);
}

#[test]
fn repeated_clauses_are_refused() {
    assert_eq!(stage_error("STAGE(INPUT(a), INPUT(b), {});"), ErrorKind::DuplicateInput);
    assert_eq!(stage_error("STAGE(OUTPUT(a), OUTPUT(b), {});"), ErrorKind::DuplicateOutput);
    assert_eq!(
        stage_error("STAGE(REPLICATE = 2, REPLICATE = 3, {});"),
        ErrorKind::DuplicateReplicate
    );
    assert_eq!(stage_error("STAGE(ORDERED, ORDERED, {});"), ErrorKind::DuplicateOrdered);
}

#[test]
fn replicate_zero_is_refused() {
    assert_eq!(stage_error("STAGE(REPLICATE = 0, {});"), ErrorKind::ZeroReplicate);
}

#[test]
fn replicate_reads_back_exactly() {
    for n in [1u32, 2, 9, 10, 123, 4294967295] {
        let stages = stages_of(&format!("STAGE(INPUT(a), REPLICATE = {}, {{}});", n));
        assert_eq!(stages[0].attrs.replicate, Some(n));
    }
}

#[test]
fn replicate_must_be_a_plain_number() {
    assert_eq!(stage_error("STAGE(REPLICATE = 4294967296, {});"), ErrorKind::InvalidReplicate);
    assert_eq!(stage_error("STAGE(REPLICATE = 5u32, {});"), ErrorKind::InvalidReplicate);
    assert_eq!(stage_error("STAGE(REPLICATE = n, {});"), ErrorKind::InvalidReplicate);
    assert_eq!(stage_error("STAGE(REPLICATE 5, {});"), ErrorKind::InvalidReplicate);
}

#[test]
fn other_syntax_errors() {
    assert_eq!(stage_error("STAGE INPUT(a), {};"), ErrorKind::ExpectedParenthesis);
    assert_eq!(stage_error("STAGE(INPUT a, {});"), ErrorKind::ExpectedParenthesis);
    assert_eq!(stage_error("STAGE(INPUT(a: ), {});"), ErrorKind::ExpectedType);
    assert_eq!(stage_error("STAGE(INPUT(a u32), {});"), ErrorKind::ExpectedColon);
    assert_eq!(stage_error("STAGE(WORKERS = 2, {});"), ErrorKind::UnexpectedToken);
    assert_eq!(stage_error("STAGE(INPUT(a), {} x);"), ErrorKind::TrailingTokens);
    assert_eq!(stage_error("STAGE(INPUT(a),);"), ErrorKind::MissingBlock);
    assert_eq!(stage_error("STAGE(INPUT(a), {})"), ErrorKind::ExpectedSemicolon);
}

#[test]
fn untyped_variables_and_ordered() {
    let stages = stages_of("STAGE(INPUT(a, b: u8), ORDERED, { a += 1; });");
    assert_eq!(vars(&stages[0].attrs.input), vec![("a".to_string(), String::new()), ("b".to_string(), text("u8"))]);
    assert!(stages[0].attrs.ordered);
}

#[test]
fn nothing_may_follow_a_block() {
    assert_eq!(stage_error("STAGE(INPUT(a), { a += 1; },);"), ErrorKind::TrailingTokens);
    let v = tokens("INPUT(a: u32), { } ,");
    assert_eq!(SparStream::try_from(&v).unwrap_err().kind, ErrorKind::TrailingTokens);
}

#[test]
fn code_after_the_stages_group_is_kept() {
    let v = tokens("let x = 1; for i in 0..3 { STAGE(INPUT(i: u32), { f(i); }); } cleanup(x);");
    let (stages, code) = parse_spar_stages(&v, 0).unwrap();
    assert_eq!(stages.len(), 1);
    assert_eq!(
        render(&code),
        text("let x = 1; for i in 0..3 { __SPAR_MARKER__ } cleanup(x);")
    );
}

#[test]
fn stages_must_stand_together() {
    let v = tokens("for i in 0..3 { STAGE(INPUT(i: u32), { }); } for j in 0..3 { STAGE(INPUT(j: u32), { }); }");
    let e = parse_spar_stages(&v, 0).unwrap_err();
    assert_eq!(e.kind, ErrorKind::ScatteredStages);
    assert_eq!(v[e.pos], Token::Ident("STAGE".to_string()));
}

#[test]
fn stages_compare_by_attributes_and_code() {
    let a = stages_of("STAGE(INPUT(a: u32), OUTPUT(b: u32), { b = a; }); STAGE(INPUT(a: u32), OUTPUT(b: u32), { b = a; });");
    assert_eq!(a[0], a[1]);
    assert_ne!(a[0].id, a[1].id);
    let b = stages_of("STAGE(INPUT(a: u64), OUTPUT(b: u32), { b = a; });");
    assert_ne!(a[0], b[0]);
    assert!(a[0].attrs.input[0] != b[0].attrs.input[0]);
}

#[test]
fn error_messages() {
    let v = tokens("STAGE(INPUT(), {});");
    let e = parse_spar_stages(&v, 0).unwrap_err();
    assert_eq!(e.message(), "INPUT cannot be empty");
    let v = tokens("STAGE(WORKERS = 2, {});");
    let e = parse_spar_stages(&v, 0).unwrap_err();
    assert_eq!(
        e.message(),
        "unexpected token. Valid tokens are 'INPUT(args)', 'OUTPUT(args)', 'REPLICATE = N', 'ORDERED' and a code block"
    );
}

#[test]
fn stage_inside_nested_blocks() {
    let v = tokens(
        "let x = 1; for i in 0..3 { if i > 0 { match i { _ => { STAGE(INPUT(i: u32), { f(i); }); } } } }",
    );
    let (stages, code) = parse_spar_stages(&v, 0).unwrap();
    assert_eq!(stages.len(), 1);
    assert_eq!(stages[0].id, 1);
    assert_eq!(
        render(&code),
        text("let x = 1; for i in 0..3 { if i > 0 { match i { _ => { __SPAR_MARKER__ } } } }")
    );
}

#[test]
fn stream_with_leading_code() {
    let v = tokens(
        "INPUT(vec: Vec<u32>), { let n = 2; for _ in 0..n { let input = vec.clone(); STAGE(INPUT(input: Vec<u32>), OUTPUT(input: Vec<u32>), { input.sort(); }); STAGE(INPUT(input: Vec<u32>), { }); } }",
    );
    let stream = SparStream::try_from(&v).unwrap();
    assert_eq!(stream.stages.len(), 3);
    assert_eq!(stream.stages[0].id, 0);
    assert_eq!(vars(&stream.stages[0].attrs.input), expect_vars(&[("vec", "Vec<u32>")]));
    assert_eq!(vars(&stream.stages[0].attrs.output), expect_vars(&[("input", "Vec<u32>")]));
    assert_eq!(stream.stages[1].id, 1);
    assert_eq!(stream.stages[2].id, 2);
}

#[test]
fn stream_without_leading_code() {
    let v = tokens("INPUT(a: u32), OUTPUT(b: u32), { STAGE(INPUT(a: u32), OUTPUT(b: u32), { b = a + 1 }); }");
    let stream = SparStream::try_from(&v).unwrap();
    assert_eq!(stream.stages.len(), 1);
    assert_eq!(stream.stages[0].id, 1);
    assert_eq!(vars(&stream.attrs.output), expect_vars(&[("b", "u32")]));
}

#[test]
fn stream_trailing_tokens_are_refused() {
    let v = tokens("INPUT(a: u32), { } extra");
    let e = SparStream::try_from(&v).unwrap_err();
    assert_eq!(e.kind, ErrorKind::TrailingTokens);
    assert_eq!(e.pos, 9);
    assert!(!e.message().is_empty());
}
