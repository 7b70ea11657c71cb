use proc_macro2::{Delimiter as PmDelimiter, Group, Ident, Literal, Punct, Spacing, Span, TokenStream, TokenTree};
use spar_rust::codegen::{codegen, gen_replicate, resolve_num_workers, LowerError, NumWorkers, Replication, WorkersWarning};
use spar_rust::spar_stream::SparStream;
use spar_rust::token::{Delimiter, Token};

fn delimiter(d: PmDelimiter) -> Delimiter {
    match d {
        PmDelimiter::Parenthesis => Delimiter::Parenthesis,
        PmDelimiter::Brace => Delimiter::Brace,
        PmDelimiter::Bracket => Delimiter::Bracket,
        PmDelimiter::None => Delimiter::Invisible,
    }
}

fn pm_delimiter(d: Delimiter) -> PmDelimiter {
    match d {
        Delimiter::Parenthesis => PmDelimiter::Parenthesis,
        Delimiter::Brace => PmDelimiter::Brace,
        Delimiter::Bracket => PmDelimiter::Bracket,
        Delimiter::Invisible => PmDelimiter::None,
    }
}

fn flatten_into(ts: TokenStream, out: &mut Vec<Token>) {
    for tt in ts {
        match tt {
            TokenTree::Group(g) => {
                out.push(Token::Open(delimiter(g.delimiter())));
                flatten_into(g.stream(), out);
                out.push(Token::Close(delimiter(g.delimiter())));
            }
            TokenTree::Ident(i) => out.push(Token::Ident(i.to_string())),
            TokenTree::Punct(p) => out.push(Token::Punct(p.as_char(), p.spacing() == Spacing::Joint)),
            TokenTree::Literal(l) => out.push(Token::Literal(l.to_string())),
        }
    }
}

fn tokens(src: &str) -> Vec<Token> {
    let ts: TokenStream = src.parse().unwrap();
    let mut v = Vec::new();
    flatten_into(ts, &mut v);
    v
}

fn render(toks: &[Token]) -> String {
    let mut stack: Vec<(PmDelimiter, TokenStream)> = vec![(PmDelimiter::None, TokenStream::new())];
    for t in toks {
        let tt: TokenTree = match t {
            Token::Ident(s) => Ident::new(s, Span::call_site()).into(),
            Token::Punct(c, j) => {
                Punct::new(*c, if *j { Spacing::Joint } else { Spacing::Alone }).into()
            }
            Token::Literal(s) => s.parse::<Literal>().unwrap().into(),
            Token::Open(d) => {
                stack.push((pm_delimiter(*d), TokenStream::new()));
                continue;
            }
            Token::Close(_) => {
                let (d, inner) = stack.pop().unwrap();
                Group::new(d, inner).into()
            }
        };
        stack.last_mut().unwrap().1.extend(std::iter::once(tt));
    }
    stack.pop().unwrap().1.to_string()
}

fn text(src: &str) -> String {
    src.parse::<TokenStream>().unwrap().to_string()
}

fn squash(s: &str) -> String {
    s.chars().filter(|c| !c.is_whitespace()).collect()
}

fn lower(src: &str, workers: Option<u32>) -> Result<String, LowerError> {
    let v = tokens(src);
    let stream = SparStream::try_from(&v).unwrap();
    codegen(stream, workers).map(|out| squash(&render(&out)))
}

const ONE_STAGE: &str =
    "INPUT(a: u32), OUTPUT(b: u32), { STAGE(INPUT(a: u32), OUTPUT(b: u32), REPLICATE = 1, { b = a + 1 }); }";

#[test]
fn one_stage_lowers_to_one_worker() {
    // One worker handing back the stream's output: it runs in the collector,
    // whose value is the block's.
    let out = lower(ONE_STAGE, None).unwrap();
    let expected = "{ use rust_spp::*;
        let spar_pipeline = rust_spp::pipeline![collect!()];
        spar_pipeline.post((a)).unwrap();
        struct Collector { output: (u32) }
        impl Collector {
            fn new(output: (u32)) -> Self { Self { output } }
            fn process(&mut self, input: (u32), order: u64) {
                let (mut a) = input; let (mut b) = self.output; b = a + 1; self.output = (b);
            }
        }
        let spar_output = spar_pipeline.collect();
        let mut spar_collector = Collector::new((b));
        for (i, output) in spar_output.into_iter().enumerate() { spar_collector.process(output, i as u64); }
        spar_collector.output
    }";
    assert_eq!(out, squash(expected));
}

#[test]
fn replicated_stage_gets_its_workers() {
    let src = "INPUT(a: u32), OUTPUT(b: u32), { STAGE(INPUT(a: u32), OUTPUT(b: u32), REPLICATE = 4, { b = a + 1 }); }";
    let out = lower(src, None).unwrap();
    let expected = "{ use rust_spp::*;
        struct SparStage1 {} impl SparStage1 { fn new() -> Self { Self {} } }
        impl rust_spp::blocks::inout_block::InOut<(u32), (u32)> for SparStage1 {
            fn process(&mut self, input: (u32)) -> Option<(u32)> { let (mut a) = input; b = a + 1; Some((b)) }
        }
        let spar_pipeline = rust_spp::pipeline![rust_spp::parallel!(SparStage1::new(), 4), collect!()];
        spar_pipeline.post((a)).unwrap();
    }";
    assert_eq!(out, squash(expected));
}

const TWO_STAGES: &str = "INPUT(vec: Vec<u64>, result: Vec<Vec<u64>>), {
    let mut vec_slice = &mut vec[0..];
    for _ in 0..10 {
        let split = vec_slice.split_at_mut(10);
        vec_slice = split.1;
        let input = split.0.to_vec();
        STAGE(INPUT(input: Vec<u64>), OUTPUT(input: Vec<u64>), REPLICATE = 9, {
            for i in input.iter_mut() { *i = *i + 1; }
        });
        STAGE(INPUT(input: Vec<u64>, result: Vec<Vec<u64>>), REPLICATE = 9, {
            input.sort();
            result.push(input);
        });
    }
}";

#[test]
fn two_replicated_stages() {
    let out = lower(TWO_STAGES, None).unwrap();
    assert!(out.contains(&squash("rust_spp::pipeline![rust_spp::parallel!(SparStage1::new(), 9), rust_spp::parallel!(SparStage2::new(), 9), collect!()];")));
    assert!(out.contains(&squash("let input = split.0.to_vec(); spar_pipeline.post((input)).unwrap(); }")));
    assert!(out.contains(&squash("impl rust_spp::blocks::inout_block::InOut<(Vec<u64>), (Vec<u64>)> for SparStage1")));
    assert!(out.contains(&squash("impl rust_spp::blocks::in_block::In<(Vec<u64>, Vec<Vec<u64>>)> for SparStage2")));
    assert!(!out.contains("Collector"));
}

#[test]
fn override_replaces_declared_count() {
    let out = lower(TWO_STAGES, Some(3)).unwrap();
    assert!(out.contains(&squash("rust_spp::parallel!(SparStage1::new(), 3)")));
    assert!(out.contains(&squash("rust_spp::parallel!(SparStage2::new(), 3)")));
    assert!(!out.contains(&squash("::new(), 9)")));
}

#[test]
fn override_applies_to_a_single_stage() {
    let src = "INPUT(a: u32), { STAGE(INPUT(a: u32), REPLICATE = 9, { f(a); }); }";
    let out = lower(src, Some(3)).unwrap();
    assert!(out.contains(&squash("rust_spp::pipeline![rust_spp::parallel!(SparStage1::new(), 3), collect!()];")));
    assert!(!out.contains("Collector"));
    let out = lower(src, None).unwrap();
    assert!(out.contains(&squash("rust_spp::pipeline![rust_spp::parallel!(SparStage1::new(), 9), collect!()];")));
}

#[test]
fn first_stage_holding_the_marker_is_still_checked() {
    let src = "INPUT(a: u32), { STAGE(OUTPUT(b: u32), { __SPAR_MARKER__ }); STAGE(INPUT(b: u32), { }); }";
    assert_eq!(lower(src, None), Err(LowerError::StageWithoutInput(1)));
}

#[test]
fn replication_rules() {
    assert_eq!(gen_replicate(Some(9), Some(3)), Replication::Parallel(3));
    assert_eq!(gen_replicate(None, Some(3)), Replication::Parallel(3));
    assert_eq!(gen_replicate(Some(9), None), Replication::Parallel(9));
    assert_eq!(gen_replicate(None, None), Replication::Sequential);
}

#[test]
fn stage_without_input_is_rejected() {
    let r = lower("INPUT(a: u32), { STAGE(INPUT(a: u32), OUTPUT(b: u32), { }); STAGE(OUTPUT(c: u32), { }); }", None);
    assert_eq!(r, Err(LowerError::StageWithoutInput(2)));
    let r = lower("INPUT(a: u32), { STAGE(REPLICATE = 2, { }); }", None);
    assert_eq!(r, Err(LowerError::StageWithoutInput(1)));
}

#[test]
fn stream_without_stages_is_rejected() {
    assert_eq!(lower("INPUT(a: u32), { }", None), Err(LowerError::NoStage));
}

#[test]
fn sequential_when_nothing_is_declared() {
    let out = lower("INPUT(a: u32), OUTPUT(z: u32), { STAGE(INPUT(a: u32), OUTPUT(c: u32), { let c = a; }); STAGE(INPUT(c: u32), { }); }", None).unwrap();
    assert!(out.contains(&squash("rust_spp::sequential!(SparStage1::new()), rust_spp::sequential!(SparStage2::new()), collect!()")));
}

#[test]
fn ordered_collection() {
    let out = lower("INPUT(a: u32), ORDERED, { STAGE(INPUT(a: u32), REPLICATE = 4, { }); }", None).unwrap();
    assert!(out.contains(&squash("rust_spp::pipeline![rust_spp::parallel!(SparStage1::new(), 4), collect_ordered!()];")));
    let out = lower("INPUT(a: u32), { STAGE(INPUT(a: u32), REPLICATE = 4, { }); }", None).unwrap();
    assert!(out.contains(&squash("rust_spp::pipeline![rust_spp::parallel!(SparStage1::new(), 4), collect!()];")));
}

#[test]
fn last_stage_runs_in_collector() {
    let out = lower("INPUT(a: u32), OUTPUT(b: u32), { STAGE(INPUT(a: u32), OUTPUT(b: u32), { let b = a; }); }", None).unwrap();
    let expected = "{ use rust_spp::*;
        let spar_pipeline = rust_spp::pipeline![collect!()];
        spar_pipeline.post((a)).unwrap();
        struct Collector { output: (u32) }
        impl Collector {
            fn new(output: (u32)) -> Self { Self { output } }
            fn process(&mut self, input: (u32), order: u64) {
                let (mut a) = input; let (mut b) = self.output; let b = a; ; self.output = (b);
            }
        }
        let spar_output = spar_pipeline.collect();
        let mut spar_collector = Collector::new((b));
        for (i, output) in spar_output.into_iter().enumerate() { spar_collector.process(output, i as u64); }
        spar_collector.output
    }";
    assert_eq!(out, squash(expected));
}

#[test]
fn dispatcher_replaces_every_marker() {
    let out = lower("INPUT(v: Vec<u32>), { if v.is_empty() { STAGE(INPUT(x: u32), { }); } }", None).unwrap();
    assert!(out.contains(&squash("if v.is_empty() { spar_pipeline.post((x)).unwrap(); }")));
    assert!(!out.contains("__SPAR_MARKER__"));
}

#[test]
fn worker_count_override_values() {
    assert_eq!(resolve_num_workers(None), NumWorkers { workers: None, warning: None });
    assert_eq!(resolve_num_workers(Some("3")), NumWorkers { workers: Some(3), warning: None });
    assert_eq!(resolve_num_workers(Some("+3")), NumWorkers { workers: Some(3), warning: None });
    assert_eq!(
        resolve_num_workers(Some("0")),
        NumWorkers { workers: None, warning: Some(WorkersWarning::NotPositive) }
    );
    assert_eq!(
        resolve_num_workers(Some("-2")),
        NumWorkers { workers: None, warning: Some(WorkersWarning::Invalid) }
    );
    assert_eq!(
        resolve_num_workers(Some("three")),
        NumWorkers { workers: None, warning: Some(WorkersWarning::Invalid) }
    );
}
