//! The lowering engine: from a parsed [`SparStream`] to the tokens of a
//! block that builds and runs the pipeline.
//!
//! Each stage becomes a worker type whose `process` method runs the stage's
//! code on one input tuple; the pipeline chains them, each sequential or
//! replicated into a pool; the code before the first stage posts every unit
//! of input into the pipeline where its `STAGE` stood; and, when the last
//! stage hands back the stream's own outputs and runs as a single worker,
//! its code runs on the collected results in the caller's thread. Every
//! other stage gets its declared number of workers, or the override's.
use vstd::prelude::*;
use crate::decimal::{decimal, push_decimal};
use crate::spar_stream::{SparStage, SparStream, SparVar, StageModel, StreamModel, VarModel, marker, vars_view, stages_view, vars_equal};
use crate::token::{emit, extend_tokens, ident, joint, lemma_toks_push, punct, toks, Delimiter, Tok, Token};

verus! {

/// An identifier.
pub open spec fn id(s: Seq<char>) -> Tok {
    Tok::Ident(s)
}

/// A punctuation character standing alone.
pub open spec fn pc(c: char) -> Tok {
    Tok::Punct(c, false)
}

/// A punctuation character joined to the next one.
pub open spec fn pj(c: char) -> Tok {
    Tok::Punct(c, true)
}

/// `(`
pub open spec fn lp() -> Tok {
    Tok::Open(Delimiter::Parenthesis)
}

/// `)`
pub open spec fn rp() -> Tok {
    Tok::Close(Delimiter::Parenthesis)
}

/// `{`
pub open spec fn lb() -> Tok {
    Tok::Open(Delimiter::Brace)
}

/// `}`
pub open spec fn rb() -> Tok {
    Tok::Close(Delimiter::Brace)
}

/// How each variable of a tuple is written.
#[derive(Clone, Copy, Debug, PartialEq, Eq, Structural)]
pub enum TupleForm {
    /// `(a, b)`
    Names,
    /// `(mut a, mut b)`
    MutNames,
    /// `(A, B)`, the declared types
    Types,
}

pub open spec fn var_item(v: VarModel, f: TupleForm) -> Seq<Tok> {
    match f {
        TupleForm::Names => seq![id(v.name)],
        TupleForm::MutNames => seq![id("mut"@), id(v.name)],
        TupleForm::Types => v.ty,
    }
}

/// The items of `vars`, separated by commas.
pub open spec fn joined(vars: Seq<VarModel>, f: TupleForm) -> Seq<Tok>
    decreases vars.len(),
{
    if vars.len() == 0 {
        seq![]
    } else if vars.len() == 1 {
        var_item(vars[0], f)
    } else {
        joined(vars.drop_last(), f) + seq![pc(',')] + var_item(vars.last(), f)
    }
}

/// `( item, item, ... )`
pub open spec fn tuple(vars: Seq<VarModel>, f: TupleForm) -> Seq<Tok> {
    seq![lp()] + joined(vars, f) + seq![rp()]
}

/// Appends the tuple of `vars` in the form `f`.
pub fn push_tuple(out: &mut Vec<Token>, vars: &Vec<SparVar>, f: TupleForm)
    ensures
        toks(final(out)@) == toks(old(out)@) + tuple(vars_view(vars@), f),
{
    let ghost vs = vars_view(vars@);
    emit(out, vec![Token::Open(Delimiter::Parenthesis)]);
    assert(toks(seq![Token::Open(Delimiter::Parenthesis)]) =~= seq![lp()]);
    let ghost start = toks(out@);
    let mut j: usize = 0;
    while j < vars.len()
        invariant
            vs == vars_view(vars@),
            j <= vars.len(),
            toks(out@) == start + joined(vs.subrange(0, j as int), f),
        decreases vars.len() - j,
    {
        let ghost before = toks(out@);
        if j > 0 {
            emit(out, vec![punct(',')]);
            assert(toks(seq![Token::Punct(',', false)]) =~= seq![pc(',')]);
        }
        let ghost mid = toks(out@);
        let v = &vars[j];
        match f {
            TupleForm::Names => {
                emit(out, vec![Token::Ident(v.identifier.clone())]);
                assert(toks(out@) =~= mid + var_item(vs[j as int], f));
            },
            TupleForm::MutNames => {
                emit(out, vec![ident("mut"), Token::Ident(v.identifier.clone())]);
                assert(toks(out@) =~= mid + var_item(vs[j as int], f));
            },
            TupleForm::Types => {
                extend_tokens(out, &v.var_type);
                assert(toks(out@) =~= mid + var_item(vs[j as int], f));
            },
        }
        let ghost pre = vs.subrange(0, j as int);
        let ghost next = vs.subrange(0, j as int + 1);
        assert(next.drop_last() =~= pre);
        if j == 0 {
            assert(joined(pre, f) =~= seq![]);
            assert(toks(out@) =~= start + joined(next, f));
        } else {
            assert(toks(out@) =~= start + joined(next, f));
        }
        j = j + 1;
    }
    assert(vs.subrange(0, vars.len() as int) =~= vs);
    emit(out, vec![Token::Close(Delimiter::Parenthesis)]);
    assert(toks(out@) =~= toks(old(out)@) + tuple(vs, f));
}

/// The name of the worker type of stage `n`.
pub open spec fn stage_name(n: usize) -> Seq<char> {
    "SparStage"@ + decimal(n as nat)
}

fn stage_ident(n: usize) -> (r: Token)
    ensures
        r@ == Tok::Ident(stage_name(n)),
{
    let mut s = String::from_str("SparStage");
    push_decimal(&mut s, n as u64);
    Token::Ident(s)
}

/// `struct NAME {} impl NAME { fn new() -> Self { Self {} } }`
pub open spec fn struct_header(name: Seq<char>) -> Seq<Tok> {
    seq![
        id("struct"@), id(name), lb(), rb(),
        id("impl"@), id(name), lb(),
        id("fn"@), id("new"@), lp(), rp(), pj('-'), pc('>'), id("Self"@),
        lb(), id("Self"@), lb(), rb(), rb(),
        rb(),
    ]
}

/// `rust_spp::blocks::MODULE::TRAIT <`
pub open spec fn block_trait(module: Seq<char>, tr: Seq<char>) -> Seq<Tok> {
    seq![
        id("rust_spp"@), pj(':'), pc(':'), id("blocks"@), pj(':'), pc(':'), id(module),
        pj(':'), pc(':'), id(tr), pc('<'),
    ]
}

/// The worker of a stage with inputs and outputs: it takes one input tuple
/// and hands on one output tuple.
pub open spec fn inout_impl(name: Seq<char>, st: StageModel) -> Seq<Tok> {
    let i = st.attrs.input;
    let o = st.attrs.output;
    seq![id("impl"@)] + block_trait("inout_block"@, "InOut"@) + tuple(i, TupleForm::Types)
        + seq![pc(',')] + tuple(o, TupleForm::Types)
        + seq![
        pc('>'), id("for"@), id(name), lb(),
        id("fn"@), id("process"@), lp(), pc('&'), id("mut"@), id("self"@), pc(','), id("input"@), pc(':'),
    ] + tuple(i, TupleForm::Types) + seq![rp(), pj('-'), pc('>'), id("Option"@), pc('<')]
        + tuple(o, TupleForm::Types) + seq![pc('>'), lb(), id("let"@)]
        + tuple(i, TupleForm::MutNames) + seq![pc('='), id("input"@), pc(';')] + st.code
        + seq![pc(';'), id("Some"@), lp()] + tuple(o, TupleForm::Names) + seq![rp(), rb(), rb()]
}

/// The worker of a stage with inputs only: it takes one input tuple.
pub open spec fn in_impl(name: Seq<char>, st: StageModel) -> Seq<Tok> {
    let i = st.attrs.input;
    seq![id("impl"@)] + block_trait("in_block"@, "In"@) + tuple(i, TupleForm::Types)
        + seq![
        pc('>'), id("for"@), id(name), lb(),
        id("fn"@), id("process"@), lp(), pc('&'), id("mut"@), id("self"@), pc(','), id("input"@), pc(':'),
    ] + tuple(i, TupleForm::Types)
        + seq![pc(','), id("order"@), pc(':'), id("u64"@), rp(), pj('-'), pc('>'), lp(), rp(), lb(), id("let"@)]
        + tuple(i, TupleForm::MutNames) + seq![pc('='), id("input"@), pc(';')] + st.code
        + seq![pc(';'), rb(), rb()]
}

/// The worker type of a stage.
pub open spec fn stage_struct(st: StageModel) -> Seq<Tok> {
    let name = stage_name(st.id);
    struct_header(name) + if st.attrs.output.len() > 0 {
        inout_impl(name, st)
    } else {
        in_impl(name, st)
    }
}

fn push_block_trait(out: &mut Vec<Token>, module: &str, tr: &str)
    ensures
        toks(final(out)@) == toks(old(out)@) + block_trait(module@, tr@),
{
    let piece = vec![
        ident("rust_spp"), joint(':'), punct(':'), ident("blocks"), joint(':'), punct(':'),
        ident(module), joint(':'), punct(':'), ident(tr), punct('<'),
    ];
    assert(toks(piece@) =~= block_trait(module@, tr@));
    emit(out, piece);
}

/// Concatenation regroups to the left.
pub broadcast proof fn lemma_concat_assoc(a: Seq<Tok>, b: Seq<Tok>, c: Seq<Tok>)
    ensures
        #[trigger] (a + (b + c)) == (a + b) + c,
{
    assert(a + (b + c) =~= (a + b) + c);
}

fn push_struct_header(out: &mut Vec<Token>, n: usize)
    ensures
        toks(final(out)@) == toks(old(out)@) + struct_header(stage_name(n)),
{
    let piece = vec![
        ident("struct"), stage_ident(n),
        Token::Open(Delimiter::Brace), Token::Close(Delimiter::Brace),
        ident("impl"), stage_ident(n), Token::Open(Delimiter::Brace),
        ident("fn"), ident("new"), Token::Open(Delimiter::Parenthesis),
        Token::Close(Delimiter::Parenthesis), joint('-'), punct('>'), ident("Self"),
        Token::Open(Delimiter::Brace), ident("Self"), Token::Open(Delimiter::Brace),
        Token::Close(Delimiter::Brace), Token::Close(Delimiter::Brace),
        Token::Close(Delimiter::Brace),
    ];
    assert(toks(piece@) =~= struct_header(stage_name(n)));
    emit(out, piece);
}

/// `> for NAME { fn process(&mut self, input:`
fn push_process_head(out: &mut Vec<Token>, n: usize)
    ensures
        toks(final(out)@) == toks(old(out)@) + seq![
            pc('>'), id("for"@), id(stage_name(n)), lb(),
            id("fn"@), id("process"@), lp(), pc('&'), id("mut"@), id("self"@), pc(','), id("input"@), pc(':'),
        ],
{
    let piece = vec![
        punct('>'), ident("for"), stage_ident(n), Token::Open(Delimiter::Brace),
        ident("fn"), ident("process"), Token::Open(Delimiter::Parenthesis), punct('&'),
        ident("mut"), ident("self"), punct(','), ident("input"), punct(':'),
    ];
    assert(toks(piece@) =~= seq![
        pc('>'), id("for"@), id(stage_name(n)), lb(),
        id("fn"@), id("process"@), lp(), pc('&'), id("mut"@), id("self"@), pc(','), id("input"@), pc(':'),
    ]);
    emit(out, piece);
}

fn push_inout_impl(out: &mut Vec<Token>, stage: &SparStage)
    ensures
        toks(final(out)@) == toks(old(out)@) + inout_impl(stage_name(stage.id), stage@),
{
    broadcast use lemma_concat_assoc;

    let i = &stage.attrs.input;
    let o = &stage.attrs.output;
    let piece = vec![ident("impl")];
    assert(toks(piece@) =~= seq![id("impl"@)]);
    emit(out, piece);
    push_block_trait(out, "inout_block", "InOut");
    push_tuple(out, i, TupleForm::Types);
    let piece = vec![punct(',')];
    assert(toks(piece@) =~= seq![pc(',')]);
    emit(out, piece);
    push_tuple(out, o, TupleForm::Types);
    push_process_head(out, stage.id);
    push_tuple(out, i, TupleForm::Types);
    let piece = vec![
        Token::Close(Delimiter::Parenthesis), joint('-'), punct('>'), ident("Option"),
        punct('<'),
    ];
    assert(toks(piece@) =~= seq![rp(), pj('-'), pc('>'), id("Option"@), pc('<')]);
    emit(out, piece);
    push_tuple(out, o, TupleForm::Types);
    let piece = vec![punct('>'), Token::Open(Delimiter::Brace), ident("let")];
    assert(toks(piece@) =~= seq![pc('>'), lb(), id("let"@)]);
    emit(out, piece);
    push_tuple(out, i, TupleForm::MutNames);
    let piece = vec![punct('='), ident("input"), punct(';')];
    assert(toks(piece@) =~= seq![pc('='), id("input"@), pc(';')]);
    emit(out, piece);
    extend_tokens(out, &stage.code);
    let piece = vec![punct(';'), ident("Some"), Token::Open(Delimiter::Parenthesis)];
    assert(toks(piece@) =~= seq![pc(';'), id("Some"@), lp()]);
    emit(out, piece);
    push_tuple(out, o, TupleForm::Names);
    let piece = vec![
        Token::Close(Delimiter::Parenthesis), Token::Close(Delimiter::Brace),
        Token::Close(Delimiter::Brace),
    ];
    assert(toks(piece@) =~= seq![rp(), rb(), rb()]);
    emit(out, piece);
}

fn push_in_impl(out: &mut Vec<Token>, stage: &SparStage)
    ensures
        toks(final(out)@) == toks(old(out)@) + in_impl(stage_name(stage.id), stage@),
{
    broadcast use lemma_concat_assoc;

    let i = &stage.attrs.input;
    let piece = vec![ident("impl")];
    assert(toks(piece@) =~= seq![id("impl"@)]);
    emit(out, piece);
    push_block_trait(out, "in_block", "In");
    push_tuple(out, i, TupleForm::Types);
    push_process_head(out, stage.id);
    push_tuple(out, i, TupleForm::Types);
    let piece = vec![
        punct(','), ident("order"), punct(':'), ident("u64"),
        Token::Close(Delimiter::Parenthesis), joint('-'), punct('>'),
        Token::Open(Delimiter::Parenthesis), Token::Close(Delimiter::Parenthesis),
        Token::Open(Delimiter::Brace), ident("let"),
    ];
    assert(toks(piece@) =~= seq![pc(','), id("order"@), pc(':'), id("u64"@), rp(), pj('-'), pc('>'), lp(), rp(), lb(), id("let"@)]);
    emit(out, piece);
    push_tuple(out, i, TupleForm::MutNames);
    let piece = vec![punct('='), ident("input"), punct(';')];
    assert(toks(piece@) =~= seq![pc('='), id("input"@), pc(';')]);
    emit(out, piece);
    extend_tokens(out, &stage.code);
    let piece = vec![punct(';'), Token::Close(Delimiter::Brace), Token::Close(Delimiter::Brace)];
    assert(toks(piece@) =~= seq![pc(';'), rb(), rb()]);
    emit(out, piece);
}

/// Appends the worker type of `stage`, which must take some input.
pub fn rust_spp_stage_struct_gen(out: &mut Vec<Token>, stage: &SparStage)
    requires
        stage@.attrs.input.len() > 0,
    ensures
        toks(final(out)@) == toks(old(out)@) + stage_struct(stage@),
{
    broadcast use lemma_concat_assoc;

    push_struct_header(out, stage.id);
    if stage.attrs.output.len() > 0 {
        push_inout_impl(out, stage);
    } else {
        push_in_impl(out, stage);
    }
}

// ---------------------------------------------------------------------------
// Replication.
/// How many workers run a stage.
#[derive(Clone, Copy, Debug, PartialEq, Eq, Structural)]
pub enum Replication {
    /// One worker, in order.
    Sequential,
    /// A pool of this many workers.
    Parallel(u32),
}

/// The override, when there is one, replaces every stage's count; else the
/// stage's own `REPLICATE`; else one sequential worker.
pub open spec fn spec_replication(replicate: Option<u32>, num_workers: Option<u32>) -> Replication {
    match num_workers {
        Some(w) => Replication::Parallel(w),
        None => match replicate {
            Some(n) => Replication::Parallel(n),
            None => Replication::Sequential,
        },
    }
}

/// The replication of a stage declared with `replicate`, under the worker
/// count override `num_workers`.
pub fn gen_replicate(replicate: Option<u32>, num_workers: Option<u32>) -> (r: Replication)
    ensures
        r == spec_replication(replicate, num_workers),
{
    match num_workers {
        Some(w) => Replication::Parallel(w),
        None => match replicate {
            Some(n) => Replication::Parallel(n),
            None => Replication::Sequential,
        },
    }
}

/// The override of the worker count replaces every declared count.
pub proof fn lemma_override_replaces_count(replicate: Option<u32>, w: u32)
    ensures
        spec_replication(replicate, Some(w)) == Replication::Parallel(w),
{
}

/// A stage's entry in the pipeline:
/// `rust_spp::sequential!(NAME::new())` or `rust_spp::parallel!(NAME::new(), N)`.
pub open spec fn pipeline_arg(st: StageModel, num_workers: Option<u32>) -> Seq<Tok> {
    let name = stage_name(st.id);
    match spec_replication(st.attrs.replicate, num_workers) {
        Replication::Sequential => seq![
            id("rust_spp"@), pj(':'), pc(':'), id("sequential"@), pc('!'),
            lp(), id(name), pj(':'), pc(':'), id("new"@), lp(), rp(), rp(),
        ],
        Replication::Parallel(n) => seq![
            id("rust_spp"@), pj(':'), pc(':'), id("parallel"@), pc('!'),
            lp(), id(name), pj(':'), pc(':'), id("new"@), lp(), rp(), pc(','),
            Tok::Literal(decimal(n as nat)), rp(),
        ],
    }
}

fn number_literal(n: u32) -> (r: Token)
    ensures
        r@ == Tok::Literal(decimal(n as nat)),
{
    let mut s = String::new();
    push_decimal(&mut s, n as u64);
    assert(s@ =~= decimal(n as nat));
    Token::Literal(s)
}

/// Appends the pipeline entry of `stage`.
pub fn rust_spp_pipeline_arg(out: &mut Vec<Token>, stage: &SparStage, num_workers: Option<u32>)
    ensures
        toks(final(out)@) == toks(old(out)@) + pipeline_arg(stage@, num_workers),
{
    let piece = match gen_replicate(stage.attrs.replicate, num_workers) {
        Replication::Sequential => {
            let piece = vec![
                ident("rust_spp"), joint(':'), punct(':'), ident("sequential"), punct('!'),
                Token::Open(Delimiter::Parenthesis), stage_ident(stage.id), joint(':'), punct(':'),
                ident("new"), Token::Open(Delimiter::Parenthesis),
                Token::Close(Delimiter::Parenthesis), Token::Close(Delimiter::Parenthesis),
            ];
            assert(toks(piece@) =~= pipeline_arg(stage@, num_workers));
            piece
        },
        Replication::Parallel(n) => {
            let piece = vec![
                ident("rust_spp"), joint(':'), punct(':'), ident("parallel"), punct('!'),
                Token::Open(Delimiter::Parenthesis), stage_ident(stage.id), joint(':'), punct(':'),
                ident("new"), Token::Open(Delimiter::Parenthesis),
                Token::Close(Delimiter::Parenthesis), punct(','), number_literal(n),
                Token::Close(Delimiter::Parenthesis),
            ];
            assert(toks(piece@) =~= pipeline_arg(stage@, num_workers));
            piece
        },
    };
    emit(out, piece);
}

// ---------------------------------------------------------------------------
// Dispatching the input.
/// `spar_pipeline.post((a, b)).unwrap();`
pub open spec fn post_stmt(vars: Seq<VarModel>) -> Seq<Tok> {
    seq![id("spar_pipeline"@), pc('.'), id("post"@), lp()] + tuple(vars, TupleForm::Names)
        + seq![rp(), pc('.'), id("unwrap"@), lp(), rp(), pc(';')]
}

pub open spec fn has_marker(code: Seq<Tok>) -> bool {
    exists|j: int| 0 <= j < code.len() && code[j] == marker()
}

/// `code` with every marker replaced by `rep`.
pub open spec fn replace_markers(code: Seq<Tok>, rep: Seq<Tok>) -> Seq<Tok>
    decreases code.len(),
{
    if code.len() == 0 {
        seq![]
    } else {
        replace_markers(code.drop_last(), rep) + if code.last() == marker() {
            rep
        } else {
            seq![code.last()]
        }
    }
}

/// The stage made of the code before the first `STAGE`: it has id 0 and
/// holds the marker where that `STAGE` stood.
pub open spec fn is_leading(st: StageModel) -> bool {
    st.id == 0 && has_marker(st.code)
}

/// The variables posted for each unit of input: what the code before the
/// stages hands on, when the first stage is that code, else the stage's own
/// inputs.
pub open spec fn post_vars(st: StageModel) -> Seq<VarModel> {
    if is_leading(st) {
        st.attrs.output
    } else {
        st.attrs.input
    }
}

/// The code that feeds the pipeline: the first stage's code with a post in
/// place of each marker, or a single post when it has none.
pub open spec fn dispatcher_code(st: StageModel) -> Seq<Tok> {
    if is_leading(st) {
        replace_markers(st.code, post_stmt(st.attrs.output))
    } else {
        post_stmt(st.attrs.input)
    }
}

fn push_post(out: &mut Vec<Token>, vars: &Vec<SparVar>)
    ensures
        toks(final(out)@) == toks(old(out)@) + post_stmt(vars_view(vars@)),
{
    broadcast use lemma_concat_assoc;

    let piece = vec![ident("spar_pipeline"), punct('.'), ident("post"), Token::Open(Delimiter::Parenthesis)];
    assert(toks(piece@) =~= seq![id("spar_pipeline"@), pc('.'), id("post"@), lp()]);
    emit(out, piece);
    push_tuple(out, vars, TupleForm::Names);
    let piece = vec![
        Token::Close(Delimiter::Parenthesis), punct('.'), ident("unwrap"),
        Token::Open(Delimiter::Parenthesis), Token::Close(Delimiter::Parenthesis), punct(';'),
    ];
    assert(toks(piece@) =~= seq![rp(), pc('.'), id("unwrap"@), lp(), rp(), pc(';')]);
    emit(out, piece);
}

/// Whether `code` holds the marker.
fn find_marker(code: &Vec<Token>) -> (r: bool)
    ensures
        r == has_marker(toks(code@)),
{
    let mut j: usize = 0;
    while j < code.len()
        invariant
            j <= code.len(),
            forall|t: int| 0 <= t < j ==> toks(code@)[t] != marker(),
        decreases code.len() - j,
    {
        if code[j].is_ident_named("__SPAR_MARKER__") {
            assert(toks(code@)[j as int] == marker());
            return true;
        }
        j = j + 1;
    }
    false
}

/// Copies `code`, with `replacement` in place of each marker; and whether
/// there was one.
pub fn copy_code(code: &Vec<Token>, replacement: &Vec<Token>) -> (r: (Vec<Token>, bool))
    ensures
        toks(r.0@) == replace_markers(toks(code@), toks(replacement@)),
        r.1 == has_marker(toks(code@)),
{
    let ghost c = toks(code@);
    let ghost rep = toks(replacement@);
    let mut out: Vec<Token> = Vec::new();
    let mut found = false;
    let mut j: usize = 0;
    assert(toks(out@) =~= seq![]);
    assert(c.subrange(0, 0) =~= seq![]);
    while j < code.len()
        invariant
            c == toks(code@),
            rep == toks(replacement@),
            j <= code.len(),
            toks(out@) == replace_markers(c.subrange(0, j as int), rep),
            found == exists|t: int| 0 <= t < j && c[t] == marker(),
        decreases code.len() - j,
    {
        let ghost pre = c.subrange(0, j as int);
        let ghost next = c.subrange(0, j as int + 1);
        assert(next.drop_last() =~= pre);
        if code[j].is_ident_named("__SPAR_MARKER__") {
            extend_tokens(&mut out, replacement);
            found = true;
        } else {
            let t = code[j].duplicate();
            proof {
                lemma_toks_push(out@, t);
            }
            out.push(t);
            assert(seq![c[j as int]] + seq![] =~= seq![c[j as int]]);
            assert(toks(out@) =~= replace_markers(pre, rep) + seq![c[j as int]]);
        }
        j = j + 1;
    }
    assert(c.subrange(0, code.len() as int) =~= c);
    (out, found)
}

/// The code that posts each unit of input into the pipeline.
pub struct Dispatcher {
    code: Vec<Token>,
}

impl View for Dispatcher {
    type V = Seq<Tok>;

    closed spec fn view(&self) -> Seq<Tok> {
        toks(self.code@)
    }
}

impl Dispatcher {
    /// The dispatcher of the stream whose first stage is `stage`, and
    /// whether that stage was the code before the stages (id 0, holding the
    /// marker), which the dispatcher then replaces.
    pub fn new(stage: &SparStage) -> (r: (Dispatcher, bool))
        ensures
            r.0@ == dispatcher_code(stage@),
            r.1 == is_leading(stage@),
    {
        let found = stage.id == 0 && find_marker(&stage.code);
        if found {
            let mut post: Vec<Token> = Vec::new();
            push_post(&mut post, &stage.attrs.output);
            assert(toks(post@) =~= post_stmt(stage@.attrs.output));
            let (code, _) = copy_code(&stage.code, &post);
            (Dispatcher { code }, true)
        } else {
            let mut code: Vec<Token> = Vec::new();
            push_post(&mut code, &stage.attrs.input);
            assert(toks(code@) =~= post_stmt(stage@.attrs.input));
            (Dispatcher { code }, false)
        }
    }

    /// Appends the dispatcher's code.
    pub fn to_tokens(&self, out: &mut Vec<Token>)
        ensures
            toks(final(out)@) == toks(old(out)@) + self@,
    {
        extend_tokens(out, &self.code);
    }
}

// ---------------------------------------------------------------------------
// Collecting the results.
/// The collector type, with the last stage's code as its `process`.
pub open spec fn collector_struct(st: StageModel) -> Seq<Tok> {
    let i = st.attrs.input;
    let o = st.attrs.output;
    seq![id("struct"@), id("Collector"@), lb(), id("output"@), pc(':')] + tuple(o, TupleForm::Types)
        + seq![rb(), id("impl"@), id("Collector"@), lb(), id("fn"@), id("new"@), lp(), id("output"@), pc(':')]
        + tuple(o, TupleForm::Types)
        + seq![
        rp(), pj('-'), pc('>'), id("Self"@), lb(), id("Self"@), lb(), id("output"@), rb(), rb(),
        id("fn"@), id("process"@), lp(), pc('&'), id("mut"@), id("self"@), pc(','), id("input"@), pc(':'),
    ] + tuple(i, TupleForm::Types)
        + seq![pc(','), id("order"@), pc(':'), id("u64"@), rp(), lb(), id("let"@)]
        + tuple(i, TupleForm::MutNames) + seq![pc('='), id("input"@), pc(';'), id("let"@)]
        + tuple(o, TupleForm::MutNames)
        + seq![pc('='), id("self"@), pc('.'), id("output"@), pc(';')] + st.code
        + seq![pc(';'), id("self"@), pc('.'), id("output"@), pc('=')] + tuple(o, TupleForm::Names)
        + seq![pc(';'), rb(), rb()]
}

/// Runs the collector over the pipeline's results, in the order of their
/// tags, and yields its outputs.
pub open spec fn collector_run(st: StageModel) -> Seq<Tok> {
    let o = st.attrs.output;
    seq![
        id("let"@), id("spar_output"@), pc('='), id("spar_pipeline"@), pc('.'), id("collect"@), lp(), rp(), pc(';'),
        id("let"@), id("mut"@), id("spar_collector"@), pc('='), id("Collector"@), pj(':'), pc(':'), id("new"@), lp(),
    ] + tuple(o, TupleForm::Names)
        + seq![
        rp(), pc(';'),
        id("for"@), lp(), id("i"@), pc(','), id("output"@), rp(), id("in"@), id("spar_output"@), pc('.'),
        id("into_iter"@), lp(), rp(), pc('.'), id("enumerate"@), lp(), rp(),
        lb(), id("spar_collector"@), pc('.'), id("process"@), lp(), id("output"@), pc(','), id("i"@),
        id("as"@), id("u64"@), rp(), pc(';'), rb(),
        id("spar_collector"@), pc('.'), id("output"@),
    ]
}

pub open spec fn collector_code(st: StageModel) -> Seq<Tok> {
    collector_struct(st) + collector_run(st)
}

/// The last stage, when it runs on the collected results in the caller's
/// thread.
pub struct Collector {
    inputs: Vec<SparVar>,
    outputs: Vec<SparVar>,
    code: Vec<Token>,
}

impl View for Collector {
    type V = StageModel;

    closed spec fn view(&self) -> StageModel {
        StageModel {
            attrs: crate::spar_stream::attrs_model(
                vars_view(self.inputs@),
                vars_view(self.outputs@),
                None,
                false,
            ),
            code: toks(self.code@),
            id: 0,
        }
    }
}

impl Collector {
    pub fn new(stage: &SparStage) -> (r: Collector)
        ensures
            r@.attrs.input == stage@.attrs.input,
            r@.attrs.output == stage@.attrs.output,
            r@.code == stage@.code,
    {
        let code = crate::token::copy_range(&stage.code, 0, stage.code.len());
        assert(toks(stage.code@).subrange(0, stage.code@.len() as int) =~= toks(stage.code@));
        Collector {
            inputs: crate::spar_stream::copy_vars(&stage.attrs.input),
            outputs: crate::spar_stream::copy_vars(&stage.attrs.output),
            code,
        }
    }

    fn push_struct(&self, out: &mut Vec<Token>)
        ensures
            toks(final(out)@) == toks(old(out)@) + collector_struct(self@),
    {
        broadcast use lemma_concat_assoc;

        let i = &self.inputs;
        let o = &self.outputs;
        let piece = vec![ident("struct"), ident("Collector"), Token::Open(Delimiter::Brace), ident("output"), punct(':')];
        assert(toks(piece@) =~= seq![id("struct"@), id("Collector"@), lb(), id("output"@), pc(':')]);
        emit(out, piece);
        push_tuple(out, o, TupleForm::Types);
        let piece = vec![
            Token::Close(Delimiter::Brace), ident("impl"), ident("Collector"),
            Token::Open(Delimiter::Brace), ident("fn"), ident("new"),
            Token::Open(Delimiter::Parenthesis), ident("output"), punct(':'),
        ];
        assert(toks(piece@) =~= seq![rb(), id("impl"@), id("Collector"@), lb(), id("fn"@), id("new"@), lp(), id("output"@), pc(':')]);
        emit(out, piece);
        push_tuple(out, o, TupleForm::Types);
        let piece = vec![
            Token::Close(Delimiter::Parenthesis), joint('-'), punct('>'), ident("Self"),
            Token::Open(Delimiter::Brace), ident("Self"), Token::Open(Delimiter::Brace),
            ident("output"), Token::Close(Delimiter::Brace), Token::Close(Delimiter::Brace),
            ident("fn"), ident("process"), Token::Open(Delimiter::Parenthesis), punct('&'),
            ident("mut"), ident("self"), punct(','), ident("input"), punct(':'),
        ];
        assert(toks(piece@) =~= seq![
            rp(), pj('-'), pc('>'), id("Self"@), lb(), id("Self"@), lb(), id("output"@), rb(), rb(),
            id("fn"@), id("process"@), lp(), pc('&'), id("mut"@), id("self"@), pc(','), id("input"@), pc(':'),
        ]);
        emit(out, piece);
        push_tuple(out, i, TupleForm::Types);
        let piece = vec![
            punct(','), ident("order"), punct(':'), ident("u64"),
            Token::Close(Delimiter::Parenthesis), Token::Open(Delimiter::Brace), ident("let"),
        ];
        assert(toks(piece@) =~= seq![pc(','), id("order"@), pc(':'), id("u64"@), rp(), lb(), id("let"@)]);
        emit(out, piece);
        push_tuple(out, i, TupleForm::MutNames);
        let piece = vec![punct('='), ident("input"), punct(';'), ident("let")];
        assert(toks(piece@) =~= seq![pc('='), id("input"@), pc(';'), id("let"@)]);
        emit(out, piece);
        push_tuple(out, o, TupleForm::MutNames);
        let piece = vec![punct('='), ident("self"), punct('.'), ident("output"), punct(';')];
        assert(toks(piece@) =~= seq![pc('='), id("self"@), pc('.'), id("output"@), pc(';')]);
        emit(out, piece);
        extend_tokens(out, &self.code);
        let piece = vec![punct(';'), ident("self"), punct('.'), ident("output"), punct('=')];
        assert(toks(piece@) =~= seq![pc(';'), id("self"@), pc('.'), id("output"@), pc('=')]);
        emit(out, piece);
        push_tuple(out, o, TupleForm::Names);
        let piece = vec![punct(';'), Token::Close(Delimiter::Brace), Token::Close(Delimiter::Brace)];
        assert(toks(piece@) =~= seq![pc(';'), rb(), rb()]);
        emit(out, piece);
    }

    fn push_run(&self, out: &mut Vec<Token>)
        ensures
            toks(final(out)@) == toks(old(out)@) + collector_run(self@),
    {
        broadcast use lemma_concat_assoc;

        let piece = vec![
            ident("let"), ident("spar_output"), punct('='), ident("spar_pipeline"), punct('.'),
            ident("collect"), Token::Open(Delimiter::Parenthesis), Token::Close(Delimiter::Parenthesis),
            punct(';'), ident("let"), ident("mut"), ident("spar_collector"), punct('='),
            ident("Collector"), joint(':'), punct(':'), ident("new"), Token::Open(Delimiter::Parenthesis),
        ];
        assert(toks(piece@) =~= seq![
            id("let"@), id("spar_output"@), pc('='), id("spar_pipeline"@), pc('.'), id("collect"@), lp(), rp(), pc(';'),
            id("let"@), id("mut"@), id("spar_collector"@), pc('='), id("Collector"@), pj(':'), pc(':'), id("new"@), lp(),
        ]);
        emit(out, piece);
        push_tuple(out, &self.outputs, TupleForm::Names);
        let piece = vec![
            Token::Close(Delimiter::Parenthesis), punct(';'),
            ident("for"), Token::Open(Delimiter::Parenthesis), ident("i"), punct(','), ident("output"),
            Token::Close(Delimiter::Parenthesis), ident("in"), ident("spar_output"), punct('.'),
            ident("into_iter"), Token::Open(Delimiter::Parenthesis), Token::Close(Delimiter::Parenthesis),
            punct('.'), ident("enumerate"), Token::Open(Delimiter::Parenthesis),
            Token::Close(Delimiter::Parenthesis),
            Token::Open(Delimiter::Brace), ident("spar_collector"), punct('.'), ident("process"),
            Token::Open(Delimiter::Parenthesis), ident("output"), punct(','), ident("i"),
            ident("as"), ident("u64"), Token::Close(Delimiter::Parenthesis), punct(';'),
            Token::Close(Delimiter::Brace),
            ident("spar_collector"), punct('.'), ident("output"),
        ];
        assert(toks(piece@) =~= seq![
            rp(), pc(';'),
            id("for"@), lp(), id("i"@), pc(','), id("output"@), rp(), id("in"@), id("spar_output"@), pc('.'),
            id("into_iter"@), lp(), rp(), pc('.'), id("enumerate"@), lp(), rp(),
            lb(), id("spar_collector"@), pc('.'), id("process"@), lp(), id("output"@), pc(','), id("i"@),
            id("as"@), id("u64"@), rp(), pc(';'), rb(),
            id("spar_collector"@), pc('.'), id("output"@),
        ]);
        emit(out, piece);
    }

    /// Appends the collector type and the code that runs it.
    pub fn gen(&self, out: &mut Vec<Token>)
        ensures
            toks(final(out)@) == toks(old(out)@) + collector_code(self@),
    {
        broadcast use lemma_concat_assoc;

        self.push_struct(out);
        self.push_run(out);
    }
}

// ---------------------------------------------------------------------------
// The whole block.
/// Why a stream cannot be lowered.
#[derive(Clone, Copy, Debug, PartialEq, Eq, Structural)]
pub enum LowerError {
    /// The stream has no stage to run.
    NoStage,
    /// The stage with this id declares no `INPUT`.
    StageWithoutInput(usize),
}

/// The stages that the pipeline runs, the collector's included: all but the
/// code before the stages, which becomes the dispatcher.
pub open spec fn pipeline_stages(m: StreamModel) -> Seq<StageModel> {
    if is_leading(m.stages[0]) {
        m.stages.drop_first()
    } else {
        m.stages
    }
}

/// A single worker, whether sequential or a pool of one.
pub open spec fn single_worker(r: Replication) -> bool {
    r == Replication::Sequential || r == Replication::Parallel(1)
}

/// The last stage runs in the collector, on the caller's thread, when it
/// hands back exactly the stream's outputs and runs as a single worker;
/// with any other count it gets its own workers in the pipeline.
pub open spec fn uses_collector(m: StreamModel, num_workers: Option<u32>) -> bool {
    let p = pipeline_stages(m);
    p.last().attrs.output == m.attrs.output && single_worker(
        spec_replication(p.last().attrs.replicate, num_workers),
    )
}

/// The stages that become worker types in the pipeline.
pub open spec fn worker_stages(m: StreamModel, num_workers: Option<u32>) -> Seq<StageModel> {
    if uses_collector(m, num_workers) {
        pipeline_stages(m).drop_last()
    } else {
        pipeline_stages(m)
    }
}

/// The id of the first of `p` that declares no input.
pub open spec fn first_missing_input(p: Seq<StageModel>) -> Option<usize>
    decreases p.len(),
{
    if p.len() == 0 {
        None
    } else if p[0].attrs.input.len() == 0 {
        Some(p[0].id)
    } else {
        first_missing_input(p.drop_first())
    }
}

pub open spec fn all_structs(st: Seq<StageModel>) -> Seq<Tok>
    decreases st.len(),
{
    if st.len() == 0 {
        seq![]
    } else {
        all_structs(st.drop_last()) + stage_struct(st.last())
    }
}

pub open spec fn all_args(st: Seq<StageModel>, num_workers: Option<u32>) -> Seq<Tok>
    decreases st.len(),
{
    if st.len() == 0 {
        seq![]
    } else {
        all_args(st.drop_last(), num_workers) + pipeline_arg(st.last(), num_workers) + seq![pc(',')]
    }
}

/// `use rust_spp::*;`
pub open spec fn use_line() -> Seq<Tok> {
    seq![id("use"@), id("rust_spp"@), pj(':'), pc(':'), pc('*'), pc(';')]
}

/// `let spar_pipeline = rust_spp::pipeline![ARG, ..., collect!()];`, with
/// `collect_ordered!()` when the results must come back in input order.
pub open spec fn pipeline_let(st: Seq<StageModel>, num_workers: Option<u32>, ordered: bool) -> Seq<Tok> {
    seq![
        id("let"@), id("spar_pipeline"@), pc('='), id("rust_spp"@), pj(':'), pc(':'),
        id("pipeline"@), pc('!'), Tok::Open(Delimiter::Bracket),
    ] + all_args(st, num_workers) + seq![
        id(if ordered { "collect_ordered"@ } else { "collect"@ }), pc('!'), lp(), rp(),
        Tok::Close(Delimiter::Bracket), pc(';'),
    ]
}

/// The block that a stream lowers to.
pub open spec fn lowered_block(m: StreamModel, num_workers: Option<u32>) -> Seq<Tok> {
    seq![lb()] + use_line() + all_structs(worker_stages(m, num_workers)) + pipeline_let(
        worker_stages(m, num_workers),
        num_workers,
        m.attrs.ordered,
    ) + dispatcher_code(m.stages[0]) + (if uses_collector(m, num_workers) {
        collector_code(pipeline_stages(m).last())
    } else {
        seq![]
    }) + seq![rb()]
}

/// What lowering a stream gives.
pub open spec fn spec_codegen(m: StreamModel, num_workers: Option<u32>) -> Result<Seq<Tok>, LowerError> {
    if m.stages.len() == 0 || pipeline_stages(m).len() == 0 {
        Err(LowerError::NoStage)
    } else {
        match first_missing_input(pipeline_stages(m)) {
            Some(n) => Err(LowerError::StageWithoutInput(n)),
            None => Ok(lowered_block(m, num_workers)),
        }
    }
}

/// How a stream lowers: its dispatcher, the index of the first stage that
/// the pipeline runs, and whether the last one runs in the collector.
pub struct TopLevel {
    pub dispatcher: Dispatcher,
    pub first: usize,
    pub collector: bool,
}

/// Decides how `stream` lowers, or why it cannot.
pub fn rust_spp_gen_top_level_code(stream: &SparStream, num_workers: Option<u32>) -> (r: Result<
    TopLevel,
    LowerError,
>)
    ensures
        match r {
            Ok(t) => spec_codegen(stream@, num_workers) is Ok && t.dispatcher@ == dispatcher_code(
                stream@.stages[0],
            ) && t.first == (if is_leading(stream@.stages[0]) {
                1usize
            } else {
                0usize
            }) && t.collector == uses_collector(stream@, num_workers),
            Err(e) => spec_codegen(stream@, num_workers) == Err::<Seq<Tok>, LowerError>(e),
        },
{
    let ghost m = stream@;
    let stages = &stream.stages;
    if stages.len() == 0 {
        return Err(LowerError::NoStage);
    }
    assert(m.stages[0] == stages@[0]@);
    let (dispatcher, found) = Dispatcher::new(&stages[0]);
    let first: usize = if found {
        1
    } else {
        0
    };
    let ghost p = pipeline_stages(m);
    assert(p =~= m.stages.subrange(first as int, m.stages.len() as int));
    if first >= stages.len() {
        return Err(LowerError::NoStage);
    }
    let mut j: usize = first;
    while j < stages.len()
        invariant
            m == stream@,
            stages == &stream.stages,
            first <= j <= stages.len(),
            p == m.stages.subrange(first as int, m.stages.len() as int),
            p == pipeline_stages(m),
            first < stages.len(),
            first_missing_input(p) == first_missing_input(
                m.stages.subrange(j as int, m.stages.len() as int),
            ),
        decreases stages.len() - j,
    {
        let ghost rest = m.stages.subrange(j as int, m.stages.len() as int);
        assert(rest[0] == stages@[j as int]@);
        if stages[j].attrs.input.len() == 0 {
            return Err(LowerError::StageWithoutInput(stages[j].id));
        }
        assert(rest.drop_first() =~= m.stages.subrange(j + 1, m.stages.len() as int));
        j = j + 1;
    }
    assert(m.stages.subrange(j as int, m.stages.len() as int) =~= seq![]);
    let last = stages.len() - 1;
    assert(p.last() == stages@[last as int]@);
    let collector = vars_equal(&stages[last].attrs.output, &stream.attrs.output)
        && match gen_replicate(stages[last].attrs.replicate, num_workers) {
        Replication::Sequential => true,
        Replication::Parallel(n) => n == 1,
    };
    Ok(TopLevel { dispatcher, first, collector })
}

/// Appends the worker types of `stages[first..end]`.
fn push_structs(out: &mut Vec<Token>, stages: &Vec<SparStage>, first: usize, end: usize)
    requires
        first <= end <= stages.len(),
        forall|j: int| first <= j < end ==> (#[trigger] stages_view(stages@)[j]).attrs.input.len() > 0,
    ensures
        toks(final(out)@) == toks(old(out)@) + all_structs(
            stages_view(stages@).subrange(first as int, end as int),
        ),
{
    let ghost sv = stages_view(stages@);
    let mut j: usize = first;
    assert(sv.subrange(first as int, first as int) =~= seq![]);
    assert(toks(old(out)@) + seq![] =~= toks(old(out)@));
    while j < end
        invariant
            sv == stages_view(stages@),
            first <= j <= end <= stages.len(),
            forall|t: int| first <= t < end ==> (#[trigger] sv[t]).attrs.input.len() > 0,
            toks(out@) == toks(old(out)@) + all_structs(sv.subrange(first as int, j as int)),
        decreases end - j,
    {
        broadcast use lemma_concat_assoc;

        assert(sv.subrange(first as int, j + 1).drop_last() =~= sv.subrange(first as int, j as int));
        assert(sv.subrange(first as int, j + 1).last() == stages@[j as int]@);
        rust_spp_stage_struct_gen(out, &stages[j]);
        j = j + 1;
    }
}

/// Appends the pipeline of `stages[first..end]`.
fn push_pipeline_let(
    out: &mut Vec<Token>,
    stages: &Vec<SparStage>,
    first: usize,
    end: usize,
    num_workers: Option<u32>,
    ordered: bool,
)
    requires
        first <= end <= stages.len(),
    ensures
        toks(final(out)@) == toks(old(out)@) + pipeline_let(
            stages_view(stages@).subrange(first as int, end as int),
            num_workers,
            ordered,
        ),
{
    broadcast use lemma_concat_assoc;

    let ghost sv = stages_view(stages@);
    let piece = vec![
        ident("let"), ident("spar_pipeline"), punct('='), ident("rust_spp"), joint(':'),
        punct(':'), ident("pipeline"), punct('!'), Token::Open(Delimiter::Bracket),
    ];
    assert(toks(piece@) =~= seq![
        id("let"@), id("spar_pipeline"@), pc('='), id("rust_spp"@), pj(':'), pc(':'),
        id("pipeline"@), pc('!'), Tok::Open(Delimiter::Bracket),
    ]);
    emit(out, piece);
    let ghost base = toks(out@);
    let mut j: usize = first;
    assert(sv.subrange(first as int, first as int) =~= seq![]);
    assert(base + seq![] =~= base);
    while j < end
        invariant
            sv == stages_view(stages@),
            first <= j <= end <= stages.len(),
            toks(out@) == base + all_args(sv.subrange(first as int, j as int), num_workers),
        decreases end - j,
    {
        assert(sv.subrange(first as int, j + 1).drop_last() =~= sv.subrange(first as int, j as int));
        assert(sv.subrange(first as int, j + 1).last() == stages@[j as int]@);
        rust_spp_pipeline_arg(out, &stages[j], num_workers);
        let piece = vec![punct(',')];
        assert(toks(piece@) =~= seq![pc(',')]);
        emit(out, piece);
        j = j + 1;
    }
    let piece = vec![
        if ordered {
            ident("collect_ordered")
        } else {
            ident("collect")
        },
        punct('!'), Token::Open(Delimiter::Parenthesis), Token::Close(Delimiter::Parenthesis),
        Token::Close(Delimiter::Bracket), punct(';'),
    ];
    assert(toks(piece@) =~= seq![
        id(if ordered { "collect_ordered"@ } else { "collect"@ }), pc('!'), lp(), rp(),
        Tok::Close(Delimiter::Bracket), pc(';'),
    ]);
    emit(out, piece);
}

/// Appends the block that `stream` lowers to, as `top` decided.
pub fn rust_spp_gen(out: &mut Vec<Token>, stream: &SparStream, top: &TopLevel, num_workers: Option<u32>)
    requires
        spec_codegen(stream@, num_workers) is Ok,
        top.dispatcher@ == dispatcher_code(stream@.stages[0]),
        top.first == (if is_leading(stream@.stages[0]) {
            1usize
        } else {
            0usize
        }),
        top.collector == uses_collector(stream@, num_workers),
    ensures
        toks(final(out)@) == toks(old(out)@) + lowered_block(stream@, num_workers),
{
    broadcast use lemma_concat_assoc;

    let ghost m = stream@;
    let stages = &stream.stages;
    let first = top.first;
    let end = if top.collector {
        stages.len() - 1
    } else {
        stages.len()
    };
    assert(worker_stages(m, num_workers) =~= stages_view(stages@).subrange(first as int, end as int));
    proof {
        lemma_worker_inputs(m, num_workers, first as int, end as int);
    }
    let piece = vec![
        Token::Open(Delimiter::Brace), ident("use"), ident("rust_spp"), joint(':'), punct(':'),
        punct('*'), punct(';'),
    ];
    assert(toks(piece@) =~= seq![lb()] + use_line());
    emit(out, piece);
    push_structs(out, stages, first, end);
    push_pipeline_let(out, stages, first, end, num_workers, stream.attrs.ordered);
    top.dispatcher.to_tokens(out);
    let ghost before_collector = toks(out@);
    if top.collector {
        let last = stages.len() - 1;
        assert(pipeline_stages(m).last() == stages@[last as int]@);
        let collector = Collector::new(&stages[last]);
        collector.gen(out);
    } else {
        assert(before_collector + seq![] =~= before_collector);
    }
    let piece = vec![Token::Close(Delimiter::Brace)];
    assert(toks(piece@) =~= seq![rb()]);
    emit(out, piece);
}

/// Lowers `spar_stream` into the block that runs it as a pipeline. When
/// `num_workers` is given, it is the worker count of every stage.
pub fn codegen(spar_stream: SparStream, num_workers: Option<u32>) -> (r: Result<Vec<Token>, LowerError>)
    ensures
        match r {
            Ok(v) => spec_codegen(spar_stream@, num_workers) == Ok::<Seq<Tok>, LowerError>(toks(v@)),
            Err(e) => spec_codegen(spar_stream@, num_workers) == Err::<Seq<Tok>, LowerError>(e),
        },
{
    let top = match rust_spp_gen_top_level_code(&spar_stream, num_workers) {
        Ok(t) => t,
        Err(e) => {
            return Err(e);
        },
    };
    let mut out: Vec<Token> = Vec::new();
    rust_spp_gen(&mut out, &spar_stream, &top, num_workers);
    assert(toks(out@) =~= lowered_block(spar_stream@, num_workers));
    Ok(out)
}

/// Every stage that becomes a worker takes some input.
proof fn lemma_worker_inputs(m: StreamModel, w: Option<u32>, first: int, end: int)
    requires
        spec_codegen(m, w) is Ok,
        first == (if is_leading(m.stages[0]) {
            1int
        } else {
            0int
        }),
        end <= m.stages.len(),
    ensures
        forall|j: int| first <= j < end ==> (#[trigger] m.stages[j]).attrs.input.len() > 0,
{
    let p = pipeline_stages(m);
    lemma_no_missing_input(p);
    assert forall|j: int| first <= j < end implies (#[trigger] m.stages[j]).attrs.input.len() > 0 by {
        assert(m.stages[j] == p[j - first]);
    }
}

proof fn lemma_no_missing_input(p: Seq<StageModel>)
    ensures
        first_missing_input(p) is None ==> forall|j: int|
            0 <= j < p.len() ==> (#[trigger] p[j]).attrs.input.len() > 0,
    decreases p.len(),
{
    if p.len() > 0 && p[0].attrs.input.len() > 0 && first_missing_input(p) is None {
        lemma_no_missing_input(p.drop_first());
        assert(first_missing_input(p.drop_first()) is None);
        assert forall|j: int| 0 < j < p.len() implies (#[trigger] p[j]).attrs.input.len() > 0 by {
            assert(p[j] == p.drop_first()[j - 1]);
        }
    }
}

proof fn lemma_first_missing_input(p: Seq<StageModel>, j: int)
    requires
        0 <= j < p.len(),
        p[j].attrs.input.len() == 0,
    ensures
        first_missing_input(p) is Some,
    decreases j,
{
    if p[0].attrs.input.len() != 0 {
        lemma_first_missing_input(p.drop_first(), j - 1);
    }
}

/// A stream in which a stage that the pipeline runs declares no input is
/// never lowered: every stage but the code before the stages (id 0, holding
/// the marker) must consume something. Any stage with another id counts,
/// the last one too.
pub proof fn lemma_stage_without_input_rejected(m: StreamModel, num_workers: Option<u32>, j: int)
    requires
        0 <= j < m.stages.len(),
        m.stages[j].attrs.input.len() == 0,
        j > 0 || !is_leading(m.stages[0]),
    ensures
        spec_codegen(m, num_workers) is Err,
{
    let p = pipeline_stages(m);
    if is_leading(m.stages[0]) {
        assert(p[j - 1] == m.stages[j]);
        lemma_first_missing_input(p, j - 1);
    } else {
        lemma_first_missing_input(p, j);
    }
}

/// Under an override of `w` workers (other than one), every stage that the
/// pipeline runs, the last one included, becomes a pool of `w` workers.
pub proof fn lemma_override_applies_to_every_stage(m: StreamModel, w: u32, j: int)
    requires
        w != 1,
        m.stages.len() > 0,
        0 <= j < pipeline_stages(m).len(),
    ensures
        worker_stages(m, Some(w)) == pipeline_stages(m),
        pipeline_arg(pipeline_stages(m)[j], Some(w)) == seq![
            id("rust_spp"@), pj(':'), pc(':'), id("parallel"@), pc('!'),
            lp(), id(stage_name(pipeline_stages(m)[j].id)), pj(':'), pc(':'), id("new"@), lp(), rp(), pc(','),
            Tok::Literal(decimal(w as nat)), rp(),
        ],
{
}

// ---------------------------------------------------------------------------
// The worker count override.
/// Why an override value was not taken as it stands.
#[derive(Clone, Copy, Debug, PartialEq, Eq, Structural)]
pub enum WorkersWarning {
    /// It was zero; it is ignored.
    NotPositive,
    /// It is not a number; it is ignored.
    Invalid,
}

/// The worker count override, and the warning to report about its value.
#[derive(Clone, Copy, Debug, PartialEq, Eq, Structural)]
pub struct NumWorkers {
    pub workers: Option<u32>,
    pub warning: Option<WorkersWarning>,
}

/// What the override's text gives: a positive number is taken; zero and
/// anything that is not a number are ignored, with a warning; no text gives
/// no override.
pub open spec fn spec_num_workers(value: Option<Seq<char>>) -> NumWorkers {
    match value {
        None => NumWorkers { workers: None, warning: None },
        Some(t) => match crate::decimal::spec_parse_u32(t) {
            Some(n) => if n == 0 {
                NumWorkers { workers: None, warning: Some(WorkersWarning::NotPositive) }
            } else {
                NumWorkers { workers: Some(n), warning: None }
            },
            None => NumWorkers { workers: None, warning: Some(WorkersWarning::Invalid) },
        },
    }
}

/// Reads the worker count override from the text it was set to, if any.
pub fn resolve_num_workers(value: Option<&str>) -> (r: NumWorkers)
    ensures
        r == spec_num_workers(
            match value {
                Some(t) => Some(t@),
                None => None,
            },
        ),
        r.workers matches Some(w) ==> w > 0,
{
    match value {
        None => NumWorkers { workers: None, warning: None },
        Some(t) => match crate::decimal::parse_u32(t) {
            Some(n) => if n == 0 {
                NumWorkers { workers: None, warning: Some(WorkersWarning::NotPositive) }
            } else {
                NumWorkers { workers: Some(n), warning: None }
            },
            None => NumWorkers { workers: None, warning: Some(WorkersWarning::Invalid) },
        },
    }
}

} // verus!
