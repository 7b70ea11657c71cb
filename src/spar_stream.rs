//! The structural parser: from a flat token buffer to a [`SparStream`].
//!
//! Each parsing function is given as a recursive spec function over the
//! buffer's value, and an executable function that walks the buffer with a
//! cursor and returns exactly what the spec function describes.
use vstd::prelude::*;
use crate::decimal::{parse_u32, spec_parse_u32};
use crate::token::{
    at_end, copy_range, cursor_at_end, extend_tokens, group_close, is_ident, is_punct, lemma_toks_push, next_tt,
    skip_tree, tokens_equal, find_group_close, region_end, match_from, toks, Delimiter, Tok, Token,
};

verus! {

/// What went wrong while parsing.
#[derive(Clone, Copy, Debug, PartialEq, Eq, Structural)]
pub enum ErrorKind {
    ExpectedParenthesis,
    ExpectedColon,
    ExpectedType,
    ExpectedVariable,
    DuplicateVariable,
    ExpectedComma,
    InvalidReplicate,
    ZeroReplicate,
    DuplicateInput,
    DuplicateOutput,
    DuplicateReplicate,
    DuplicateOrdered,
    EmptyInput,
    EmptyOutput,
    UnexpectedToken,
    TrailingTokens,
    MissingBlock,
    ExpectedSemicolon,
    ExpectedStage,
    ScatteredStages,
}

/// A syntax error and the index in the token buffer of the token it is
/// reported at (the buffer's length for its end).
#[derive(Clone, Copy, Debug, PartialEq, Eq, Structural)]
pub struct SyntaxError {
    pub kind: ErrorKind,
    pub pos: usize,
}

pub open spec fn err(kind: ErrorKind, pos: int) -> SyntaxError {
    SyntaxError { kind, pos: pos as usize }
}

fn mk_err(kind: ErrorKind, pos: usize) -> (r: SyntaxError)
    ensures
        r == err(kind, pos as int),
{
    SyntaxError { kind, pos }
}

/// The text that describes an error of each kind.
pub open spec fn error_text(kind: ErrorKind) -> Seq<char> {
    match kind {
        ErrorKind::ExpectedParenthesis => "expected arguments, in parenthesis '()'"@,
        ErrorKind::ExpectedColon => "expected ':' or ',' after a variable"@,
        ErrorKind::ExpectedType => "expected type, found nothing"@,
        ErrorKind::ExpectedVariable => "expected a variable name"@,
        ErrorKind::DuplicateVariable => "a variable cannot be listed twice"@,
        ErrorKind::ExpectedComma => "expected ','"@,
        ErrorKind::InvalidReplicate => "failed to parse REPLICATE attribute. Correct syntax is: 'REPLICATE = N', where N is a positive number"@,
        ErrorKind::ZeroReplicate => "'REPLICATE' cannot have an argument of '0'"@,
        ErrorKind::DuplicateInput => "multiple INPUTs aren't allowed"@,
        ErrorKind::DuplicateOutput => "multiple OUTPUTs aren't allowed"@,
        ErrorKind::DuplicateReplicate => "multiple REPLICATEs aren't allowed"@,
        ErrorKind::DuplicateOrdered => "multiple ORDEREDs aren't allowed"@,
        ErrorKind::EmptyInput => "INPUT cannot be empty"@,
        ErrorKind::EmptyOutput => "OUTPUT cannot be empty"@,
        ErrorKind::UnexpectedToken => "unexpected token. Valid tokens are 'INPUT(args)', 'OUTPUT(args)', 'REPLICATE = N', 'ORDERED' and a code block"@,
        ErrorKind::TrailingTokens => "unexpected token after code block"@,
        ErrorKind::MissingBlock => "expected a '{...}' code block"@,
        ErrorKind::ExpectedSemicolon => "expected ';'"@,
        ErrorKind::ExpectedStage => "expected 'STAGE' or END OF STREAM"@,
        ErrorKind::ScatteredStages => "all STAGEs must stand together, in the block that holds the first of them"@,
    }
}

impl SyntaxError {
    /// A human-readable description of the error.
    pub fn message(&self) -> (r: String)
        ensures
            r@ == error_text(self.kind),
    {
        let m = match self.kind {
            ErrorKind::ExpectedParenthesis => "expected arguments, in parenthesis '()'",
            ErrorKind::ExpectedColon => "expected ':' or ',' after a variable",
            ErrorKind::ExpectedType => "expected type, found nothing",
            ErrorKind::ExpectedVariable => "expected a variable name",
            ErrorKind::DuplicateVariable => "a variable cannot be listed twice",
            ErrorKind::ExpectedComma => "expected ','",
            ErrorKind::InvalidReplicate => "failed to parse REPLICATE attribute. Correct syntax is: 'REPLICATE = N', where N is a positive number",
            ErrorKind::ZeroReplicate => "'REPLICATE' cannot have an argument of '0'",
            ErrorKind::DuplicateInput => "multiple INPUTs aren't allowed",
            ErrorKind::DuplicateOutput => "multiple OUTPUTs aren't allowed",
            ErrorKind::DuplicateReplicate => "multiple REPLICATEs aren't allowed",
            ErrorKind::DuplicateOrdered => "multiple ORDEREDs aren't allowed",
            ErrorKind::EmptyInput => "INPUT cannot be empty",
            ErrorKind::EmptyOutput => "OUTPUT cannot be empty",
            ErrorKind::UnexpectedToken => "unexpected token. Valid tokens are 'INPUT(args)', 'OUTPUT(args)', 'REPLICATE = N', 'ORDERED' and a code block",
            ErrorKind::TrailingTokens => "unexpected token after code block",
            ErrorKind::MissingBlock => "expected a '{...}' code block",
            ErrorKind::ExpectedSemicolon => "expected ';'",
            ErrorKind::ExpectedStage => "expected 'STAGE' or END OF STREAM",
            ErrorKind::ScatteredStages => "all STAGEs must stand together, in the block that holds the first of them",
        };
        String::from_str(m)
    }
}

/// The value of a [`SparVar`].
pub struct VarModel {
    pub name: Seq<char>,
    pub ty: Seq<Tok>,
}

/// The value of a [`SparAttrs`].
pub struct AttrsModel {
    pub input: Seq<VarModel>,
    pub output: Seq<VarModel>,
    pub replicate: Option<u32>,
    pub ordered: bool,
}

/// The value of a [`SparStage`].
pub struct StageModel {
    pub attrs: AttrsModel,
    pub code: Seq<Tok>,
    pub id: usize,
}

/// The value of a [`SparStream`].
pub struct StreamModel {
    pub attrs: AttrsModel,
    pub stages: Seq<StageModel>,
}

/// A variable of an `INPUT` or `OUTPUT` clause, with its type as written
/// (empty when none was given).
#[derive(Debug)]
pub struct SparVar {
    pub identifier: String,
    pub var_type: Vec<Token>,
}

/// The attribute list of a stream or a stage.
#[derive(Debug)]
pub struct SparAttrs {
    pub input: Vec<SparVar>,
    pub output: Vec<SparVar>,
    pub replicate: Option<u32>,
    pub ordered: bool,
}

/// A stage: its attributes, its code as written, and its place in the
/// stream (0 for the code that precedes the first `STAGE`).
#[derive(Debug)]
pub struct SparStage {
    pub attrs: SparAttrs,
    pub code: Vec<Token>,
    pub id: usize,
}

/// A parsed stream: its own attributes and its stages in order.
#[derive(Debug)]
pub struct SparStream {
    pub attrs: SparAttrs,
    pub stages: Vec<SparStage>,
}

/// Whether the two lists declare the same variables with the same types.
pub fn vars_equal(a: &Vec<SparVar>, b: &Vec<SparVar>) -> (r: bool)
    ensures
        r == (vars_view(a@) == vars_view(b@)),
{
    if a.len() != b.len() {
        assert(vars_view(a@).len() != vars_view(b@).len());
        return false;
    }
    let mut j: usize = 0;
    while j < a.len()
        invariant
            a.len() == b.len(),
            j <= a.len(),
            forall|t: int| 0 <= t < j ==> vars_view(a@)[t] == vars_view(b@)[t],
        decreases a.len() - j,
    {
        if !(a[j].identifier == b[j].identifier) || !tokens_equal(&a[j].var_type, &b[j].var_type) {
            assert(vars_view(a@)[j as int] != vars_view(b@)[j as int]);
            return false;
        }
        assert(vars_view(a@)[j as int] == vars_view(b@)[j as int]);
        j = j + 1;
    }
    assert(vars_view(a@) =~= vars_view(b@));
    true
}


impl PartialEq for SparVar {
    fn eq(&self, other: &SparVar) -> bool {
        self.identifier == other.identifier && tokens_equal(&self.var_type, &other.var_type)
    }
}

impl vstd::std_specs::cmp::PartialEqSpecImpl for SparVar {
    open spec fn obeys_eq_spec() -> bool {
        true
    }

    open spec fn eq_spec(&self, other: &SparVar) -> bool {
        self@ == other@
    }
}

impl PartialEq for SparAttrs {
    fn eq(&self, other: &SparAttrs) -> bool {
        vars_equal(&self.input, &other.input) && vars_equal(&self.output, &other.output) && match (
            self.replicate,
            other.replicate,
        ) {
            (Some(a), Some(b)) => a == b,
            (None, None) => true,
            _ => false,
        } && self.ordered == other.ordered
    }
}

impl vstd::std_specs::cmp::PartialEqSpecImpl for SparAttrs {
    open spec fn obeys_eq_spec() -> bool {
        true
    }

    open spec fn eq_spec(&self, other: &SparAttrs) -> bool {
        self@ == other@
    }
}

/// Two stages are equal when their attributes and code are; the id, which
/// only tells where a stage stood, is not compared.
impl PartialEq for SparStage {
    fn eq(&self, other: &SparStage) -> bool {
        self.attrs == other.attrs && tokens_equal(&self.code, &other.code)
    }
}

impl vstd::std_specs::cmp::PartialEqSpecImpl for SparStage {
    open spec fn obeys_eq_spec() -> bool {
        true
    }

    open spec fn eq_spec(&self, other: &SparStage) -> bool {
        self@.attrs == other@.attrs && self@.code == other@.code
    }
}

impl View for SparVar {
    type V = VarModel;

    open spec fn view(&self) -> VarModel {
        VarModel { name: self.identifier@, ty: toks(self.var_type@) }
    }
}

pub open spec fn vars_view(v: Seq<SparVar>) -> Seq<VarModel> {
    v.map_values(|x: SparVar| x@)
}

impl View for SparAttrs {
    type V = AttrsModel;

    open spec fn view(&self) -> AttrsModel {
        AttrsModel {
            input: vars_view(self.input@),
            output: vars_view(self.output@),
            replicate: self.replicate,
            ordered: self.ordered,
        }
    }
}

impl View for SparStage {
    type V = StageModel;

    open spec fn view(&self) -> StageModel {
        StageModel { attrs: self.attrs@, code: toks(self.code@), id: self.id }
    }
}

pub open spec fn stages_view(v: Seq<SparStage>) -> Seq<StageModel> {
    v.map_values(|x: SparStage| x@)
}

impl View for SparStream {
    type V = StreamModel;

    open spec fn view(&self) -> StreamModel {
        StreamModel { attrs: self.attrs@, stages: stages_view(self.stages@) }
    }
}

pub open spec fn has_name(vars: Seq<VarModel>, name: Seq<char>) -> bool {
    exists|j: int| 0 <= j < vars.len() && (#[trigger] vars[j]).name == name
}

/// No two variables share a name.
pub open spec fn names_unique(vars: Seq<VarModel>) -> bool {
    forall|a: int, b: int|
        0 <= a < vars.len() && 0 <= b < vars.len() && a != b ==> (#[trigger] vars[a]).name
            != (#[trigger] vars[b]).name
}

/// The invariant of an attribute list: each variable is listed once, and a
/// worker count is positive.
pub open spec fn attrs_wf(a: AttrsModel) -> bool {
    names_unique(a.input) && names_unique(a.output) && (a.replicate matches Some(n) ==> n > 0)
}

pub open spec fn empty_attrs() -> AttrsModel {
    AttrsModel { input: seq![], output: seq![], replicate: None, ordered: false }
}

// ---------------------------------------------------------------------------
// The grammar, as spec functions over the buffer `s`.
/// `,` at `k`; the cursor after it.
pub open spec fn spec_skip_comma(s: Seq<Tok>, k: int) -> Result<int, SyntaxError> {
    if !at_end(s, k) && is_punct(s[k], ',') {
        Ok(k + 1)
    } else {
        Err(err(ErrorKind::ExpectedComma, k))
    }
}

/// The first cursor from `k` on, at this level, that is at the region's end
/// or at a `,`.
pub open spec fn type_end(s: Seq<Tok>, k: int) -> int
    decreases s.len() - k,
{
    if at_end(s, k) || is_punct(s[k], ',') {
        k
    } else {
        type_end(s, next_tt(s, k))
    }
}

/// An optional `: type` after a variable at `k`: the type's tokens and the
/// cursor after them.
pub open spec fn spec_get_type(s: Seq<Tok>, k: int) -> Result<(Seq<Tok>, int), SyntaxError> {
    if at_end(s, k) || is_punct(s[k], ',') {
        Ok((seq![], k))
    } else if is_punct(s[k], ':') {
        let e = type_end(s, k + 1);
        if e == k + 1 {
            Err(err(ErrorKind::ExpectedType, k + 1))
        } else {
            Ok((s.subrange(k + 1, e), e))
        }
    } else {
        Err(err(ErrorKind::ExpectedColon, k))
    }
}

/// The variables from `k` to the end of a parenthesised list, after those
/// in `acc`.
pub open spec fn var_list(s: Seq<Tok>, k: int, acc: Seq<VarModel>) -> Result<
    Seq<VarModel>,
    SyntaxError,
>
    decreases s.len() - k,
{
    if at_end(s, k) {
        Ok(acc)
    } else if s[k] is Ident {
        let name = s[k]->Ident_0;
        if has_name(acc, name) {
            Err(err(ErrorKind::DuplicateVariable, k))
        } else {
            match spec_get_type(s, k + 1) {
                Err(e) => Err(e),
                Ok((ty, n)) => {
                    let acc2 = acc.push(VarModel { name, ty });
                    if at_end(s, n) {
                        Ok(acc2)
                    } else {
                        match spec_skip_comma(s, n) {
                            Err(e) => Err(e),
                            Ok(m) => if k < m {
                                var_list(s, m, acc2)
                            } else {
                                Err(err(ErrorKind::ExpectedComma, n))
                            },
                        }
                    }
                },
            }
        }
    } else {
        Err(err(ErrorKind::ExpectedVariable, k))
    }
}

/// A parenthesised group at `i`: the cursor of its contents and the cursor
/// after it.
pub open spec fn spec_skip_parenthesis(s: Seq<Tok>, i: int) -> Result<(int, int), SyntaxError> {
    if at_end(s, i) || s[i] != Tok::Open(Delimiter::Parenthesis) {
        Err(err(ErrorKind::ExpectedParenthesis, i))
    } else {
        Ok((i + 1, next_tt(s, i)))
    }
}

/// `( var (: type)?, ... )` at `i`: the variables and the cursor after the
/// parentheses.
pub open spec fn spec_get_variables(s: Seq<Tok>, i: int) -> Result<
    (Seq<VarModel>, int),
    SyntaxError,
> {
    match spec_skip_parenthesis(s, i) {
        Err(e) => Err(e),
        Ok((args, after)) => match var_list(s, args, seq![]) {
            Err(e) => Err(e),
            Ok(vars) => Ok((vars, after)),
        },
    }
}

/// `= N` at `k`: the positive count and the cursor after it.
pub open spec fn spec_parse_replicate(s: Seq<Tok>, k: int) -> Result<(u32, int), SyntaxError> {
    if !at_end(s, k) && is_punct(s[k], '=') && !at_end(s, k + 1) && s[k + 1] is Literal {
        match spec_parse_u32(s[k + 1]->Literal_0) {
            Some(n) => if n == 0 {
                Err(err(ErrorKind::ZeroReplicate, k))
            } else {
                Ok((n, k + 2))
            },
            None => Err(err(ErrorKind::InvalidReplicate, k)),
        }
    } else {
        Err(err(ErrorKind::InvalidReplicate, k))
    }
}


/// A model with the given fields.
pub open spec fn attrs_model(
    input: Seq<VarModel>,
    output: Seq<VarModel>,
    replicate: Option<u32>,
    ordered: bool,
) -> AttrsModel {
    AttrsModel { input, output, replicate, ordered }
}

/// The clauses of an attribute list from `k` on, after those that gave `a`,
/// up to its code block: the attributes and the index of the block's `{`.
/// Nothing may follow the block.
pub open spec fn attrs_loop(s: Seq<Tok>, k: int, a: AttrsModel) -> Result<
    (AttrsModel, int),
    SyntaxError,
>
    decreases s.len() - k,
{
    if at_end(s, k) {
        Err(err(ErrorKind::MissingBlock, k))
    } else if is_ident(s[k], "INPUT"@) {
        if a.input.len() > 0 {
            Err(err(ErrorKind::DuplicateInput, k))
        } else {
            match spec_get_variables(s, k + 1) {
                Err(e) => Err(e),
                Ok((vars, n)) => if vars.len() == 0 {
                    Err(err(ErrorKind::EmptyInput, k))
                } else {
                    match spec_skip_comma(s, n) {
                        Err(e) => Err(e),
                        Ok(m) => if k < m {
                            attrs_loop(s, m, attrs_model(vars, a.output, a.replicate, a.ordered))
                        } else {
                            Err(err(ErrorKind::ExpectedComma, n))
                        },
                    }
                },
            }
        }
    } else if is_ident(s[k], "OUTPUT"@) {
        if a.output.len() > 0 {
            Err(err(ErrorKind::DuplicateOutput, k))
        } else {
            match spec_get_variables(s, k + 1) {
                Err(e) => Err(e),
                Ok((vars, n)) => if vars.len() == 0 {
                    Err(err(ErrorKind::EmptyOutput, k))
                } else {
                    match spec_skip_comma(s, n) {
                        Err(e) => Err(e),
                        Ok(m) => if k < m {
                            attrs_loop(s, m, attrs_model(a.input, vars, a.replicate, a.ordered))
                        } else {
                            Err(err(ErrorKind::ExpectedComma, n))
                        },
                    }
                },
            }
        }
    } else if is_ident(s[k], "REPLICATE"@) {
        if a.replicate is Some {
            Err(err(ErrorKind::DuplicateReplicate, k))
        } else {
            match spec_parse_replicate(s, k + 1) {
                Err(e) => Err(e),
                Ok((r, n)) => match spec_skip_comma(s, n) {
                    Err(e) => Err(e),
                    Ok(m) => if k < m {
                        attrs_loop(s, m, attrs_model(a.input, a.output, Some(r), a.ordered))
                    } else {
                        Err(err(ErrorKind::ExpectedComma, n))
                    },
                },
            }
        }
    } else if is_ident(s[k], "ORDERED"@) {
        if a.ordered {
            Err(err(ErrorKind::DuplicateOrdered, k))
        } else {
            match spec_skip_comma(s, k + 1) {
                Err(e) => Err(e),
                Ok(m) => attrs_loop(s, m, attrs_model(a.input, a.output, a.replicate, true)),
            }
        }
    } else if s[k] == Tok::Open(Delimiter::Brace) {
        let n = next_tt(s, k);
        if at_end(s, n) {
            Ok((a, k))
        } else {
            Err(err(ErrorKind::TrailingTokens, n))
        }
    } else {
        Err(err(ErrorKind::UnexpectedToken, k))
    }
}

/// `( attrs, { code } )` at `i`: the attributes, the cursor after the
/// parentheses, and the index of the code block's `{`.
pub open spec fn spec_parse_spar_args(s: Seq<Tok>, i: int) -> Result<
    (AttrsModel, int, int),
    SyntaxError,
> {
    match spec_skip_parenthesis(s, i) {
        Err(e) => Err(e),
        Ok((args, after)) => match attrs_loop(s, args, empty_attrs()) {
            Err(e) => Err(e),
            Ok((a, b)) => Ok((a, after, b)),
        },
    }
}

/// The token that marks, in the code before the stages, where the first
/// `STAGE` stood.
pub open spec fn marker() -> Tok {
    Tok::Ident("__SPAR_MARKER__"@)
}

pub open spec fn closes(d: nat) -> Seq<Tok> {
    Seq::new(d, |_i: int| Tok::Close(Delimiter::Brace))
}

/// The code that precedes the first `STAGE`, walked from `k` with `depth`
/// brace groups entered and `out` copied so far; and the cursor at that
/// `STAGE` (or at the end of the region when there is none). The marker
/// takes the place of that `STAGE` unless no code at all comes before it.
pub open spec fn top_code(s: Seq<Tok>, k: int, depth: nat, out: Seq<Tok>) -> (Seq<Tok>, int)
    decreases s.len() - k,
{
    if k >= s.len() {
        (out + closes(depth), k)
    } else if s[k] is Close {
        if depth == 0 {
            (out, k)
        } else {
            top_code(s, k + 1, (depth - 1) as nat, out.push(s[k]))
        }
    } else if is_ident(s[k], "STAGE"@) {
        (
            if out.len() == depth {
                out
            } else {
                out.push(marker())
            },
            k,
        )
    } else if s[k] == Tok::Open(Delimiter::Brace) {
        top_code(s, k + 1, depth + 1, out.push(s[k]))
    } else {
        let n = next_tt(s, k);
        if k < n {
            top_code(s, n, depth, out + s.subrange(k, n))
        } else {
            (out, k)
        }
    }
}

/// The stages `STAGE( attrs, { code } );` from `k` to the end of the region,
/// after those in `acc`; and the cursor at that end.
pub open spec fn stage_list(s: Seq<Tok>, k: int, acc: Seq<StageModel>) -> Result<
    (Seq<StageModel>, int),
    SyntaxError,
>
    decreases s.len() - k,
{
    if at_end(s, k) {
        Ok((acc, k))
    } else if is_ident(s[k], "STAGE"@) {
        match spec_parse_spar_args(s, k + 1) {
            Err(e) => Err(e),
            Ok((a, after, b)) => {
                let stage = StageModel {
                    attrs: a,
                    code: s.subrange(b + 1, group_close(s, b)),
                    id: (acc.len() + 1) as usize,
                };
                if !at_end(s, after) && is_punct(s[after], ';') && k < after + 1 {
                    stage_list(s, after + 1, acc.push(stage))
                } else {
                    Err(err(ErrorKind::ExpectedSemicolon, after))
                }
            },
        }
    } else {
        Err(err(ErrorKind::ExpectedStage, k))
    }
}

/// The first `STAGE` in `k..e`.
pub open spec fn first_stage(s: Seq<Tok>, k: int, e: int) -> Option<int>
    decreases e - k,
{
    if k >= e {
        None
    } else if is_ident(s[k], "STAGE"@) {
        Some(k)
    } else {
        first_stage(s, k + 1, e)
    }
}

/// The stages of a block whose contents start at `start`, and the code
/// around them: what precedes the first `STAGE`, the marker in its place,
/// and everything that follows the group holding the stages, to the end of
/// the block. No `STAGE` may stand in that last part.
pub open spec fn spec_parse_spar_stages(s: Seq<Tok>, start: int) -> Result<
    (Seq<StageModel>, Seq<Tok>),
    SyntaxError,
> {
    let (code, p) = top_code(s, start, 0, seq![]);
    match stage_list(s, p, seq![]) {
        Err(e) => Err(e),
        Ok((st, q)) => {
            let e = match_from(s, start, 0);
            if q <= e {
                match first_stage(s, q, e) {
                    Some(i) => Err(err(ErrorKind::ScatteredStages, i)),
                    None => Ok((st, code + s.subrange(q, e))),
                }
            } else {
                Ok((st, code))
            }
        },
    }
}

/// The stage made of the code before the first `STAGE`: it takes the
/// stream's attributes, and hands on what the first stage takes.
pub open spec fn leading_stage(a: AttrsModel, code: Seq<Tok>, stages: Seq<StageModel>) -> StageModel {
    StageModel {
        attrs: attrs_model(
            a.input,
            if stages.len() > 0 {
                stages[0].attrs.input
            } else {
                a.output
            },
            a.replicate,
            a.ordered,
        ),
        code,
        id: 0,
    }
}

/// A whole stream `attrs, { code }`.
pub open spec fn spec_parse_stream(s: Seq<Tok>) -> Result<StreamModel, SyntaxError> {
    match attrs_loop(s, 0, empty_attrs()) {
        Err(e) => Err(e),
        Ok((a, b)) => match spec_parse_spar_stages(s, b + 1) {
            Err(e) => Err(e),
            Ok((stages, code)) => Ok(
                StreamModel {
                    attrs: a,
                    stages: if code.len() == 0 {
                        stages
                    } else {
                        seq![leading_stage(a, code, stages)] + stages
                    },
                },
            ),
        },
    }
}

// ---------------------------------------------------------------------------
// Executable parsers.
pub open spec fn vars_result(r: Result<(Vec<SparVar>, usize), SyntaxError>) -> Result<
    (Seq<VarModel>, int),
    SyntaxError,
> {
    match r {
        Ok((v, n)) => Ok((vars_view(v@), n as int)),
        Err(e) => Err(e),
    }
}

pub open spec fn type_result(r: Result<(Vec<Token>, usize), SyntaxError>) -> Result<
    (Seq<Tok>, int),
    SyntaxError,
> {
    match r {
        Ok((v, n)) => Ok((toks(v@), n as int)),
        Err(e) => Err(e),
    }
}

/// `,` at `k`.
pub fn skip_comma(v: &Vec<Token>, k: usize) -> (r: Result<usize, SyntaxError>)
    requires
        k <= v.len(),
    ensures
        match r {
            Ok(m) => spec_skip_comma(toks(v@), k as int) == Ok::<int, SyntaxError>(m as int),
            Err(e) => spec_skip_comma(toks(v@), k as int) == Err::<int, SyntaxError>(e),
        },
{
    if !cursor_at_end(v, k) && v[k].is_punct_char(',') {
        Ok(k + 1)
    } else {
        Err(mk_err(ErrorKind::ExpectedComma, k))
    }
}

/// The type after a variable, if any.
pub fn get_type(v: &Vec<Token>, k: usize) -> (r: Result<(Vec<Token>, usize), SyntaxError>)
    requires
        k <= v.len(),
    ensures
        type_result(r) == spec_get_type(toks(v@), k as int),
        r matches Ok((_, n)) ==> k <= n <= v.len(),
{
    let ghost s = toks(v@);
    if cursor_at_end(v, k) || v[k].is_punct_char(',') {
        let r: Vec<Token> = Vec::new();
        assert(toks(r@) =~= seq![]);
        return Ok((r, k));
    }
    if !v[k].is_punct_char(':') {
        return Err(mk_err(ErrorKind::ExpectedColon, k));
    }
    let mut e: usize = k + 1;
    while !cursor_at_end(v, e) && !v[e].is_punct_char(',')
        invariant
            s == toks(v@),
            k < e <= v.len(),
            type_end(s, k + 1) == type_end(s, e as int),
        decreases v.len() - e,
    {
        e = skip_tree(v, e);
    }
    if e == k + 1 {
        Err(mk_err(ErrorKind::ExpectedType, k + 1))
    } else {
        Ok((copy_range(v, k + 1, e), e))
    }
}

/// A parenthesised group at `i`: the cursor of its contents and the cursor
/// after it.
pub fn skip_parenthesis(v: &Vec<Token>, i: usize) -> (r: Result<(usize, usize), SyntaxError>)
    requires
        i <= v.len(),
    ensures
        match r {
            Ok((a, n)) => spec_skip_parenthesis(toks(v@), i as int) == Ok::<(int, int), SyntaxError>(
                (a as int, n as int),
            ),
            Err(e) => spec_skip_parenthesis(toks(v@), i as int) == Err::<(int, int), SyntaxError>(e),
        },
        r matches Ok((a, n)) ==> a == i + 1 && i < n <= v.len() && !at_end(toks(v@), i as int)
            && toks(v@)[i as int] == Tok::Open(Delimiter::Parenthesis),
{
    if cursor_at_end(v, i) || !(match &v[i] {
        Token::Open(Delimiter::Parenthesis) => true,
        _ => false,
    }) {
        return Err(mk_err(ErrorKind::ExpectedParenthesis, i));
    }
    assert(toks(v@)[i as int] == Tok::Open(Delimiter::Parenthesis));
    Ok((i + 1, skip_tree(v, i)))
}

/// Whether a variable named `name` is among `vars`.
fn contains_name(vars: &Vec<SparVar>, name: &String) -> (r: bool)
    ensures
        r == has_name(vars_view(vars@), name@),
{
    let mut j: usize = 0;
    while j < vars.len()
        invariant
            j <= vars.len(),
            forall|t: int| 0 <= t < j ==> (#[trigger] vars@[t])@.name != name@,
        decreases vars.len() - j,
    {
        if vars[j].identifier == *name {
            assert(vars_view(vars@)[j as int].name == name@);
            return true;
        }
        j = j + 1;
    }
    assert forall|t: int| 0 <= t < vars_view(vars@).len() implies (#[trigger] vars_view(
        vars@,
    )[t]).name != name@ by {
        assert(vars_view(vars@)[t] == vars@[t]@);
    }
    false
}

/// `( var (: type)?, ... )` at `i`.
pub fn get_variables(v: &Vec<Token>, i: usize) -> (r: Result<(Vec<SparVar>, usize), SyntaxError>)
    requires
        i <= v.len(),
    ensures
        vars_result(r) == spec_get_variables(toks(v@), i as int),
        r matches Ok((_, n)) ==> i < n <= v.len(),
{
    let ghost s = toks(v@);
    let (args, after) = match skip_parenthesis(v, i) {
        Ok(x) => x,
        Err(e) => {
            return Err(e);
        },
    };
    let mut vars: Vec<SparVar> = Vec::new();
    let mut k: usize = args;
    assert(vars_view(vars@) =~= seq![]);
    while !cursor_at_end(v, k)
        invariant
            s == toks(v@),
            i < k <= v.len(),
            after == next_tt(s, i as int),
            !at_end(s, i as int),
            s[i as int] == Tok::Open(Delimiter::Parenthesis),
            var_list(s, i + 1, seq![]) == var_list(s, k as int, vars_view(vars@)),
        decreases v.len() - k,
    {
        let name = match &v[k] {
            Token::Ident(x) => x.clone(),
            _ => {
                return Err(mk_err(ErrorKind::ExpectedVariable, k));
            },
        };
        if contains_name(&vars, &name) {
            return Err(mk_err(ErrorKind::DuplicateVariable, k));
        }
        let (ty, n) = match get_type(v, k + 1) {
            Ok(x) => x,
            Err(e) => {
                return Err(e);
            },
        };
        let var = SparVar { identifier: name, var_type: ty };
        let ghost before = vars@;
        vars.push(var);
        assert(vars_view(vars@) =~= vars_view(before).push(var@));
        if cursor_at_end(v, n) {
            return Ok((vars, after));
        }
        match skip_comma(v, n) {
            Ok(m) => {
                k = m;
            },
            Err(e) => {
                return Err(e);
            },
        }
    }
    Ok((vars, after))
}

/// `= N` at `k`.
pub fn parse_replicate(v: &Vec<Token>, k: usize) -> (r: Result<(u32, usize), SyntaxError>)
    requires
        k <= v.len(),
    ensures
        match r {
            Ok((n, m)) => spec_parse_replicate(toks(v@), k as int) == Ok::<(u32, int), SyntaxError>(
                (n, m as int),
            ),
            Err(e) => spec_parse_replicate(toks(v@), k as int) == Err::<(u32, int), SyntaxError>(e),
        },
        r matches Ok((_, m)) ==> k < m <= v.len(),
{
    if !cursor_at_end(v, k) && v[k].is_punct_char('=') && !cursor_at_end(v, k + 1) {
        if let Token::Literal(text) = &v[k + 1] {
            return match parse_u32(text.as_str()) {
                Some(n) => if n == 0 {
                    Err(mk_err(ErrorKind::ZeroReplicate, k))
                } else {
                    Ok((n, k + 2))
                },
                None => Err(mk_err(ErrorKind::InvalidReplicate, k)),
            };
        }
    }
    Err(mk_err(ErrorKind::InvalidReplicate, k))
}


pub open spec fn attrs_result(r: Result<(SparAttrs, usize), SyntaxError>) -> Result<
    (AttrsModel, int),
    SyntaxError,
> {
    match r {
        Ok((a, b)) => Ok((a@, b as int)),
        Err(e) => Err(e),
    }
}

/// The clauses of an attribute list from `start` on, up to its code block.
fn parse_attr_list(v: &Vec<Token>, start: usize) -> (r: Result<(SparAttrs, usize), SyntaxError>)
    requires
        start <= v.len(),
    ensures
        attrs_result(r) == attrs_loop(toks(v@), start as int, empty_attrs()),
        r matches Ok((_, b)) ==> start <= b < v.len() && toks(v@)[b as int] == Tok::Open(
            Delimiter::Brace,
        ),
{
    let ghost s = toks(v@);
    let mut input: Vec<SparVar> = Vec::new();
    let mut output: Vec<SparVar> = Vec::new();
    let mut replicate: Option<u32> = None;
    let mut ordered = false;
    let mut k: usize = start;
    assert(vars_view(input@) =~= seq![]);
    assert(vars_view(output@) =~= seq![]);
    loop
        invariant
            s == toks(v@),
            start <= k <= v.len(),
            attrs_loop(s, start as int, empty_attrs()) == attrs_loop(
                s,
                k as int,
                attrs_model(vars_view(input@), vars_view(output@), replicate, ordered),
            ),
        decreases v.len() - k,
    {
        if cursor_at_end(v, k) {
            return Err(mk_err(ErrorKind::MissingBlock, k));
        }
        if v[k].is_ident_named("INPUT") {
            if input.len() > 0 {
                return Err(mk_err(ErrorKind::DuplicateInput, k));
            }
            let (vars, n) = match get_variables(v, k + 1) {
                Ok(x) => x,
                Err(e) => {
                    return Err(e);
                },
            };
            if vars.len() == 0 {
                return Err(mk_err(ErrorKind::EmptyInput, k));
            }
            input = vars;
            k = match skip_comma(v, n) {
                Ok(m) => m,
                Err(e) => {
                    return Err(e);
                },
            };
        } else if v[k].is_ident_named("OUTPUT") {
            if output.len() > 0 {
                return Err(mk_err(ErrorKind::DuplicateOutput, k));
            }
            let (vars, n) = match get_variables(v, k + 1) {
                Ok(x) => x,
                Err(e) => {
                    return Err(e);
                },
            };
            if vars.len() == 0 {
                return Err(mk_err(ErrorKind::EmptyOutput, k));
            }
            output = vars;
            k = match skip_comma(v, n) {
                Ok(m) => m,
                Err(e) => {
                    return Err(e);
                },
            };
        } else if v[k].is_ident_named("REPLICATE") {
            if replicate.is_some() {
                return Err(mk_err(ErrorKind::DuplicateReplicate, k));
            }
            let (count, n) = match parse_replicate(v, k + 1) {
                Ok(x) => x,
                Err(e) => {
                    return Err(e);
                },
            };
            replicate = Some(count);
            k = match skip_comma(v, n) {
                Ok(m) => m,
                Err(e) => {
                    return Err(e);
                },
            };
        } else if v[k].is_ident_named("ORDERED") {
            if ordered {
                return Err(mk_err(ErrorKind::DuplicateOrdered, k));
            }
            ordered = true;
            k = match skip_comma(v, k + 1) {
                Ok(m) => m,
                Err(e) => {
                    return Err(e);
                },
            };
        } else if match &v[k] {
            Token::Open(Delimiter::Brace) => true,
            _ => false,
        } {
            assert(s[k as int] == Tok::Open(Delimiter::Brace));
            let n = skip_tree(v, k);
            if cursor_at_end(v, n) {
                return Ok((SparAttrs { input, output, replicate, ordered }, k));
            } else {
                return Err(mk_err(ErrorKind::TrailingTokens, n));
            }
        } else {
            assert(s[k as int] != Tok::Open(Delimiter::Brace));
            return Err(mk_err(ErrorKind::UnexpectedToken, k));
        }
    }
}

pub open spec fn args_result(r: Result<(SparAttrs, usize, usize), SyntaxError>) -> Result<
    (AttrsModel, int, int),
    SyntaxError,
> {
    match r {
        Ok((a, n, b)) => Ok((a@, n as int, b as int)),
        Err(e) => Err(e),
    }
}

/// `( attrs, { code } )` at `i`: the attributes, the cursor after the
/// parentheses, and the index of the code block's `{`.
pub fn parse_spar_args(v: &Vec<Token>, i: usize) -> (r: Result<(SparAttrs, usize, usize), SyntaxError>)
    requires
        i <= v.len(),
    ensures
        args_result(r) == spec_parse_spar_args(toks(v@), i as int),
        r matches Ok((_, n, b)) ==> i < n <= v.len() && i < b < v.len() && toks(v@)[b as int]
            == Tok::Open(Delimiter::Brace),
{
    let (args, after) = match skip_parenthesis(v, i) {
        Ok(x) => x,
        Err(e) => {
            return Err(e);
        },
    };
    match parse_attr_list(v, args) {
        Ok((a, b)) => Ok((a, after, b)),
        Err(e) => Err(e),
    }
}


fn marker_token() -> (r: Token)
    ensures
        r@ == marker(),
{
    Token::Ident(String::from_str("__SPAR_MARKER__"))
}

/// Appends `depth` closing braces.
fn push_closes(out: &mut Vec<Token>, depth: usize)
    ensures
        toks(final(out)@) == toks(old(out)@) + closes(depth as nat),
{
    let mut j: usize = 0;
    while j < depth
        invariant
            j <= depth,
            toks(out@) == toks(old(out)@) + closes(j as nat),
        decreases depth - j,
    {
        let t = Token::Close(Delimiter::Brace);
        proof {
            lemma_toks_push(out@, t);
        }
        out.push(t);
        j = j + 1;
        assert(toks(out@) =~= toks(old(out)@) + closes(j as nat));
    }
}

/// The code before the first `STAGE` of the region that starts at `start`,
/// with the scopes around that `STAGE` closed and the marker in its place;
/// and the cursor at that `STAGE`. The nesting is walked with a counter of
/// open scopes rather than by recursion, so any depth is handled.
fn top_level_code(v: &Vec<Token>, start: usize) -> (r: (Vec<Token>, usize))
    requires
        start <= v.len(),
    ensures
        (toks(r.0@), r.1 as int) == top_code(toks(v@), start as int, 0, seq![]),
        r.1 <= v.len(),
{
    let ghost s = toks(v@);
    let mut out: Vec<Token> = Vec::new();
    let mut depth: usize = 0;
    let mut k: usize = start;
    assert(toks(out@) =~= seq![]);
    loop
        invariant
            s == toks(v@),
            start <= k <= v.len(),
            depth <= k,
            top_code(s, start as int, 0, seq![]) == top_code(
                s,
                k as int,
                depth as nat,
                toks(out@),
            ),
        decreases v.len() - k,
    {
        if k >= v.len() {
            push_closes(&mut out, depth);
            return (out, k);
        }
        if v[k].is_close() {
            if depth == 0 {
                return (out, k);
            }
            let t = v[k].duplicate();
            proof {
                lemma_toks_push(out@, t);
            }
            out.push(t);
            depth = depth - 1;
            k = k + 1;
        } else if v[k].is_ident_named("STAGE") {
            if out.len() != depth {
                let t = marker_token();
                proof {
                    lemma_toks_push(out@, t);
                }
                out.push(t);
            }
            return (out, k);
        } else if match &v[k] {
            Token::Open(Delimiter::Brace) => true,
            _ => false,
        } {
            assert(s[k as int] == Tok::Open(Delimiter::Brace));
            let t = v[k].duplicate();
            proof {
                lemma_toks_push(out@, t);
            }
            out.push(t);
            depth = depth + 1;
            k = k + 1;
        } else {
            assert(s[k as int] != Tok::Open(Delimiter::Brace));
            let n = skip_tree(v, k);
            let piece = copy_range(v, k, n);
            extend_tokens(&mut out, &piece);
            k = n;
        }
    }
}

pub open spec fn stages_result(r: Result<(Vec<SparStage>, Vec<Token>), SyntaxError>) -> Result<
    (Seq<StageModel>, Seq<Tok>),
    SyntaxError,
> {
    match r {
        Ok((st, code)) => Ok((stages_view(st@), toks(code@))),
        Err(e) => Err(e),
    }
}

/// The stages of the block whose contents start at `start`, and the code
/// that precedes the first of them.
pub fn parse_spar_stages(v: &Vec<Token>, start: usize) -> (r: Result<
    (Vec<SparStage>, Vec<Token>),
    SyntaxError,
>)
    requires
        start <= v.len(),
    ensures
        stages_result(r) == spec_parse_spar_stages(toks(v@), start as int),
{
    let ghost s = toks(v@);
    let (code, p) = top_level_code(v, start);
    let mut stages: Vec<SparStage> = Vec::new();
    let mut k: usize = p;
    assert(stages_view(stages@) =~= seq![]);
    while !cursor_at_end(v, k)
        invariant
            s == toks(v@),
            k <= v.len(),
            stages@.len() <= k,
            top_code(s, start as int, 0, seq![]) == (toks(code@), p as int),
            stage_list(s, p as int, seq![]) == stage_list(s, k as int, stages_view(stages@)),
            start <= v.len(),
        decreases v.len() - k,
    {
        if !v[k].is_ident_named("STAGE") {
            return Err(mk_err(ErrorKind::ExpectedStage, k));
        }
        let (attrs, after, b) = match parse_spar_args(v, k + 1) {
            Ok(x) => x,
            Err(e) => {
                return Err(e);
            },
        };
        let end = find_group_close(v, b);
        let body = copy_range(v, b + 1, end);
        let stage = SparStage { attrs, code: body, id: stages.len() + 1 };
        if cursor_at_end(v, after) || !v[after].is_punct_char(';') {
            return Err(mk_err(ErrorKind::ExpectedSemicolon, after));
        }
        let ghost before = stages@;
        stages.push(stage);
        assert(stages_view(stages@) =~= stages_view(before).push(stage@));
        k = after + 1;
    }
    let e = region_end(v, start);
    if k > e {
        return Ok((stages, code));
    }
    let mut i: usize = k;
    while i < e
        invariant
            s == toks(v@),
            k <= i <= e <= v.len(),
            e == match_from(s, start as int, 0),
            top_code(s, start as int, 0, seq![]) == (toks(code@), p as int),
            stage_list(s, p as int, seq![]) == Ok::<(Seq<StageModel>, int), SyntaxError>(
                (stages_view(stages@), k as int),
            ),
            first_stage(s, k as int, e as int) == first_stage(s, i as int, e as int),
        decreases e - i,
    {
        if v[i].is_ident_named("STAGE") {
            return Err(mk_err(ErrorKind::ScatteredStages, i));
        }
        i = i + 1;
    }
    let mut code = code;
    let tail = copy_range(v, k, e);
    extend_tokens(&mut code, &tail);
    Ok((stages, code))
}


impl SparVar {
    pub fn new(identifier: String, var_type: Vec<Token>) -> (r: SparVar)
        ensures
            r.identifier == identifier,
            r.var_type == var_type,
    {
        SparVar { identifier, var_type }
    }

    /// A copy with the same value.
    pub fn duplicate(&self) -> (r: SparVar)
        ensures
            r@ == self@,
    {
        let ty = copy_range(&self.var_type, 0, self.var_type.len());
        assert(toks(self.var_type@).subrange(0, self.var_type@.len() as int) =~= toks(
            self.var_type@,
        ));
        SparVar { identifier: self.identifier.clone(), var_type: ty }
    }
}

/// A copy of a list of variables.
pub fn copy_vars(vars: &Vec<SparVar>) -> (r: Vec<SparVar>)
    ensures
        vars_view(r@) == vars_view(vars@),
{
    let mut r: Vec<SparVar> = Vec::new();
    let mut j: usize = 0;
    while j < vars.len()
        invariant
            j <= vars.len(),
            vars_view(r@) == vars_view(vars@).subrange(0, j as int),
        decreases vars.len() - j,
    {
        let x = vars[j].duplicate();
        let ghost before = r@;
        r.push(x);
        j = j + 1;
        assert(vars_view(r@) =~= vars_view(vars@).subrange(0, j as int)) by {
            assert(vars_view(r@) =~= vars_view(before).push(x@));
        }
    }
    assert(vars_view(vars@).subrange(0, vars@.len() as int) =~= vars_view(vars@));
    r
}

impl SparAttrs {
    /// Attributes without `ORDERED`.
    pub fn new(input: Vec<SparVar>, output: Vec<SparVar>, replicate: Option<u32>) -> (r: SparAttrs)
        ensures
            r.input == input,
            r.output == output,
            r.replicate == replicate,
            !r.ordered,
    {
        SparAttrs { input, output, replicate, ordered: false }
    }
}

impl SparStage {
    pub fn new(attrs: SparAttrs, code: Vec<Token>, id: usize) -> (r: SparStage)
        ensures
            r.attrs == attrs,
            r.code == code,
            r.id == id,
    {
        SparStage { attrs, code, id }
    }
}

impl SparStream {
    /// Parses the whole argument of the stream annotation,
    /// `attrs, { code with STAGEs }`.
    pub fn try_from(v: &Vec<Token>) -> (r: Result<SparStream, SyntaxError>)
        ensures
            match r {
                Ok(st) => spec_parse_stream(toks(v@)) == Ok::<StreamModel, SyntaxError>(st@),
                Err(e) => spec_parse_stream(toks(v@)) == Err::<StreamModel, SyntaxError>(e),
            },
    {
        let (attrs, b) = match parse_attr_list(v, 0) {
            Ok(x) => x,
            Err(e) => {
                return Err(e);
            },
        };
        let (mut stages, code) = match parse_spar_stages(v, b + 1) {
            Ok(x) => x,
            Err(e) => {
                return Err(e);
            },
        };
        if code.len() > 0 {
            let output = if stages.len() > 0 {
                copy_vars(&stages[0].attrs.input)
            } else {
                copy_vars(&attrs.output)
            };
            let lead_attrs = SparAttrs {
                input: copy_vars(&attrs.input),
                output,
                replicate: attrs.replicate,
                ordered: attrs.ordered,
            };
            let lead = SparStage { attrs: lead_attrs, code, id: 0 };
            let ghost before = stages@;
            proof {
                if before.len() > 0 {
                    assert(stages_view(before)[0] == before[0]@);
                }
            }
            stages.insert(0, lead);
            assert(stages_view(stages@) =~= seq![lead@] + stages_view(before));
        }
        Ok(SparStream { attrs, stages })
    }
}

// ---------------------------------------------------------------------------
// Laws of the grammar.
proof fn lemma_var_list_unique(s: Seq<Tok>, k: int, acc: Seq<VarModel>)
    requires
        names_unique(acc),
    ensures
        var_list(s, k, acc) matches Ok(r) ==> names_unique(r),
    decreases s.len() - k,
{
    if !at_end(s, k) && s[k] is Ident {
        let name = s[k]->Ident_0;
        if !has_name(acc, name) {
            if let Ok((ty, n)) = spec_get_type(s, k + 1) {
                let acc2 = acc.push(VarModel { name, ty });
                assert(names_unique(acc2)) by {
                    assert forall|a: int, b: int|
                        0 <= a < acc2.len() && 0 <= b < acc2.len() && a != b implies (
                        #[trigger] acc2[a]).name != (#[trigger] acc2[b]).name by {
                        if a == acc.len() as int {
                            assert(acc2[b] == acc[b]);
                        } else if b == acc.len() as int {
                            assert(acc2[a] == acc[a]);
                        } else {
                            assert(acc2[a] == acc[a] && acc2[b] == acc[b]);
                        }
                    }
                }
                if !at_end(s, n) {
                    if let Ok(m) = spec_skip_comma(s, n) {
                        if k < m {
                            lemma_var_list_unique(s, m, acc2);
                        }
                    }
                }
            }
        }
    }
}

proof fn lemma_get_variables_unique(s: Seq<Tok>, i: int)
    ensures
        spec_get_variables(s, i) matches Ok((vars, _)) ==> names_unique(vars),
{
    lemma_var_list_unique(s, i + 1, seq![]);
}

proof fn lemma_attrs_loop_wf(s: Seq<Tok>, k: int, a: AttrsModel)
    requires
        attrs_wf(a),
    ensures
        attrs_loop(s, k, a) matches Ok((r, _)) ==> attrs_wf(r),
    decreases s.len() - k,
{
    if at_end(s, k) {
    } else if is_ident(s[k], "INPUT"@) || is_ident(s[k], "OUTPUT"@) {
        lemma_get_variables_unique(s, k + 1);
        if let Ok((vars, n)) = spec_get_variables(s, k + 1) {
            if let Ok(m) = spec_skip_comma(s, n) {
                if k < m {
                    lemma_attrs_loop_wf(s, m, attrs_model(vars, a.output, a.replicate, a.ordered));
                    lemma_attrs_loop_wf(s, m, attrs_model(a.input, vars, a.replicate, a.ordered));
                }
            }
        }
    } else if is_ident(s[k], "REPLICATE"@) {
        if let Ok((r, n)) = spec_parse_replicate(s, k + 1) {
            if let Ok(m) = spec_skip_comma(s, n) {
                if k < m {
                    lemma_attrs_loop_wf(s, m, attrs_model(a.input, a.output, Some(r), a.ordered));
                }
            }
        }
    } else if is_ident(s[k], "ORDERED"@) {
        if let Ok(m) = spec_skip_comma(s, k + 1) {
            lemma_attrs_loop_wf(s, m, attrs_model(a.input, a.output, a.replicate, true));
        }
    }
}

/// Every attribute list that parses names each of its inputs once and each
/// of its outputs once, and asks for a positive number of workers if any.
pub proof fn lemma_parsed_attrs_wf(s: Seq<Tok>, i: int)
    ensures
        spec_parse_spar_args(s, i) matches Ok((a, _, _)) ==> attrs_wf(a),
{
    lemma_attrs_loop_wf(s, i + 1, empty_attrs());
}

proof fn lemma_stage_list_wf(s: Seq<Tok>, k: int, acc: Seq<StageModel>)
    requires
        forall|j: int| 0 <= j < acc.len() ==> attrs_wf((#[trigger] acc[j]).attrs),
    ensures
        stage_list(s, k, acc) matches Ok((r, _)) ==> forall|j: int|
            0 <= j < r.len() ==> attrs_wf((#[trigger] r[j]).attrs),
    decreases s.len() - k,
{
    if !at_end(s, k) && is_ident(s[k], "STAGE"@) {
        lemma_parsed_attrs_wf(s, k + 1);
        if let Ok((a, after, b)) = spec_parse_spar_args(s, k + 1) {
            let stage = StageModel {
                attrs: a,
                code: s.subrange(b + 1, group_close(s, b)),
                id: (acc.len() + 1) as usize,
            };
            if !at_end(s, after) && is_punct(s[after], ';') && k < after + 1 {
                let acc2 = acc.push(stage);
                assert forall|j: int| 0 <= j < acc2.len() implies attrs_wf(
                    (#[trigger] acc2[j]).attrs,
                ) by {
                    if j < acc.len() {
                        assert(acc2[j] == acc[j]);
                    }
                }
                lemma_stage_list_wf(s, after + 1, acc2);
            }
        }
    }
}

/// In a stream that parses, the stream's attributes and every stage's are
/// well formed: no variable is listed twice in an `INPUT` or an `OUTPUT`,
/// and no `REPLICATE` is zero.
pub proof fn lemma_stream_attrs_wf(s: Seq<Tok>)
    ensures
        spec_parse_stream(s) matches Ok(m) ==> attrs_wf(m.attrs) && forall|j: int|
            0 <= j < m.stages.len() ==> attrs_wf((#[trigger] m.stages[j]).attrs),
{
    lemma_attrs_loop_wf(s, 0, empty_attrs());
    if let Ok((a, b)) = attrs_loop(s, 0, empty_attrs()) {
        let (code, p) = top_code(s, b + 1, 0, seq![]);
        lemma_stage_list_wf(s, p, seq![]);
        if let Ok((stages, code)) = spec_parse_spar_stages(s, b + 1) {
            if code.len() != 0 {
                let all = seq![leading_stage(a, code, stages)] + stages;
                assert forall|j: int| 0 <= j < all.len() implies attrs_wf(
                    (#[trigger] all[j]).attrs,
                ) by {
                    if j > 0 {
                        assert(all[j] == stages[j - 1]);
                    }
                }
            }
        }
    }
}

/// `= N`, with `N` written as a decimal numeral: zero is refused, and any
/// other count is read back exactly.
pub proof fn lemma_replicate_round_trip(s: Seq<Tok>, k: int, n: u32)
    requires
        0 <= k,
        k + 1 < s.len(),
        is_punct(s[k], '='),
        s[k + 1] == Tok::Literal(crate::decimal::decimal(n as nat)),
    ensures
        n == 0 ==> spec_parse_replicate(s, k) == Err::<(u32, int), SyntaxError>(
            err(ErrorKind::ZeroReplicate, k),
        ),
        n > 0 ==> spec_parse_replicate(s, k) == Ok::<(u32, int), SyntaxError>((n, k + 2)),
{
    crate::decimal::lemma_decimal_round_trip(n as nat);
}

proof fn lemma_attrs_loop_keeps_replicate(s: Seq<Tok>, k: int, a: AttrsModel)
    requires
        a.replicate is Some,
    ensures
        attrs_loop(s, k, a) matches Ok((r, _)) ==> r.replicate == a.replicate,
    decreases s.len() - k,
{
    if at_end(s, k) {
    } else if is_ident(s[k], "INPUT"@) || is_ident(s[k], "OUTPUT"@) {
        if let Ok((vars, n)) = spec_get_variables(s, k + 1) {
            if let Ok(m) = spec_skip_comma(s, n) {
                if k < m {
                    lemma_attrs_loop_keeps_replicate(s, m, attrs_model(vars, a.output, a.replicate, a.ordered));
                    lemma_attrs_loop_keeps_replicate(s, m, attrs_model(a.input, vars, a.replicate, a.ordered));
                }
            }
        }
    } else if is_ident(s[k], "ORDERED"@) {
        if let Ok(m) = spec_skip_comma(s, k + 1) {
            lemma_attrs_loop_keeps_replicate(s, m, attrs_model(a.input, a.output, a.replicate, true));
        }
    }
}

/// In any attribute list, the clause `REPLICATE = N,` with `N` written as a
/// decimal numeral: zero is refused at that clause, and any other count is
/// exactly what the parsed attributes hold whenever the rest of the list
/// parses.
pub proof fn lemma_replicate_clause(s: Seq<Tok>, k: int, a: AttrsModel, n: u32)
    requires
        0 <= k,
        k + 3 < s.len(),
        is_ident(s[k], "REPLICATE"@),
        is_punct(s[k + 1], '='),
        s[k + 2] == Tok::Literal(crate::decimal::decimal(n as nat)),
        is_punct(s[k + 3], ','),
        a.replicate is None,
    ensures
        n == 0 ==> attrs_loop(s, k, a) == Err::<(AttrsModel, int), SyntaxError>(
            err(ErrorKind::ZeroReplicate, k + 1),
        ),
        n > 0 ==> attrs_loop(s, k, a) == attrs_loop(
            s,
            k + 4,
            attrs_model(a.input, a.output, Some(n), a.ordered),
        ),
        n > 0 ==> (attrs_loop(s, k, a) matches Ok((r, _)) ==> r.replicate == Some(n)),
{
    reveal_strlit("REPLICATE");
    reveal_strlit("INPUT");
    reveal_strlit("OUTPUT");
    assert("REPLICATE"@.len() == 9 && "INPUT"@.len() == 5 && "OUTPUT"@.len() == 6);
    assert("REPLICATE"@ != "INPUT"@);
    assert("REPLICATE"@ != "OUTPUT"@);
    lemma_replicate_round_trip(s, k + 1, n);
    if n > 0 {
        lemma_attrs_loop_keeps_replicate(s, k + 4, attrs_model(a.input, a.output, Some(n), a.ordered));
    }
}

} // verus!
