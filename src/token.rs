//! A flat token buffer.
//!
//! A nested token tree is laid out as one sequence in which every delimited
//! group is written as an `Open` marker, the group's contents, and a `Close`
//! marker. A cursor into a region is an index; a region ends at the first
//! `Close` at its own nesting level, or at the end of the buffer.
use vstd::prelude::*;

verus! {

/// The delimiter of a group.
#[derive(Clone, Copy, Debug, PartialEq, Eq, Structural)]
pub enum Delimiter {
    Parenthesis,
    Brace,
    Bracket,
    Invisible,
}

/// One entry of a flat token buffer.
#[derive(Debug, PartialEq, Eq)]
pub enum Token {
    Ident(String),
    /// A punctuation character; the flag is set when it is joined to the next one.
    Punct(char, bool),
    Literal(String),
    Open(Delimiter),
    Close(Delimiter),
}

/// The mathematical value of a [`Token`].
pub enum Tok {
    Ident(Seq<char>),
    Punct(char, bool),
    Literal(Seq<char>),
    Open(Delimiter),
    Close(Delimiter),
}

impl View for Token {
    type V = Tok;

    open spec fn view(&self) -> Tok {
        match self {
            Token::Ident(s) => Tok::Ident(s@),
            Token::Punct(c, j) => Tok::Punct(*c, *j),
            Token::Literal(s) => Tok::Literal(s@),
            Token::Open(d) => Tok::Open(*d),
            Token::Close(d) => Tok::Close(*d),
        }
    }
}

/// The value of a token buffer.
pub open spec fn toks(v: Seq<Token>) -> Seq<Tok> {
    v.map_values(|t: Token| t@)
}

pub open spec fn is_punct(t: Tok, c: char) -> bool {
    match t {
        Tok::Punct(x, _) => x == c,
        _ => false,
    }
}

pub open spec fn is_ident(t: Tok, name: Seq<char>) -> bool {
    match t {
        Tok::Ident(x) => x == name,
        _ => false,
    }
}

/// The region that a cursor at `i` walks has no token left.
pub open spec fn at_end(s: Seq<Tok>, i: int) -> bool {
    i >= s.len() || s[i] is Close
}

/// The index of the `Close` that ends the region entered at `k`, `depth`
/// groups deep (the buffer's length if there is none).
pub open spec fn match_from(s: Seq<Tok>, k: int, depth: nat) -> int
    decreases s.len() - k,
{
    if k >= s.len() {
        s.len() as int
    } else if s[k] is Open {
        match_from(s, k + 1, depth + 1)
    } else if s[k] is Close {
        if depth == 0 {
            k
        } else {
            match_from(s, k + 1, (depth - 1) as nat)
        }
    } else {
        match_from(s, k + 1, depth)
    }
}

/// The index of the `Close` that ends the group opened at `i`, or the
/// buffer's length.
pub open spec fn group_close(s: Seq<Tok>, i: int) -> int {
    let e = match_from(s, i + 1, 0);
    if i < e < s.len() {
        e
    } else {
        s.len() as int
    }
}

/// The cursor after the token tree at `i`: past its `Close` for a group.
pub open spec fn next_tt(s: Seq<Tok>, i: int) -> int {
    if s[i] is Open {
        let e = group_close(s, i);
        if e < s.len() {
            e + 1
        } else {
            s.len() as int
        }
    } else {
        i + 1
    }
}

pub proof fn lemma_toks_push(a: Seq<Token>, t: Token)
    ensures
        toks(a.push(t)) == toks(a).push(t@),
{
    assert(toks(a.push(t)) =~= toks(a).push(t@));
}

pub proof fn lemma_match_from_bounds(s: Seq<Tok>, k: int, depth: nat)
    requires
        0 <= k,
    ensures
        k <= match_from(s, k, depth) || k > s.len(),
        match_from(s, k, depth) <= s.len(),
    decreases s.len() - k,
{
    if k < s.len() {
        if s[k] is Open {
            lemma_match_from_bounds(s, k + 1, depth + 1);
        } else if s[k] is Close {
            if depth != 0 {
                lemma_match_from_bounds(s, k + 1, (depth - 1) as nat);
            }
        } else {
            lemma_match_from_bounds(s, k + 1, depth);
        }
    }
}

impl Token {
    /// A copy of the token with the same value.
    pub fn duplicate(&self) -> (r: Token)
        ensures
            r@ == self@,
    {
        match self {
            Token::Ident(s) => Token::Ident(s.clone()),
            Token::Punct(c, j) => Token::Punct(*c, *j),
            Token::Literal(s) => Token::Literal(s.clone()),
            Token::Open(d) => Token::Open(*d),
            Token::Close(d) => Token::Close(*d),
        }
    }

    pub fn is_close(&self) -> (r: bool)
        ensures
            r == (self@ is Close),
    {
        match self {
            Token::Close(_) => true,
            _ => false,
        }
    }

    pub fn is_punct_char(&self, c: char) -> (r: bool)
        ensures
            r == is_punct(self@, c),
    {
        match self {
            Token::Punct(x, _) => *x == c,
            _ => false,
        }
    }

    /// Whether this is the identifier `name`.
    pub fn is_ident_named(&self, name: &str) -> (r: bool)
        ensures
            r == is_ident(self@, name@),
    {
        match self {
            Token::Ident(x) => {
                let n = String::from_str(name);
                *x == n
            },
            _ => false,
        }
    }
}

/// Whether the region walked from `i` has no token left.
pub fn cursor_at_end(v: &Vec<Token>, i: usize) -> (r: bool)
    ensures
        r == at_end(toks(v@), i as int),
{
    i >= v.len() || v[i].is_close()
}

/// The index of the `Close` that ends the region entered at `k`, or the
/// buffer's length.
pub fn region_end(v: &Vec<Token>, start: usize) -> (r: usize)
    requires
        start <= v.len(),
    ensures
        r == match_from(toks(v@), start as int, 0),
        start <= r <= v.len(),
{
    let ghost s = toks(v@);
    let mut k: usize = start;
    let mut depth: usize = 0;
    proof {
        lemma_match_from_bounds(s, start as int, 0);
    }
    while k < v.len()
        invariant
            s == toks(v@),
            start <= k <= v.len(),
            depth <= k,
            match_from(s, start as int, 0) == match_from(s, k as int, depth as nat),
        ensures
            start <= k <= v.len(),
            match_from(s, start as int, 0) == match_from(s, k as int, depth as nat),
            k < v.len() ==> (s[k as int] is Close && depth == 0),
        decreases v.len() - k,
    {
        match &v[k] {
            Token::Open(_) => {
                depth = depth + 1;
            },
            Token::Close(_) => {
                if depth == 0 {
                    break;
                }
                depth = depth - 1;
            },
            _ => {},
        }
        k = k + 1;
    }
    proof {
        lemma_match_from_bounds(s, k as int, depth as nat);
    }
    k
}

/// The index of the `Close` that ends the group opened at `i`, or the
/// buffer's length.
pub fn find_group_close(v: &Vec<Token>, i: usize) -> (r: usize)
    requires
        i < v.len(),
    ensures
        r == group_close(toks(v@), i as int),
        i < r <= v.len(),
{
    region_end(v, i + 1)
}

/// The cursor after the token tree at `i`.
pub fn skip_tree(v: &Vec<Token>, i: usize) -> (r: usize)
    requires
        i < v.len(),
    ensures
        r == next_tt(toks(v@), i as int),
        i < r <= v.len(),
{
    match &v[i] {
        Token::Open(_) => {
            let e = find_group_close(v, i);
            if e < v.len() {
                e + 1
            } else {
                v.len()
            }
        },
        _ => i + 1,
    }
}

/// A copy of the tokens in `a..b`.
pub fn copy_range(v: &Vec<Token>, a: usize, b: usize) -> (r: Vec<Token>)
    requires
        a <= b <= v.len(),
    ensures
        toks(r@) == toks(v@).subrange(a as int, b as int),
{
    let mut r: Vec<Token> = Vec::new();
    let mut k: usize = a;
    while k < b
        invariant
            a <= k <= b <= v.len(),
            toks(r@) == toks(v@).subrange(a as int, k as int),
        decreases b - k,
    {
        let t = v[k].duplicate();
        proof {
            lemma_toks_push(r@, t);
        }
        r.push(t);
        k = k + 1;
        assert(toks(r@) =~= toks(v@).subrange(a as int, k as int));
    }
    r
}

/// Appends a copy of every token of `src` to `out`.
pub fn extend_tokens(out: &mut Vec<Token>, src: &Vec<Token>)
    ensures
        toks(final(out)@) == toks(old(out)@) + toks(src@),
{
    let mut k: usize = 0;
    while k < src.len()
        invariant
            k <= src.len(),
            toks(out@) == toks(old(out)@) + toks(src@).subrange(0, k as int),
        decreases src.len() - k,
    {
        let t = src[k].duplicate();
        proof {
            lemma_toks_push(out@, t);
        }
        out.push(t);
        k = k + 1;
        assert(toks(out@) =~= toks(old(out)@) + toks(src@).subrange(0, k as int));
    }
    assert(toks(src@).subrange(0, src.len() as int) =~= toks(src@));
}

/// An identifier token.
pub fn ident(s: &str) -> (r: Token)
    ensures
        r@ == Tok::Ident(s@),
{
    Token::Ident(String::from_str(s))
}

/// A punctuation token that stands alone.
pub fn punct(c: char) -> (r: Token)
    ensures
        r@ == Tok::Punct(c, false),
{
    Token::Punct(c, false)
}

/// A punctuation token joined to the next one.
pub fn joint(c: char) -> (r: Token)
    ensures
        r@ == Tok::Punct(c, true),
{
    Token::Punct(c, true)
}

/// Appends the tokens of `piece` to `out`.
pub fn emit(out: &mut Vec<Token>, piece: Vec<Token>)
    ensures
        toks(final(out)@) == toks(old(out)@) + toks(piece@),
{
    extend_tokens(out, &piece);
}

impl Token {
    /// Whether the two tokens have the same value.
    pub fn same(&self, other: &Token) -> (r: bool)
        ensures
            r == (self@ == other@),
    {
        match (self, other) {
            (Token::Ident(a), Token::Ident(b)) => *a == *b,
            (Token::Punct(a, x), Token::Punct(b, y)) => *a == *b && *x == *y,
            (Token::Literal(a), Token::Literal(b)) => *a == *b,
            (Token::Open(a), Token::Open(b)) => *a == *b,
            (Token::Close(a), Token::Close(b)) => *a == *b,
            _ => false,
        }
    }
}

/// Whether the two buffers hold the same tokens.
pub fn tokens_equal(a: &Vec<Token>, b: &Vec<Token>) -> (r: bool)
    ensures
        r == (toks(a@) == toks(b@)),
{
    if a.len() != b.len() {
        assert(toks(a@).len() != toks(b@).len());
        return false;
    }
    let mut j: usize = 0;
    while j < a.len()
        invariant
            a.len() == b.len(),
            j <= a.len(),
            forall|t: int| 0 <= t < j ==> toks(a@)[t] == toks(b@)[t],
        decreases a.len() - j,
    {
        if !a[j].same(&b[j]) {
            assert(toks(a@)[j as int] != toks(b@)[j as int]);
            return false;
        }
        j = j + 1;
    }
    assert(toks(a@) =~= toks(b@));
    true
}


} // verus!
