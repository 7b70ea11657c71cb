//! A channel backend: the code that creates a channel between two stages,
//! clones its endpoints for each replica, sends a tuple and receives one.
//!
//! A messenger hands out the two ends of one channel at a time: it is
//! prepared (both endpoints created together), asked for the ends, and
//! finished (both released together) before the next channel.
use vstd::prelude::*;
use crate::codegen::{id, lb, lp, pc, pj, rb, rp, lemma_concat_assoc};
use crate::decimal::{decimal, push_decimal};
use crate::token::{emit, ident, joint, punct, toks, Delimiter, Tok, Token};

verus! {

pub open spec fn names_view(v: Seq<String>) -> Seq<Seq<char>> {
    v.map_values(|s: String| s@)
}

/// The names, separated by commas.
pub open spec fn joined_names(ids: Seq<Seq<char>>) -> Seq<Tok>
    decreases ids.len(),
{
    if ids.len() == 0 {
        seq![]
    } else if ids.len() == 1 {
        seq![id(ids[0])]
    } else {
        joined_names(ids.drop_last()) + seq![pc(','), id(ids.last())]
    }
}

/// `(a, b, c)`
pub open spec fn name_tuple(ids: Seq<Seq<char>>) -> Seq<Tok> {
    seq![lp()] + joined_names(ids) + seq![rp()]
}

/// The tuple of the identifiers.
pub fn make_tuple(identifiers: &Vec<String>) -> (r: Vec<Token>)
    ensures
        toks(r@) == name_tuple(names_view(identifiers@)),
{
    let ghost ns = names_view(identifiers@);
    let mut out: Vec<Token> = Vec::new();
    let piece = vec![Token::Open(Delimiter::Parenthesis)];
    assert(toks(piece@) =~= seq![lp()]);
    emit(&mut out, piece);
    let ghost start = toks(out@);
    let mut j: usize = 0;
    assert(start + joined_names(ns.subrange(0, 0)) =~= start);
    while j < identifiers.len()
        invariant
            ns == names_view(identifiers@),
            j <= identifiers.len(),
            toks(out@) == start + joined_names(ns.subrange(0, j as int)),
        decreases identifiers.len() - j,
    {
        let ghost pre = ns.subrange(0, j as int);
        let ghost next = ns.subrange(0, j as int + 1);
        assert(next.drop_last() =~= pre);
        let name = Token::Ident(identifiers[j].clone());
        if j == 0 {
            let piece = vec![name];
            assert(toks(piece@) =~= seq![id(ns[0])]);
            emit(&mut out, piece);
            assert(toks(out@) =~= start + joined_names(next));
        } else {
            let piece = vec![punct(','), name];
            assert(toks(piece@) =~= seq![pc(','), id(ns[j as int])]);
            emit(&mut out, piece);
            assert(toks(out@) =~= start + joined_names(next));
        }
        j = j + 1;
    }
    assert(ns.subrange(0, identifiers.len() as int) =~= ns);
    let piece = vec![Token::Close(Delimiter::Parenthesis)];
    assert(toks(piece@) =~= seq![rp()]);
    emit(&mut out, piece);
    assert(toks(out@) =~= name_tuple(ns));
    out
}

/// `let NAME = NAME.clone();`
pub open spec fn clone_stmt(name: Seq<char>) -> Seq<Tok> {
    seq![id("let"@), id(name), pc('='), id(name), pc('.'), id("clone"@), lp(), rp(), pc(';')]
}

/// `let _ = SENDER.send((a, b));`
pub open spec fn send_stmt(sender: Seq<char>, ids: Seq<Seq<char>>) -> Seq<Tok> {
    seq![id("let"@), id("_"@), pc('='), id(sender), pc('.'), id("send"@), lp()] + name_tuple(ids)
        + seq![rp(), pc(';')]
}

/// `let (a, b) = match RECEIVER.recv() { Ok(v) => v, Err(_) => return, };`
pub open spec fn recv_stmt(receiver: Seq<char>, ids: Seq<Seq<char>>) -> Seq<Tok> {
    seq![id("let"@)] + name_tuple(ids) + seq![
        pc('='), id("match"@), id(receiver), pc('.'), id("recv"@), lp(), rp(), lb(),
        id("Ok"@), lp(), id("v"@), rp(), pj('='), pc('>'), id("v"@), pc(','),
        id("Err"@), lp(), id("_"@), rp(), pj('='), pc('>'), id("return"@), pc(','),
        rb(), pc(';'),
    ]
}

pub open spec fn sender_name(n: u32) -> Seq<char> {
    "channel_messenger_sender_"@ + decimal(n as nat)
}

pub open spec fn receiver_name(n: u32) -> Seq<char> {
    "channel_messenger_receiver_"@ + decimal(n as nat)
}

/// `let ((SENDER, RECEIVER)) = crossbeam_channel::unbounded();`
pub open spec fn channel_stmt(n: u32) -> Seq<Tok> {
    seq![
        id("let"@), lp(), lp(), id(sender_name(n)), pc(','), id(receiver_name(n)), rp(), rp(),
        pc('='), id("crossbeam_channel"@), pj(':'), pc(':'), id("unbounded"@), lp(), rp(), pc(';'),
    ]
}

fn numbered(prefix: &str, n: u32) -> (r: String)
    ensures
        r@ == prefix@ + decimal(n as nat),
{
    let mut s = String::from_str(prefix);
    push_decimal(&mut s, n as u64);
    s
}

/// `let NAME = NAME.clone();`
fn gen_clone_of(name: &String) -> (r: Vec<Token>)
    ensures
        toks(r@) == clone_stmt(name@),
{
    let r = vec![
        ident("let"), Token::Ident(name.clone()), punct('='), Token::Ident(name.clone()),
        punct('.'), ident("clone"), Token::Open(Delimiter::Parenthesis),
        Token::Close(Delimiter::Parenthesis), punct(';'),
    ];
    assert(toks(r@) =~= clone_stmt(name@));
    r
}

/// The sending end of a channel, in generated code.
pub trait Emitter: Sized {
    spec fn clone_code(&self) -> Seq<Tok>;

    spec fn emit_code(&self) -> Seq<Tok>;

    /// The code that gives a replica its own copy of the sending end.
    fn gen_clone(&mut self) -> (r: Vec<Token>)
        ensures
            toks(r@) == old(self).clone_code(),
            *final(self) == *old(self);

    /// The code that sends the tuple of the variables.
    fn emit(&mut self) -> (r: Vec<Token>)
        ensures
            toks(r@) == old(self).emit_code(),
            *final(self) == *old(self);
}

/// The receiving end of a channel, in generated code.
pub trait Collector: Sized {
    spec fn clone_code(&self) -> Seq<Tok>;

    spec fn collect_code(&self) -> Seq<Tok>;

    /// The code that gives a replica its own copy of the receiving end.
    fn gen_clone(&mut self) -> (r: Vec<Token>)
        ensures
            toks(r@) == old(self).clone_code(),
            *final(self) == *old(self);

    /// The code that receives one tuple into the variables, and ends the
    /// worker when the channel is closed.
    fn collect(&mut self) -> (r: Vec<Token>)
        ensures
            toks(r@) == old(self).collect_code(),
            *final(self) == *old(self);
}

/// Creates channels and hands out their ends.
pub trait Messenger<E: Emitter, C: Collector>: Sized {
    /// A channel has been prepared and not yet finished.
    spec fn is_prepared(&self) -> bool;

    /// Neither endpoint of a channel exists.
    spec fn is_closed(&self) -> bool;

    /// Another channel can be numbered.
    spec fn has_room(&self) -> bool;

    /// How many channels have been prepared so far.
    spec fn count(&self) -> nat;

    /// The code that creates the next channel.
    spec fn prepare_code(&self) -> Seq<Tok>;

    /// The code of the ends of the prepared channel, for these variables.
    spec fn send_code(&self, ids: Seq<Seq<char>>) -> Seq<Tok>;

    spec fn recv_code(&self, ids: Seq<Seq<char>>) -> Seq<Tok>;

    /// Creates both endpoints of a new channel.
    fn prepare(&mut self) -> (r: Vec<Token>)
        requires
            old(self).is_closed(),
            old(self).has_room(),
        ensures
            final(self).is_prepared(),
            final(self).count() == old(self).count() + 1,
            toks(r@) == old(self).prepare_code();

    /// The two ends of the prepared channel, carrying the tuple of
    /// `identifiers`.
    fn channel(&mut self, identifiers: &Vec<String>) -> (r: (E, C))
        requires
            old(self).is_prepared(),
        ensures
            *final(self) == *old(self),
            r.0.emit_code() == old(self).send_code(names_view(identifiers@)),
            r.1.collect_code() == old(self).recv_code(names_view(identifiers@));

    /// Releases both endpoints.
    fn finish(&mut self) -> (r: Vec<Token>)
        ensures
            final(self).is_closed(),
            final(self).has_room() == old(self).has_room(),
            final(self).count() == old(self).count(),
            r@.len() == 0;
}

pub struct CrossbeamEmitter {
    pub identifiers: Vec<String>,
    pub emitter: String,
}

impl Emitter for CrossbeamEmitter {
    open spec fn clone_code(&self) -> Seq<Tok> {
        clone_stmt(self.emitter@)
    }

    open spec fn emit_code(&self) -> Seq<Tok> {
        send_stmt(self.emitter@, names_view(self.identifiers@))
    }

    fn gen_clone(&mut self) -> (r: Vec<Token>) {
        gen_clone_of(&self.emitter)
    }

    fn emit(&mut self) -> (r: Vec<Token>) {
        broadcast use lemma_concat_assoc;

        let mut out = vec![
            ident("let"), ident("_"), punct('='), Token::Ident(self.emitter.clone()), punct('.'),
            ident("send"), Token::Open(Delimiter::Parenthesis),
        ];
        assert(toks(out@) =~= seq![id("let"@), id("_"@), pc('='), id(self.emitter@), pc('.'), id("send"@), lp()]);
        emit(&mut out, make_tuple(&self.identifiers));
        let piece = vec![Token::Close(Delimiter::Parenthesis), punct(';')];
        assert(toks(piece@) =~= seq![rp(), pc(';')]);
        emit(&mut out, piece);
        out
    }
}

pub struct CrossbeamCollector {
    pub identifiers: Vec<String>,
    pub collector: String,
}

impl Collector for CrossbeamCollector {
    open spec fn clone_code(&self) -> Seq<Tok> {
        clone_stmt(self.collector@)
    }

    open spec fn collect_code(&self) -> Seq<Tok> {
        recv_stmt(self.collector@, names_view(self.identifiers@))
    }

    fn gen_clone(&mut self) -> (r: Vec<Token>) {
        gen_clone_of(&self.collector)
    }

    fn collect(&mut self) -> (r: Vec<Token>) {
        broadcast use lemma_concat_assoc;

        let mut out = vec![ident("let")];
        assert(toks(out@) =~= seq![id("let"@)]);
        emit(&mut out, make_tuple(&self.identifiers));
        let piece = vec![
            punct('='), ident("match"), Token::Ident(self.collector.clone()), punct('.'),
            ident("recv"), Token::Open(Delimiter::Parenthesis), Token::Close(Delimiter::Parenthesis),
            Token::Open(Delimiter::Brace),
            ident("Ok"), Token::Open(Delimiter::Parenthesis), ident("v"),
            Token::Close(Delimiter::Parenthesis), joint('='), punct('>'), ident("v"), punct(','),
            ident("Err"), Token::Open(Delimiter::Parenthesis), ident("_"),
            Token::Close(Delimiter::Parenthesis), joint('='), punct('>'), ident("return"), punct(','),
            Token::Close(Delimiter::Brace), punct(';'),
        ];
        assert(toks(piece@) =~= seq![
            pc('='), id("match"@), id(self.collector@), pc('.'), id("recv"@), lp(), rp(), lb(),
            id("Ok"@), lp(), id("v"@), rp(), pj('='), pc('>'), id("v"@), pc(','),
            id("Err"@), lp(), id("_"@), rp(), pj('='), pc('>'), id("return"@), pc(','),
            rb(), pc(';'),
        ]);
        emit(&mut out, piece);
        out
    }
}

/// Hands out numbered crossbeam channels, one at a time.
pub struct CrossbeamMessenger {
    pub id: u32,
    pub emitter: Option<String>,
    pub collector: Option<String>,
}

impl CrossbeamMessenger {
    pub fn new() -> (r: CrossbeamMessenger)
        ensures
            r.id == 0,
            r.emitter is None,
            r.collector is None,
    {
        CrossbeamMessenger { id: 0, emitter: None, collector: None }
    }
}

impl Messenger<CrossbeamEmitter, CrossbeamCollector> for CrossbeamMessenger {
    open spec fn is_prepared(&self) -> bool {
        self.emitter.is_some() && self.collector.is_some()
    }

    open spec fn is_closed(&self) -> bool {
        self.emitter.is_none() && self.collector.is_none()
    }

    open spec fn has_room(&self) -> bool {
        self.id < u32::MAX
    }

    open spec fn count(&self) -> nat {
        self.id as nat
    }

    open spec fn prepare_code(&self) -> Seq<Tok> {
        channel_stmt(self.id)
    }

    open spec fn send_code(&self, ids: Seq<Seq<char>>) -> Seq<Tok> {
        send_stmt(self.emitter.unwrap()@, ids)
    }

    open spec fn recv_code(&self, ids: Seq<Seq<char>>) -> Seq<Tok> {
        recv_stmt(self.collector.unwrap()@, ids)
    }

    fn prepare(&mut self) -> (r: Vec<Token>) {
        let n = self.id;
        let emitter = numbered("channel_messenger_sender_", n);
        let collector = numbered("channel_messenger_receiver_", n);
        let r = vec![
            ident("let"), Token::Open(Delimiter::Parenthesis), Token::Open(Delimiter::Parenthesis),
            Token::Ident(emitter.clone()), punct(','), Token::Ident(collector.clone()),
            Token::Close(Delimiter::Parenthesis), Token::Close(Delimiter::Parenthesis), punct('='),
            ident("crossbeam_channel"), joint(':'), punct(':'), ident("unbounded"),
            Token::Open(Delimiter::Parenthesis), Token::Close(Delimiter::Parenthesis), punct(';'),
        ];
        assert(toks(r@) =~= channel_stmt(n));
        self.id = self.id + 1;
        self.emitter = Some(emitter);
        self.collector = Some(collector);
        r
    }

    fn channel(&mut self, identifiers: &Vec<String>) -> (r: (CrossbeamEmitter, CrossbeamCollector)) {
        let emitter = match &self.emitter {
            Some(e) => e.clone(),
            None => String::new(),
        };
        let collector = match &self.collector {
            Some(c) => c.clone(),
            None => String::new(),
        };
        (
            CrossbeamEmitter { identifiers: copy_names(identifiers), emitter },
            CrossbeamCollector { identifiers: copy_names(identifiers), collector },
        )
    }

    fn finish(&mut self) -> (r: Vec<Token>) {
        self.emitter = None;
        self.collector = None;
        Vec::new()
    }
}

fn copy_names(v: &Vec<String>) -> (r: Vec<String>)
    ensures
        names_view(r@) == names_view(v@),
{
    let mut r: Vec<String> = Vec::new();
    let mut j: usize = 0;
    while j < v.len()
        invariant
            j <= v.len(),
            names_view(r@) == names_view(v@).subrange(0, j as int),
        decreases v.len() - j,
    {
        let ghost before = r@;
        let x = v[j].clone();
        r.push(x);
        assert(names_view(r@) =~= names_view(before).push(x@));
        j = j + 1;
        assert(names_view(r@) =~= names_view(v@).subrange(0, j as int));
    }
    assert(names_view(v@).subrange(0, v.len() as int) =~= names_view(v@));
    r
}

} // verus!
