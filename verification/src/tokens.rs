//! A flat token stream: the code that the derives expand to.
//!
//! A group `( .. )`, `{ .. }` or `[ .. ]` is written as an opening token, the
//! tokens inside it and a closing token.
use vstd::prelude::*;

verus! {

/// The three kinds of brackets that delimit a group of tokens.
#[derive(Clone, Copy, Debug, PartialEq, Eq, Structural)]
pub enum Delimiter {
    Parenthesis,
    Brace,
    Bracket,
}

/// Whether a punctuation character is glued to the one that follows it
/// (`Joint`, as the first half of `::`, `->`, `=>`, `..` or a lifetime's `'`).
#[derive(Clone, Copy, Debug, PartialEq, Eq, Structural)]
pub enum Spacing {
    Alone,
    Joint,
}

/// What a token is, as a mathematical value.
pub enum TokenView {
    Ident(Seq<char>),
    Punct(char, Spacing),
    Str(Seq<char>),
    Literal(Seq<char>),
    Open(Delimiter),
    Close(Delimiter),
}

/// One token of generated code. `Str` is a string literal holding the given
/// value (not yet escaped); `Literal` is any literal as its source text
/// (such as the `4` of a field's type `[u8; 4]`), passed through unchanged.
#[derive(Debug)]
pub enum Token {
    Ident(String),
    Punct(char, Spacing),
    Str(String),
    Literal(String),
    Open(Delimiter),
    Close(Delimiter),
}

impl View for Token {
    type V = TokenView;

    open spec fn view(&self) -> TokenView {
        match self {
            Token::Ident(s) => TokenView::Ident(s@),
            Token::Punct(c, sp) => TokenView::Punct(*c, *sp),
            Token::Str(s) => TokenView::Str(s@),
            Token::Literal(s) => TokenView::Literal(s@),
            Token::Open(d) => TokenView::Open(*d),
            Token::Close(d) => TokenView::Close(*d),
        }
    }
}

impl Token {
    /// A copy of the token.
    pub fn duplicate(&self) -> (r: Token)
        ensures
            r@ == self@,
    {
        match self {
            Token::Ident(s) => Token::Ident(s.clone()),
            Token::Punct(c, sp) => Token::Punct(*c, *sp),
            Token::Str(s) => Token::Str(s.clone()),
            Token::Literal(s) => Token::Literal(s.clone()),
            Token::Open(d) => Token::Open(*d),
            Token::Close(d) => Token::Close(*d),
        }
    }
}

/// A sequence of tokens.
#[derive(Debug)]
pub struct TokenStream {
    pub tokens: Vec<Token>,
}

impl View for TokenStream {
    type V = Seq<TokenView>;

    open spec fn view(&self) -> Seq<TokenView> {
        self.tokens@.map_values(|t: Token| t@)
    }
}

// Shorthands for writing expected token sequences.
pub open spec fn ident(s: &str) -> TokenView {
    TokenView::Ident(s@)
}

pub open spec fn name(s: Seq<char>) -> TokenView {
    TokenView::Ident(s)
}

pub open spec fn punct(c: char) -> TokenView {
    TokenView::Punct(c, Spacing::Alone)
}

pub open spec fn joint(c: char) -> TokenView {
    TokenView::Punct(c, Spacing::Joint)
}

pub open spec fn lit(s: Seq<char>) -> TokenView {
    TokenView::Str(s)
}

/// `::`
pub open spec fn colon2() -> Seq<TokenView> {
    seq![joint(':'), punct(':')]
}

/// `->`
pub open spec fn rarrow() -> Seq<TokenView> {
    seq![joint('-'), punct('>')]
}

/// `=>`
pub open spec fn fat_arrow() -> Seq<TokenView> {
    seq![joint('='), punct('>')]
}

/// The tokens of `inner` enclosed in the delimiter `d`.
pub open spec fn group(d: Delimiter, inner: Seq<TokenView>) -> Seq<TokenView> {
    seq![TokenView::Open(d)] + inner + seq![TokenView::Close(d)]
}

pub open spec fn parens(inner: Seq<TokenView>) -> Seq<TokenView> {
    group(Delimiter::Parenthesis, inner)
}

pub open spec fn braces(inner: Seq<TokenView>) -> Seq<TokenView> {
    group(Delimiter::Brace, inner)
}

pub open spec fn brackets(inner: Seq<TokenView>) -> Seq<TokenView> {
    group(Delimiter::Bracket, inner)
}

impl TokenStream {
    pub fn new() -> (r: TokenStream)
        ensures
            r@ == Seq::<TokenView>::empty(),
    {
        let r = TokenStream { tokens: Vec::new() };
        assert(r@ =~= Seq::<TokenView>::empty());
        r
    }

    pub fn push(&mut self, t: Token)
        ensures
            final(self)@ == old(self)@.push(t@),
    {
        let ghost before = self.tokens@;
        self.tokens.push(t);
        assert(self.tokens@ == before.push(t));
        assert(self@ =~= before.map_values(|t: Token| t@).push(t@));
    }

    pub fn ident(&mut self, s: &str)
        ensures
            final(self)@ == old(self)@.push(ident(s)),
    {
        self.push(Token::Ident(String::from_str(s)));
    }

    /// An identifier whose text is the given string.
    pub fn name(&mut self, s: &String)
        ensures
            final(self)@ == old(self)@.push(name(s@)),
    {
        self.push(Token::Ident(s.clone()));
    }

    pub fn punct(&mut self, c: char)
        ensures
            final(self)@ == old(self)@.push(punct(c)),
    {
        self.push(Token::Punct(c, Spacing::Alone));
    }

    pub fn joint(&mut self, c: char)
        ensures
            final(self)@ == old(self)@.push(joint(c)),
    {
        self.push(Token::Punct(c, Spacing::Joint));
    }

    /// A string literal holding `s`.
    pub fn lit(&mut self, s: &str)
        ensures
            final(self)@ == old(self)@.push(lit(s@)),
    {
        self.push(Token::Str(String::from_str(s)));
    }

    /// A string literal holding the given string.
    pub fn lit_string(&mut self, s: &String)
        ensures
            final(self)@ == old(self)@.push(lit(s@)),
    {
        self.push(Token::Str(s.clone()));
    }

    pub fn colon2(&mut self)
        ensures
            final(self)@ == old(self)@ + colon2(),
    {
        let ghost before = self@;
        self.joint(':');
        self.punct(':');
        assert(self@ =~= before + colon2());
    }

    pub fn rarrow(&mut self)
        ensures
            final(self)@ == old(self)@ + rarrow(),
    {
        let ghost before = self@;
        self.joint('-');
        self.punct('>');
        assert(self@ =~= before + rarrow());
    }

    pub fn fat_arrow(&mut self)
        ensures
            final(self)@ == old(self)@ + fat_arrow(),
    {
        let ghost before = self@;
        self.joint('=');
        self.punct('>');
        assert(self@ =~= before + fat_arrow());
    }

    /// Appends a copy of the tokens of `other`.
    pub fn append(&mut self, other: &TokenStream)
        ensures
            final(self)@ == old(self)@ + other@,
    {
        let ghost before = self@;
        let n = other.tokens.len();
        for i in 0..n
            invariant
                n == other.tokens@.len(),
                self@ == before + other@.take(i as int),
        {
            let t = other.tokens[i].duplicate();
            self.push(t);
            assert(other@.take(i + 1) =~= other@.take(i as int).push(other@[i as int]));
        }
        assert(other@.take(n as int) =~= other@);
    }

    /// Appends the tokens of `inner` enclosed in the delimiter `d`.
    pub fn group(&mut self, d: Delimiter, inner: &TokenStream)
        ensures
            final(self)@ == old(self)@ + group(d, inner@),
    {
        let ghost before = self@;
        self.push(Token::Open(d));
        self.append(inner);
        self.push(Token::Close(d));
        assert(self@ =~= before + group(d, inner@));
    }
}

// ---------------------------------------------------------------------------
// Well-nested token sequences: every group that opens is closed, by the same
// delimiter, and nothing closes that is not open.

/// The delimiters still open after `t`, from those open before (`None` once
/// a closing token does not match).
pub open spec fn nest_step(open: Option<Seq<Delimiter>>, t: TokenView) -> Option<Seq<Delimiter>> {
    match open {
        None => None,
        Some(st) => match t {
            TokenView::Open(d) => Some(st.push(d)),
            TokenView::Close(d) => if st.len() > 0 && st.last() == d {
                Some(st.drop_last())
            } else {
                None
            },
            _ => Some(st),
        },
    }
}

/// The delimiters still open after the tokens `s`.
pub open spec fn nesting(open: Option<Seq<Delimiter>>, s: Seq<TokenView>) -> Option<Seq<Delimiter>>
    decreases s.len(),
{
    if s.len() == 0 {
        open
    } else {
        nest_step(nesting(open, s.drop_last()), s.last())
    }
}

/// Whether every group in `s` is opened and closed within `s`.
pub open spec fn balanced(s: Seq<TokenView>) -> bool {
    nesting(Some(Seq::empty()), s) == Some(Seq::<Delimiter>::empty())
}

pub proof fn lemma_nesting_concat(open: Option<Seq<Delimiter>>, a: Seq<TokenView>, b: Seq<TokenView>)
    ensures
        nesting(open, a + b) == nesting(nesting(open, a), b),
    decreases b.len(),
{
    if b.len() == 0 {
        assert(a + b =~= a);
    } else {
        lemma_nesting_concat(open, a, b.drop_last());
        assert((a + b).drop_last() =~= a + b.drop_last());
        assert((a + b).last() == b.last());
    }
}

/// Tokens that leave nothing open from scratch leave the same delimiters
/// open above any others.
pub proof fn lemma_nesting_above(below: Seq<Delimiter>, s: Seq<TokenView>)
    requires
        nesting(Some(Seq::empty()), s) is Some,
    ensures
        nesting(Some(below), s) == Some(below + nesting(Some(Seq::empty()), s)->0),
    decreases s.len(),
{
    if s.len() == 0 {
        assert(below + Seq::<Delimiter>::empty() =~= below);
    } else {
        let prev = nesting(Some(Seq::empty()), s.drop_last());
        assert(prev is Some);
        lemma_nesting_above(below, s.drop_last());
        let p = prev->0;
        match s.last() {
            TokenView::Open(d) => {
                assert((below + p).push(d) =~= below + p.push(d));
            },
            TokenView::Close(d) => {
                assert((below + p).drop_last() =~= below + p.drop_last());
            },
            _ => {},
        }
    }
}

pub broadcast proof fn lemma_balanced_empty(s: Seq<TokenView>)
    requires
        s.len() == 0,
    ensures
        #[trigger] balanced(s),
{
}

pub broadcast proof fn lemma_balanced_push(s: Seq<TokenView>, t: TokenView)
    requires
        balanced(s),
        !(t is Open),
        !(t is Close),
    ensures
        #[trigger] balanced(s.push(t)),
{
    assert(s.push(t).drop_last() =~= s);
}

pub broadcast proof fn lemma_balanced_concat(a: Seq<TokenView>, b: Seq<TokenView>)
    requires
        balanced(a),
        balanced(b),
    ensures
        #[trigger] balanced(a + b),
{
    lemma_nesting_concat(Some(Seq::empty()), a, b);
}

pub broadcast proof fn lemma_balanced_group(d: Delimiter, inner: Seq<TokenView>)
    requires
        balanced(inner),
    ensures
        #[trigger] balanced(group(d, inner)),
{
    let e = Seq::<Delimiter>::empty();
    let open = seq![TokenView::Open(d)];
    let close = seq![TokenView::Close(d)];
    assert(open.drop_last() =~= Seq::<TokenView>::empty());
    assert(nesting(Some(e), open.drop_last()) == Some(e));
    assert(e.push(d) =~= seq![d]);
    assert(nesting(Some(e), open) == Some(seq![d]));
    lemma_nesting_concat(Some(e), open, inner);
    lemma_nesting_above(seq![d], inner);
    assert(seq![d] + e =~= seq![d]);
    assert(nesting(Some(e), open + inner) == Some(seq![d]));
    lemma_nesting_concat(Some(e), open + inner, close);
    assert(close.drop_last() =~= Seq::<TokenView>::empty());
    assert(nesting(Some(seq![d]), close.drop_last()) == Some(seq![d]));
    assert(seq![d].drop_last() =~= e);
    assert(nesting(Some(seq![d]), close) == Some(e));
}

/// Whether `s` holds no delimiter.
pub open spec fn flat(s: Seq<TokenView>) -> bool {
    forall|i: int| 0 <= i < s.len() ==> !(#[trigger] s[i] is Open) && !(s[i] is Close)
}

pub broadcast proof fn lemma_flat_balanced(s: Seq<TokenView>)
    requires
        flat(s),
    ensures
        #[trigger] balanced(s),
    decreases s.len(),
{
    if s.len() > 0 {
        assert(flat(s.drop_last()));
        lemma_flat_balanced(s.drop_last());
        assert(!(s.last() is Open) && !(s.last() is Close));
    }
}

pub broadcast group group_balanced {
    lemma_flat_balanced,
    lemma_balanced_empty,
    lemma_balanced_push,
    lemma_balanced_concat,
    lemma_balanced_group,
}

/// Whether the tokens `a` stand, in a row, somewhere in `s`.
#[verifier::opaque]
pub open spec fn occurs_in(a: Seq<TokenView>, s: Seq<TokenView>) -> bool {
    exists|k: int| 0 <= k && k + a.len() <= s.len() && #[trigger] s.subrange(k, k + a.len()) == a
}

/// Tokens that stand in `x` stand in anything built around `x`.
pub proof fn lemma_occurs_around(a: Seq<TokenView>, p: Seq<TokenView>, x: Seq<TokenView>, q: Seq<TokenView>)
    requires
        occurs_in(a, x),
    ensures
        occurs_in(a, p + x + q),
{
    reveal(occurs_in);
    let k = choose|k: int| 0 <= k && k + a.len() <= x.len() && #[trigger] x.subrange(k, k + a.len()) == a;
    let s = p + x + q;
    assert(s.subrange(k + p.len(), k + p.len() + a.len()) =~= x.subrange(k, k + a.len()));
}

/// Tokens stand in themselves.
pub proof fn lemma_occurs_self(a: Seq<TokenView>)
    ensures
        occurs_in(a, a),
{
    reveal(occurs_in);
    let z: int = 0;
    assert(a.subrange(z, z + a.len()) =~= a);
}

/// Standing in is transitive.
pub proof fn lemma_occurs_trans(a: Seq<TokenView>, b: Seq<TokenView>, c: Seq<TokenView>)
    requires
        occurs_in(a, b),
        occurs_in(b, c),
    ensures
        occurs_in(a, c),
{
    reveal(occurs_in);
    let k = choose|k: int| 0 <= k && k + a.len() <= b.len() && #[trigger] b.subrange(k, k + a.len()) == a;
    let j = choose|j: int| 0 <= j && j + b.len() <= c.len() && #[trigger] c.subrange(j, j + b.len()) == b;
    assert(c.subrange(j + k, j + k + a.len()) =~= b.subrange(k, k + a.len()));
}

} // verus!
