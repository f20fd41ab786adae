//! The item that a derive is applied to, as plain values, and what a derive
//! hands back: the expansion, or the reason it stops.
use vstd::prelude::*;
use crate::tokens::{TokenStream, TokenView, balanced};

verus! {

/// The value of a `name = value` attribute: a string literal, or anything else.
#[derive(Debug)]
pub enum Lit {
    Str(String),
    Other,
}

/// One attribute on the item or on a field, as its meta item reads.
#[derive(Debug)]
pub enum Meta {
    /// `#[name]`
    Word,
    /// `#[name(..)]`
    List,
    /// `#[name = value]`
    NameValue { name: String, lit: Lit },
    /// Tokens that do not form a meta item at all.
    Unparsed,
}

/// The type of a field: its tokens, and for a bare function type
/// (`fn(..) -> R`) the tokens of its return type (`-> R`, or none at all).
#[derive(Debug)]
pub struct Type {
    pub tokens: TokenStream,
    pub bare_fn_output: Option<TokenStream>,
}

/// A field of a struct; `ident` is `None` for the fields of a tuple struct.
#[derive(Debug)]
pub struct Field {
    pub ident: Option<String>,
    pub attrs: Vec<Meta>,
    pub ty: Type,
}

/// The body of the item: a struct's fields, an enum's variant names, or a union.
#[derive(Debug)]
pub enum Data {
    Struct(Vec<Field>),
    Enum(Vec<String>),
    Union,
}

/// The item a derive is applied to.
#[derive(Debug)]
pub struct DeriveInput {
    pub ident: String,
    pub attrs: Vec<Meta>,
    pub data: Data,
}

/// The tokens of every field's type, and of its return type, are well
/// nested (as those of any type the compiler hands over are).
pub open spec fn fields_well_nested(fields: Seq<Field>) -> bool {
    forall|i: int| 0 <= i < fields.len() ==> {
        &&& balanced((#[trigger] fields[i]).ty.tokens@)
        &&& (fields[i].ty.bare_fn_output matches Some(o) ==> balanced(o@))
    }
}

pub open spec fn input_well_nested(input: DeriveInput) -> bool {
    input.data matches Data::Struct(fs) ==> fields_well_nested(fs@)
}

/// The name of a field, as a value.
pub open spec fn field_ident(f: Field) -> Option<Seq<char>> {
    match f.ident {
        Some(id) => Some(id@),
        None => None,
    }
}

/// The tokens of a field's return type, where it is of a bare function type.
pub open spec fn field_output(f: Field) -> Option<Seq<TokenView>> {
    match f.ty.bare_fn_output {
        Some(o) => Some(o@),
        None => None,
    }
}

/// Two fields with the same name and the same type (their attributes aside).
pub open spec fn same_name_and_type(f1: Field, f2: Field) -> bool {
    &&& field_ident(f1) == field_ident(f2)
    &&& f1.ty.tokens@ == f2.ty.tokens@
    &&& field_output(f1) == field_output(f2)
}

/// A line that a derive prints while it expands: plain text, or tokens.
#[derive(Debug)]
pub enum LogLine {
    Text(String),
    Tokens(TokenStream),
}

pub enum LogView {
    Text(Seq<char>),
    Tokens(Seq<TokenView>),
}

impl View for LogLine {
    type V = LogView;

    open spec fn view(&self) -> LogView {
        match self {
            LogLine::Text(s) => LogView::Text(s@),
            LogLine::Tokens(t) => LogView::Tokens(t@),
        }
    }
}

pub open spec fn log_view(log: Seq<LogLine>) -> Seq<LogView> {
    log.map_values(|l: LogLine| l@)
}

/// What a derive expands to, and the lines it prints on the way.
#[derive(Debug)]
pub struct Expansion {
    pub tokens: TokenStream,
    pub log: Vec<LogLine>,
}

/// Why a derive stops without an expansion: the lines it printed before, and
/// the message it panics with.
#[derive(Debug)]
pub struct Abort {
    pub log: Vec<LogLine>,
    pub message: String,
}

/// The outcome of running a derive on an item.
pub enum Run {
    Expanded(Seq<TokenView>, Seq<LogView>),
    Panicked(Seq<LogView>, Seq<char>),
}

impl Expansion {
    pub open spec fn run(&self) -> Run {
        Run::Expanded(self.tokens@, log_view(self.log@))
    }
}

impl Abort {
    pub open spec fn run(&self) -> Run {
        Run::Panicked(log_view(self.log@), self.message@)
    }
}

/// The message of `Option::unwrap` on `None`.
pub open spec fn unwrap_none_message() -> Seq<char> {
    "called `Option::unwrap()` on a `None` value"@
}

/// The message of `Result::unwrap` on `Err(e)`, for an error string `e`
/// that holds no quote or backslash.
pub open spec fn unwrap_err_message(e: Seq<char>) -> Seq<char> {
    "called `Result::unwrap()` on an `Err` value: \""@ + e + "\""@
}

pub fn unwrap_none_message_string() -> (r: String)
    ensures
        r@ == unwrap_none_message(),
{
    String::from_str("called `Option::unwrap()` on a `None` value")
}

pub fn unwrap_err_message_string(e: &String) -> (r: String)
    ensures
        r@ == unwrap_err_message(e@),
{
    let mut r = String::from_str("called `Result::unwrap()` on an `Err` value: \"");
    r.append(e.as_str());
    r.append("\"");
    r
}

/// Whether the text of `s` is `t`.
pub fn text_is(s: &String, t: &str) -> (r: bool)
    ensures
        r == (s@ == t@),
{
    *s == String::from_str(t)
}

pub fn empty_log() -> (r: Vec<LogLine>)
    ensures
        log_view(r@) == Seq::<LogView>::empty(),
{
    let r: Vec<LogLine> = Vec::new();
    assert(log_view(r@) =~= Seq::<LogView>::empty());
    r
}

pub fn push_log(log: &mut Vec<LogLine>, line: LogLine)
    ensures
        log_view(final(log)@) == log_view(old(log)@).push(line@),
{
    let ghost before = log@;
    log.push(line);
    assert(log_view(log@) =~= log_view(before).push(line@));
}

} // verus!
