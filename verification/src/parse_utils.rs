//! The derives that generate the readers of settings:
//! `#[derive(StringStructFromLit)]` on a tuple struct holding a `String`,
//! `#[derive(EnumFromLit)]` on an enum of unit variants, and
//! `#[derive(StructFromAttrs)]` on a struct of such settings.
use vstd::prelude::*;
use crate::model::{DeriveInput, Data, Field, fields_well_nested, unwrap_none_message, unwrap_none_message_string};
use crate::tokens::{Delimiter, Token, TokenStream, TokenView, ident, name, punct, joint, lit,
    colon2, rarrow, fat_arrow, parens, braces, brackets, balanced, group_balanced};

pub mod enum_arms;
pub mod field_arms;

verus! {

/// The string literal that holds the text of an identifier.
pub fn ident_to_litstr(ident: &String) -> (r: Token)
    ensures
        r@ == lit(ident@),
{
    Token::Str(ident.clone())
}

// ---------------------------------------------------------------------------
// Pieces shared by the readers.

/// `fn from_lit(lit: &syn::Lit) -> Result<Self, String>`
pub open spec fn from_lit_sig() -> Seq<TokenView> {
    seq![ident("fn"), ident("from_lit")]
        + parens(seq![ident("lit"), punct(':'), punct('&'), ident("syn")] + colon2() + seq![ident("Lit")])
        + result_self()
}

/// `-> Result<Self, String>`
pub open spec fn result_self() -> Seq<TokenView> {
    rarrow() + seq![ident("Result"), punct('<'), ident("Self"), punct(','), ident("String"), punct('>')]
}

/// `let str = match lit { syn::Lit::Str(s) => Some(s.value()), _ => None };`
pub open spec fn let_str() -> Seq<TokenView> {
    seq![ident("let"), ident("str"), punct('='), ident("match"), ident("lit")]
        + braces(seq![ident("syn")] + colon2() + seq![ident("Lit")] + colon2() + seq![ident("Str")]
            + parens(seq![ident("s")]) + fat_arrow() + seq![ident("Some")]
            + parens(seq![ident("s"), punct('.'), ident("value")] + parens(Seq::empty()))
            + seq![punct(','), ident("_")] + fat_arrow() + seq![ident("None")])
        + seq![punct(';')]
}

/// `Err(format!(MSG, "N"))`
pub open spec fn err_format(msg: Seq<char>, n: Seq<char>) -> Seq<TokenView> {
    seq![ident("Err")] + parens(seq![ident("format"), punct('!')] + parens(seq![lit(msg), punct(','), lit(n)]))
}

/// `fn new() -> Self { BODY }`
pub open spec fn new_fn(body: Seq<TokenView>) -> Seq<TokenView> {
    seq![ident("fn"), ident("new")] + parens(Seq::empty()) + rarrow() + seq![ident("Self")] + braces(body)
}

fn push_result_self(ts: &mut TokenStream)
    ensures
        final(ts)@ == old(ts)@ + result_self(),
{
    let ghost before = ts@;
    ts.rarrow();
    ts.ident("Result");
    ts.punct('<');
    ts.ident("Self");
    ts.punct(',');
    ts.ident("String");
    ts.punct('>');
    assert(ts@ =~= before + result_self());
}

fn push_from_lit_sig(ts: &mut TokenStream)
    ensures
        final(ts)@ == old(ts)@ + from_lit_sig(),
{
    let ghost before = ts@;
    ts.ident("fn");
    ts.ident("from_lit");
    let mut args = TokenStream::new();
    args.ident("lit");
    args.punct(':');
    args.punct('&');
    args.ident("syn");
    args.colon2();
    args.ident("Lit");
    ts.group(Delimiter::Parenthesis, &args);
    push_result_self(ts);
    assert(ts@ =~= before + from_lit_sig());
}

fn push_let_str(ts: &mut TokenStream)
    ensures
        final(ts)@ == old(ts)@ + let_str(),
{
    let ghost before = ts@;
    ts.ident("let");
    ts.ident("str");
    ts.punct('=');
    ts.ident("match");
    ts.ident("lit");
    let mut arms = TokenStream::new();
    arms.ident("syn");
    arms.colon2();
    arms.ident("Lit");
    arms.colon2();
    arms.ident("Str");
    let mut s = TokenStream::new();
    s.ident("s");
    arms.group(Delimiter::Parenthesis, &s);
    arms.fat_arrow();
    arms.ident("Some");
    let mut value = TokenStream::new();
    value.ident("s");
    value.punct('.');
    value.ident("value");
    value.group(Delimiter::Parenthesis, &TokenStream::new());
    arms.group(Delimiter::Parenthesis, &value);
    arms.punct(',');
    arms.ident("_");
    arms.fat_arrow();
    arms.ident("None");
    ts.group(Delimiter::Brace, &arms);
    ts.punct(';');
    assert(ts@ =~= before + let_str());
}

fn push_err_format(ts: &mut TokenStream, msg: &str, n: &String)
    ensures
        final(ts)@ == old(ts)@ + err_format(msg@, n@),
{
    let ghost before = ts@;
    ts.ident("Err");
    let mut args = TokenStream::new();
    args.lit(msg);
    args.punct(',');
    args.push(ident_to_litstr(n));
    let mut call = TokenStream::new();
    call.ident("format");
    call.punct('!');
    call.group(Delimiter::Parenthesis, &args);
    ts.group(Delimiter::Parenthesis, &call);
    assert(ts@ =~= before + err_format(msg@, n@));
}

fn push_new_fn(ts: &mut TokenStream, body: &TokenStream)
    ensures
        final(ts)@ == old(ts)@ + new_fn(body@),
{
    let ghost before = ts@;
    ts.ident("fn");
    ts.ident("new");
    ts.group(Delimiter::Parenthesis, &TokenStream::new());
    ts.rarrow();
    ts.ident("Self");
    ts.group(Delimiter::Brace, body);
    assert(ts@ =~= before + new_fn(body@));
}

// ---------------------------------------------------------------------------
// #[derive(StringStructFromLit)]
//
//     impl N {
//         fn from_lit(lit: &syn::Lit) -> Result<Self, String> {
//             let str = match lit { syn::Lit::Str(s) => Some(s.value()), _ => None };
//             match str {
//                 Some(str) => Ok(N(str)),
//                 None => Err(format!("Parse {} error. It is not a String", "N"))
//             }
//         }
//         fn new() -> Self { N("".to_string()) }
//     }

pub open spec fn string_struct_impl(n: Seq<char>) -> Seq<TokenView> {
    seq![ident("impl"), name(n)] + braces(
        from_lit_sig() + braces(let_str() + seq![ident("match"), ident("str")] + braces(
            seq![ident("Some")] + parens(seq![ident("str")]) + fat_arrow() + seq![ident("Ok")]
                + parens(seq![name(n)] + parens(seq![ident("str")])) + seq![punct(','), ident("None")]
                + fat_arrow() + err_format("Parse {} error. It is not a String"@, n)))
        + new_fn(seq![name(n)] + parens(seq![lit(""@), punct('.'), ident("to_string")] + parens(Seq::empty()))))
}

proof fn lemma_reader_pieces_well_nested(msg: Seq<char>, n: Seq<char>, body: Seq<TokenView>)
    requires
        balanced(body),
    ensures
        balanced(from_lit_sig()),
        balanced(result_self()),
        balanced(let_str()),
        balanced(err_format(msg, n)),
        balanced(new_fn(body)),
{
    broadcast use group_balanced;
    assert(balanced(result_self()));
    assert(balanced(from_lit_sig()));
    assert(balanced(let_str()));
    assert(balanced(err_format(msg, n)));
    assert(balanced(new_fn(body)));
}

/// Law: the expansion of `#[derive(StringStructFromLit)]` is a well-nested
/// token stream.
pub proof fn lemma_string_struct_well_nested(n: Seq<char>)
    ensures
        balanced(string_struct_impl(n)),
{
    broadcast use group_balanced;
    let new_body = seq![name(n)] + parens(seq![lit(""@), punct('.'), ident("to_string")] + parens(Seq::empty()));
    assert(balanced(new_body));
    lemma_reader_pieces_well_nested("Parse {} error. It is not a String"@, n, new_body);
    let arms = seq![ident("Some")] + parens(seq![ident("str")]) + fat_arrow() + seq![ident("Ok")]
        + parens(seq![name(n)] + parens(seq![ident("str")])) + seq![punct(','), ident("None")]
        + fat_arrow() + err_format("Parse {} error. It is not a String"@, n);
    assert(balanced(arms));
    let from_lit = from_lit_sig() + braces(let_str() + seq![ident("match"), ident("str")] + braces(arms));
    assert(balanced(from_lit));
    assert(balanced(braces(from_lit + new_fn(new_body))));
}

/// Expands `#[derive(StringStructFromLit)]` on the item named `input.ident`.
pub fn string_struct_from_lit(input: &DeriveInput) -> (r: TokenStream)
    ensures
        r@ == string_struct_impl(input.ident@),
{
    let n = &input.ident;
    let mut arms = TokenStream::new();
    arms.ident("Some");
    let mut s = TokenStream::new();
    s.ident("str");
    arms.group(Delimiter::Parenthesis, &s);
    arms.fat_arrow();
    arms.ident("Ok");
    let mut ok = TokenStream::new();
    ok.name(n);
    ok.group(Delimiter::Parenthesis, &s);
    arms.group(Delimiter::Parenthesis, &ok);
    arms.punct(',');
    arms.ident("None");
    arms.fat_arrow();
    push_err_format(&mut arms, "Parse {} error. It is not a String", n);
    let mut body = TokenStream::new();
    push_let_str(&mut body);
    body.ident("match");
    body.ident("str");
    body.group(Delimiter::Brace, &arms);
    let mut items = TokenStream::new();
    push_from_lit_sig(&mut items);
    items.group(Delimiter::Brace, &body);
    let mut empty = TokenStream::new();
    empty.lit("");
    empty.punct('.');
    empty.ident("to_string");
    empty.group(Delimiter::Parenthesis, &TokenStream::new());
    let mut new_body = TokenStream::new();
    new_body.name(n);
    new_body.group(Delimiter::Parenthesis, &empty);
    push_new_fn(&mut items, &new_body);
    let mut ts = TokenStream::new();
    ts.ident("impl");
    ts.name(n);
    ts.group(Delimiter::Brace, &items);
    assert(ts@ =~= string_struct_impl(n@));
    ts
}

// ---------------------------------------------------------------------------
// #[derive(EnumFromLit)]
//
//     impl N {
//         fn from_lit(lit: &syn::Lit) -> Result<Self, String> {
//             let str = match lit { syn::Lit::Str(s) => Some(s.value()), _ => None };
//             match &str.unwrap()[..] {
//                 "V1" => Ok(N::V1), ..
//                 _ => Err(format!("Unknown {}", "N"))
//             }
//         }
//         fn new() -> Self { N::VLAST }
//     }

/// The arm `"V" => Ok(N::V),`
pub open spec fn variant_arm(n: Seq<char>, v: Seq<char>) -> Seq<TokenView> {
    seq![lit(v)] + fat_arrow() + seq![ident("Ok")] + parens(seq![name(n)] + colon2() + seq![name(v)])
        + seq![punct(',')]
}

pub open spec fn variant_arms(n: Seq<char>, vs: Seq<Seq<char>>) -> Seq<TokenView>
    decreases vs.len(),
{
    if vs.len() == 0 {
        Seq::empty()
    } else {
        variant_arms(n, vs.drop_last()) + variant_arm(n, vs.last())
    }
}

/// The variant that `new()` gives: the last one, or the name
/// `Uninitialized` when there is none.
pub open spec fn default_variant(vs: Seq<Seq<char>>) -> Seq<char> {
    if vs.len() == 0 {
        "Uninitialized"@
    } else {
        vs.last()
    }
}

pub open spec fn texts(vs: Seq<String>) -> Seq<Seq<char>> {
    vs.map_values(|s: String| s@)
}

pub open spec fn enum_impl(n: Seq<char>, vs: Seq<Seq<char>>) -> Seq<TokenView> {
    seq![ident("impl"), name(n)] + braces(
        from_lit_sig() + braces(let_str()
            + seq![ident("match"), punct('&'), ident("str"), punct('.'), ident("unwrap")]
            + parens(Seq::empty()) + brackets(seq![joint('.'), punct('.')])
            + braces(variant_arms(n, vs) + seq![ident("_")] + fat_arrow() + err_format("Unknown {}"@, n)))
        + new_fn(seq![name(n)] + colon2() + seq![name(default_variant(vs))]))
}

pub open spec fn not_enum_message() -> Seq<char> {
    "EnumFromLit must be used on Enum!"@
}

proof fn lemma_variant_arms_well_nested(n: Seq<char>, vs: Seq<Seq<char>>)
    ensures
        balanced(variant_arms(n, vs)),
    decreases vs.len(),
{
    broadcast use group_balanced;
    if vs.len() > 0 {
        lemma_variant_arms_well_nested(n, vs.drop_last());
    }
}

/// Law: the expansion of `#[derive(EnumFromLit)]` is a well-nested token
/// stream.
pub proof fn lemma_enum_impl_well_nested(n: Seq<char>, vs: Seq<Seq<char>>)
    ensures
        balanced(enum_impl(n, vs)),
{
    broadcast use group_balanced;
    lemma_variant_arms_well_nested(n, vs);
    let new_body = seq![name(n)] + colon2() + seq![name(default_variant(vs))];
    assert(balanced(new_body));
    lemma_reader_pieces_well_nested("Unknown {}"@, n, new_body);
    let arms = variant_arms(n, vs) + seq![ident("_")] + fat_arrow() + err_format("Unknown {}"@, n);
    assert(balanced(arms));
    let head = seq![ident("match"), punct('&'), ident("str"), punct('.'), ident("unwrap")]
        + parens(Seq::empty()) + brackets(seq![joint('.'), punct('.')]);
    assert(balanced(head));
    let from_lit = from_lit_sig() + braces(let_str() + head + braces(arms));
    assert(balanced(from_lit));
    assert(balanced(braces(from_lit + new_fn(new_body))));
}

/// Law: `new()` gives the last variant of the enum (`N::VLAST`), and the
/// name `Uninitialized` for an enum without variants: the expansion ends
/// with `N :: V } }`.
pub proof fn lemma_enum_impl_default_is_last(n: Seq<char>, vs: Seq<Seq<char>>)
    ensures
        enum_impl(n, vs).len() >= 6,
        enum_impl(n, vs).subrange(enum_impl(n, vs).len() - 6, enum_impl(n, vs).len() as int) == seq![
            name(n),
            joint(':'),
            punct(':'),
            name(if vs.len() > 0 { vs[vs.len() - 1] } else { "Uninitialized"@ }),
            TokenView::Close(Delimiter::Brace),
            TokenView::Close(Delimiter::Brace),
        ],
{
    let body = seq![name(n)] + colon2() + seq![name(default_variant(vs))];
    let head = seq![ident("impl"), name(n), TokenView::Open(Delimiter::Brace)]
        + from_lit_sig() + braces(let_str()
            + seq![ident("match"), punct('&'), ident("str"), punct('.'), ident("unwrap")]
            + parens(Seq::empty()) + brackets(seq![joint('.'), punct('.')])
            + braces(variant_arms(n, vs) + seq![ident("_")] + fat_arrow() + err_format("Unknown {}"@, n)))
        + seq![ident("fn"), ident("new")] + parens(Seq::empty()) + rarrow() + seq![ident("Self"),
            TokenView::Open(Delimiter::Brace)];
    let tail = seq![name(n), joint(':'), punct(':'), name(default_variant(vs)),
        TokenView::Close(Delimiter::Brace), TokenView::Close(Delimiter::Brace)];
    assert(enum_impl(n, vs) =~= head + tail);
    assert((head + tail).subrange(head.len() as int, (head + tail).len() as int) =~= tail);
}

fn variant_arms_of(n: &String, vs: &Vec<String>) -> (r: TokenStream)
    ensures
        r@ == variant_arms(n@, texts(vs@)),
{
    let ghost names = texts(vs@);
    let mut arms = TokenStream::new();
    let k = vs.len();
    assert(names.take(0) =~= Seq::<Seq<char>>::empty());
    for i in 0..k
        invariant
            k == vs@.len(),
            names == texts(vs@),
            arms@ == variant_arms(n@, names.take(i as int)),
    {
        let ghost before = arms@;
        let v = &vs[i];
        arms.lit_string(v);
        arms.fat_arrow();
        arms.ident("Ok");
        let mut path = TokenStream::new();
        path.name(n);
        path.colon2();
        path.name(v);
        arms.group(Delimiter::Parenthesis, &path);
        arms.punct(',');
        assert(names.take(i + 1).drop_last() =~= names.take(i as int));
        assert(arms@ =~= before + variant_arm(n@, names[i as int]));
    }
    assert(names.take(k as int) =~= names);
    arms
}

fn push_enum_impl(ts: &mut TokenStream, n: &String, variant_arms: &TokenStream, default: &String)
    ensures
        final(ts)@ == old(ts)@ + seq![ident("impl"), name(n@)] + braces(
            from_lit_sig() + braces(let_str()
                + seq![ident("match"), punct('&'), ident("str"), punct('.'), ident("unwrap")]
                + parens(Seq::empty()) + brackets(seq![joint('.'), punct('.')])
                + braces(variant_arms@ + seq![ident("_")] + fat_arrow() + err_format("Unknown {}"@, n@)))
            + new_fn(seq![name(n@)] + colon2() + seq![name(default@)])),
{
    let ghost before = ts@;
    let mut arms = TokenStream::new();
    arms.append(variant_arms);
    arms.ident("_");
    arms.fat_arrow();
    push_err_format(&mut arms, "Unknown {}", n);
    let mut body = TokenStream::new();
    push_let_str(&mut body);
    body.ident("match");
    body.punct('&');
    body.ident("str");
    body.punct('.');
    body.ident("unwrap");
    body.group(Delimiter::Parenthesis, &TokenStream::new());
    let mut range = TokenStream::new();
    range.joint('.');
    range.punct('.');
    body.group(Delimiter::Bracket, &range);
    body.group(Delimiter::Brace, &arms);
    let mut items = TokenStream::new();
    push_from_lit_sig(&mut items);
    items.group(Delimiter::Brace, &body);
    let mut new_body = TokenStream::new();
    new_body.name(n);
    new_body.colon2();
    new_body.name(default);
    push_new_fn(&mut items, &new_body);
    ts.ident("impl");
    ts.name(n);
    ts.group(Delimiter::Brace, &items);
    assert(ts@ =~= before + seq![ident("impl"), name(n@)] + braces(
            from_lit_sig() + braces(let_str()
                + seq![ident("match"), punct('&'), ident("str"), punct('.'), ident("unwrap")]
                + parens(Seq::empty()) + brackets(seq![joint('.'), punct('.')])
                + braces(variant_arms@ + seq![ident("_")] + fat_arrow() + err_format("Unknown {}"@, n@)))
            + new_fn(seq![name(n@)] + colon2() + seq![name(default@)])));
}

/// Expands `#[derive(EnumFromLit)]` on an enum; on any other item the derive
/// panics with `not_enum_message()`.
pub fn enum_from_lit(input: &DeriveInput) -> (r: TokenStream)
    requires
        input.data is Enum,
    ensures
        input.data matches Data::Enum(vs) && r@ == enum_impl(input.ident@, texts(vs@)),
{
    let vs = match &input.data {
        Data::Enum(vs) => vs,
        _ => {
            assert(false);
            return TokenStream::new();
        },
    };
    let arms = variant_arms_of(&input.ident, vs);
    let k = vs.len();
    let default = if k == 0 {
        String::from_str("Uninitialized")
    } else {
        vs[k - 1].clone()
    };
    assert(default@ == default_variant(texts(vs@)));
    let mut ts = TokenStream::new();
    push_enum_impl(&mut ts, &input.ident, &arms, &default);
    assert(ts@ =~= enum_impl(input.ident@, texts(vs@)));
    ts
}

/// The message `#[derive(EnumFromLit)]` panics with on `input`, if any.
pub fn enum_from_lit_abort(input: &DeriveInput) -> (r: Option<String>)
    ensures
        r is None <==> input.data is Enum,
        r matches Some(m) ==> m@ == not_enum_message(),
{
    match &input.data {
        Data::Enum(_) => None,
        _ => Some(String::from_str("EnumFromLit must be used on Enum!")),
    }
}

// ---------------------------------------------------------------------------
// #[derive(StructFromAttrs)]
//
//     impl N {
//         pub fn from_attrs(attrs: &Vec<syn::Attribute>) -> Result<Self, String> {
//             let mut f: T = T::new(); ..
//             for attr in attrs {
//                 let meta = attr.interpret_meta().unwrap();
//                 match meta {
//                     syn::Meta::NameValue(meta_name_value) => {
//                         match meta_name_value.ident.to_string().as_ref() {
//                             "f" => { f = T::from_lit(&meta_name_value.lit).unwrap(); } ..
//                             _ => { return Err(format!("Unknown Meta Message in {}", "N")) }
//                         }
//                     }
//                     _ => { return Err("Only NameValue Attribute is supported".to_string()) }
//                 }
//             }
//             Ok(N { f, .. })
//         }
//     }

/// The name of a field (empty for a field of a tuple struct).
pub open spec fn field_name(f: Field) -> Seq<char> {
    match f.ident {
        Some(id) => id@,
        None => Seq::empty(),
    }
}

pub open spec fn all_named(fields: Seq<Field>) -> bool {
    forall|i: int| 0 <= i < fields.len() ==> (#[trigger] fields[i]).ident is Some
}

/// `let mut f: T = T::new();`
pub open spec fn field_decl(id: Seq<char>, ty: Seq<TokenView>) -> Seq<TokenView> {
    seq![ident("let"), ident("mut"), name(id), punct(':')] + ty + seq![punct('=')] + ty + colon2()
        + seq![ident("new")] + parens(Seq::empty()) + seq![punct(';')]
}

/// `"f" => { f = T::from_lit(&meta_name_value.lit).unwrap(); }`
pub open spec fn field_arm(id: Seq<char>, ty: Seq<TokenView>) -> Seq<TokenView> {
    seq![lit(id)] + fat_arrow() + braces(seq![name(id), punct('=')] + ty + colon2()
        + seq![ident("from_lit")]
        + parens(seq![punct('&'), ident("meta_name_value"), punct('.'), ident("lit")])
        + seq![punct('.'), ident("unwrap")] + parens(Seq::empty()) + seq![punct(';')])
}

/// `f,`
pub open spec fn field_item(id: Seq<char>) -> Seq<TokenView> {
    seq![name(id), punct(',')]
}

/// The declarations, match arms and constructor fields for some fields.
pub struct FieldParts {
    pub decls: Seq<TokenView>,
    pub arms: Seq<TokenView>,
    pub items: Seq<TokenView>,
}

pub open spec fn field_parts(fields: Seq<Field>) -> FieldParts
    decreases fields.len(),
{
    if fields.len() == 0 {
        FieldParts { decls: Seq::empty(), arms: Seq::empty(), items: Seq::empty() }
    } else {
        let p = field_parts(fields.drop_last());
        let f = fields.last();
        FieldParts {
            decls: p.decls + field_decl(field_name(f), f.ty.tokens@),
            arms: p.arms + field_arm(field_name(f), f.ty.tokens@),
            items: p.items + field_item(field_name(f)),
        }
    }
}

/// `syn::Meta::NameValue(meta_name_value) => { match .. { ARMS _ => { return Err(..) } } }`
pub open spec fn name_value_arm(n: Seq<char>, arms: Seq<TokenView>) -> Seq<TokenView> {
    seq![ident("syn")] + colon2() + seq![ident("Meta")] + colon2() + seq![ident("NameValue")]
        + parens(seq![ident("meta_name_value")]) + fat_arrow()
        + braces(seq![ident("match"), ident("meta_name_value"), punct('.'), ident("ident"), punct('.'),
            ident("to_string")] + parens(Seq::empty()) + seq![punct('.'), ident("as_ref")]
            + parens(Seq::empty()) + braces(arms + seq![ident("_")] + fat_arrow()
                + braces(seq![ident("return")] + err_format("Unknown Meta Message in {}"@, n))))
}

/// The body of `for attr in attrs { .. }`.
pub open spec fn attr_loop_body(n: Seq<char>, arms: Seq<TokenView>) -> Seq<TokenView> {
    seq![ident("let"), ident("meta"), punct('='), ident("attr"), punct('.'), ident("interpret_meta")]
        + parens(Seq::empty()) + seq![punct('.'), ident("unwrap")] + parens(Seq::empty())
        + seq![punct(';'), ident("match"), ident("meta")]
        + braces(name_value_arm(n, arms) + seq![ident("_")] + fat_arrow()
            + braces(seq![ident("return"), ident("Err")]
                + parens(seq![lit("Only NameValue Attribute is supported"@), punct('.'), ident("to_string")]
                    + parens(Seq::empty()))))
}

pub open spec fn struct_attrs_impl(n: Seq<char>, parts: FieldParts) -> Seq<TokenView> {
    seq![ident("impl"), name(n)] + braces(
        seq![ident("pub"), ident("fn"), ident("from_attrs")]
            + parens(seq![ident("attrs"), punct(':'), punct('&'), ident("Vec"), punct('<'), ident("syn")]
                + colon2() + seq![ident("Attribute"), punct('>')])
            + result_self()
            + braces(parts.decls + seq![ident("for"), ident("attr"), ident("in"), ident("attrs")]
                + braces(attr_loop_body(n, parts.arms)) + seq![ident("Ok")]
                + parens(seq![name(n)] + braces(parts.items))))
}

pub open spec fn not_struct_attrs_message() -> Seq<char> {
    "StructFromAttrs must be used on Struct!"@
}

proof fn lemma_field_parts_well_nested(fields: Seq<Field>)
    requires
        fields_well_nested(fields),
    ensures
        balanced(field_parts(fields).decls),
        balanced(field_parts(fields).arms),
        balanced(field_parts(fields).items),
    decreases fields.len(),
{
    broadcast use group_balanced;
    if fields.len() > 0 {
        assert(fields_well_nested(fields.drop_last())) by {
            assert forall|i: int| 0 <= i < fields.drop_last().len() implies
                balanced((#[trigger] fields.drop_last()[i]).ty.tokens@)
                && (fields.drop_last()[i].ty.bare_fn_output matches Some(o) ==> balanced(o@)) by {
                assert(fields.drop_last()[i] == fields[i]);
            }
        }
        lemma_field_parts_well_nested(fields.drop_last());
        assert(fields.last() == fields[fields.len() - 1]);
    }
}

proof fn lemma_name_value_arm_well_nested(n: Seq<char>, arms: Seq<TokenView>)
    requires
        balanced(arms),
    ensures
        balanced(name_value_arm(n, arms)),
{
    broadcast use group_balanced;
    lemma_reader_pieces_well_nested("Unknown Meta Message in {}"@, n, Seq::empty());
    let inner = arms + seq![ident("_")] + fat_arrow()
        + braces(seq![ident("return")] + err_format("Unknown Meta Message in {}"@, n));
    assert(balanced(inner));
    let head = seq![ident("match"), ident("meta_name_value"), punct('.'), ident("ident"), punct('.'),
        ident("to_string")] + parens(Seq::empty()) + seq![punct('.'), ident("as_ref")] + parens(Seq::empty());
    assert(balanced(head));
    assert(balanced(braces(head + braces(inner))));
}

proof fn lemma_attr_loop_body_well_nested(n: Seq<char>, arms: Seq<TokenView>)
    requires
        balanced(arms),
    ensures
        balanced(attr_loop_body(n, arms)),
{
    broadcast use group_balanced;
    lemma_name_value_arm_well_nested(n, arms);
    let other = seq![ident("_")] + fat_arrow() + braces(seq![ident("return"), ident("Err")]
        + parens(seq![lit("Only NameValue Attribute is supported"@), punct('.'), ident("to_string")]
            + parens(Seq::empty())));
    assert(balanced(other));
    let head = seq![ident("let"), ident("meta"), punct('='), ident("attr"), punct('.'), ident("interpret_meta")]
        + parens(Seq::empty()) + seq![punct('.'), ident("unwrap")] + parens(Seq::empty())
        + seq![punct(';'), ident("match"), ident("meta")];
    assert(balanced(head));
    assert(balanced(braces(name_value_arm(n, arms) + other)));
}

/// Law: the expansion of `#[derive(StructFromAttrs)]` is a well-nested
/// token stream, given well-nested field types.
#[verifier::rlimit(30)]
pub proof fn lemma_struct_attrs_well_nested(n: Seq<char>, fields: Seq<Field>)
    requires
        fields_well_nested(fields),
    ensures
        balanced(struct_attrs_impl(n, field_parts(fields))),
{
    broadcast use group_balanced;
    lemma_field_parts_well_nested(fields);
    let parts = field_parts(fields);
    lemma_attr_loop_body_well_nested(n, parts.arms);
    let params = seq![ident("attrs"), punct(':'), punct('&'), ident("Vec"), punct('<'), ident("syn")]
        + colon2() + seq![ident("Attribute"), punct('>')];
    assert(balanced(params));
    let body = parts.decls + seq![ident("for"), ident("attr"), ident("in"), ident("attrs")]
        + braces(attr_loop_body(n, parts.arms)) + seq![ident("Ok")]
        + parens(seq![name(n)] + braces(parts.items));
    assert(balanced(body));
    assert(balanced(seq![ident("pub"), ident("fn"), ident("from_attrs")] + parens(params) + result_self() + braces(body)));
}

/// Law: each field adds its own declaration, match arm and constructor
/// field after those of the fields before it.
pub proof fn lemma_field_parts_push(fields: Seq<Field>, f: Field)
    ensures
        field_parts(fields.push(f)).decls == field_parts(fields).decls + field_decl(field_name(f), f.ty.tokens@),
        field_parts(fields.push(f)).arms == field_parts(fields).arms + field_arm(field_name(f), f.ty.tokens@),
        field_parts(fields.push(f)).items == field_parts(fields).items + field_item(field_name(f)),
{
    assert(fields.push(f).drop_last() =~= fields);
    assert(fields.push(f).last() == f);
}

fn push_field_decl(ts: &mut TokenStream, id: &String, ty: &TokenStream)
    ensures
        final(ts)@ == old(ts)@ + field_decl(id@, ty@),
{
    let ghost before = ts@;
    ts.ident("let");
    ts.ident("mut");
    ts.name(id);
    ts.punct(':');
    ts.append(ty);
    ts.punct('=');
    ts.append(ty);
    ts.colon2();
    ts.ident("new");
    ts.group(Delimiter::Parenthesis, &TokenStream::new());
    ts.punct(';');
    assert(ts@ =~= before + field_decl(id@, ty@));
}

fn push_field_arm(ts: &mut TokenStream, id: &String, ty: &TokenStream)
    ensures
        final(ts)@ == old(ts)@ + field_arm(id@, ty@),
{
    let ghost before = ts@;
    ts.lit_string(id);
    ts.fat_arrow();
    let mut body = TokenStream::new();
    body.name(id);
    body.punct('=');
    body.append(ty);
    body.colon2();
    body.ident("from_lit");
    let mut arg = TokenStream::new();
    arg.punct('&');
    arg.ident("meta_name_value");
    arg.punct('.');
    arg.ident("lit");
    body.group(Delimiter::Parenthesis, &arg);
    body.punct('.');
    body.ident("unwrap");
    body.group(Delimiter::Parenthesis, &TokenStream::new());
    body.punct(';');
    ts.group(Delimiter::Brace, &body);
    assert(ts@ =~= before + field_arm(id@, ty@));
}

fn push_name_value_arm(ts: &mut TokenStream, n: &String, arms: &TokenStream)
    ensures
        final(ts)@ == old(ts)@ + name_value_arm(n@, arms@),
{
    let ghost before = ts@;
    ts.ident("syn");
    ts.colon2();
    ts.ident("Meta");
    ts.colon2();
    ts.ident("NameValue");
    let mut bind = TokenStream::new();
    bind.ident("meta_name_value");
    ts.group(Delimiter::Parenthesis, &bind);
    ts.fat_arrow();
    let mut ret = TokenStream::new();
    ret.ident("return");
    push_err_format(&mut ret, "Unknown Meta Message in {}", n);
    let mut all_arms = TokenStream::new();
    all_arms.append(arms);
    all_arms.ident("_");
    all_arms.fat_arrow();
    all_arms.group(Delimiter::Brace, &ret);
    let mut body = TokenStream::new();
    body.ident("match");
    body.ident("meta_name_value");
    body.punct('.');
    body.ident("ident");
    body.punct('.');
    body.ident("to_string");
    body.group(Delimiter::Parenthesis, &TokenStream::new());
    body.punct('.');
    body.ident("as_ref");
    body.group(Delimiter::Parenthesis, &TokenStream::new());
    body.group(Delimiter::Brace, &all_arms);
    ts.group(Delimiter::Brace, &body);
    assert(ts@ =~= before + name_value_arm(n@, arms@));
}

fn push_attr_loop_body(ts: &mut TokenStream, n: &String, arms: &TokenStream)
    ensures
        final(ts)@ == old(ts)@ + attr_loop_body(n@, arms@),
{
    let ghost before = ts@;
    ts.ident("let");
    ts.ident("meta");
    ts.punct('=');
    ts.ident("attr");
    ts.punct('.');
    ts.ident("interpret_meta");
    ts.group(Delimiter::Parenthesis, &TokenStream::new());
    ts.punct('.');
    ts.ident("unwrap");
    ts.group(Delimiter::Parenthesis, &TokenStream::new());
    ts.punct(';');
    ts.ident("match");
    ts.ident("meta");
    let mut msg = TokenStream::new();
    msg.lit("Only NameValue Attribute is supported");
    msg.punct('.');
    msg.ident("to_string");
    msg.group(Delimiter::Parenthesis, &TokenStream::new());
    let mut ret = TokenStream::new();
    ret.ident("return");
    ret.ident("Err");
    ret.group(Delimiter::Parenthesis, &msg);
    let mut arms_all = TokenStream::new();
    push_name_value_arm(&mut arms_all, n, arms);
    arms_all.ident("_");
    arms_all.fat_arrow();
    arms_all.group(Delimiter::Brace, &ret);
    ts.group(Delimiter::Brace, &arms_all);
    assert(ts@ =~= before + attr_loop_body(n@, arms@));
}

#[verifier::rlimit(30)]
fn push_struct_attrs_impl(ts: &mut TokenStream, n: &String, decls: &TokenStream, arms: &TokenStream, items: &TokenStream)
    ensures
        final(ts)@ == old(ts)@ + struct_attrs_impl(n@, FieldParts { decls: decls@, arms: arms@, items: items@ }),
{
    let ghost before = ts@;
    let mut params = TokenStream::new();
    params.ident("attrs");
    params.punct(':');
    params.punct('&');
    params.ident("Vec");
    params.punct('<');
    params.ident("syn");
    params.colon2();
    params.ident("Attribute");
    params.punct('>');
    let mut loop_body = TokenStream::new();
    push_attr_loop_body(&mut loop_body, n, arms);
    let mut ctor = TokenStream::new();
    ctor.name(n);
    ctor.group(Delimiter::Brace, items);
    let mut body = TokenStream::new();
    body.append(decls);
    body.ident("for");
    body.ident("attr");
    body.ident("in");
    body.ident("attrs");
    body.group(Delimiter::Brace, &loop_body);
    body.ident("Ok");
    body.group(Delimiter::Parenthesis, &ctor);
    let mut items_all = TokenStream::new();
    items_all.ident("pub");
    items_all.ident("fn");
    items_all.ident("from_attrs");
    items_all.group(Delimiter::Parenthesis, &params);
    push_result_self(&mut items_all);
    items_all.group(Delimiter::Brace, &body);
    ts.ident("impl");
    ts.name(n);
    ts.group(Delimiter::Brace, &items_all);
    assert(ts@ =~= before + struct_attrs_impl(n@, FieldParts { decls: decls@, arms: arms@, items: items@ }));
}

/// Expands `#[derive(StructFromAttrs)]` on a struct whose fields all have
/// names; on any other item the derive panics (`struct_from_attrs_abort`).
pub fn struct_from_attrs(input: &DeriveInput) -> (r: TokenStream)
    requires
        input.data matches Data::Struct(fs) && all_named(fs@),
    ensures
        input.data matches Data::Struct(fs) && r@ == struct_attrs_impl(input.ident@, field_parts(fs@)),
{
    let fields = match &input.data {
        Data::Struct(fs) => fs,
        _ => {
            assert(false);
            return TokenStream::new();
        },
    };
    let mut decls = TokenStream::new();
    let mut arms = TokenStream::new();
    let mut items = TokenStream::new();
    let k = fields.len();
    assert(fields@.take(0) =~= Seq::<Field>::empty());
    for i in 0..k
        invariant
            k == fields@.len(),
            all_named(fields@),
            field_parts(fields@.take(i as int)) == (FieldParts { decls: decls@, arms: arms@, items: items@ }),
    {
        let f = &fields[i];
        assert(fields@[i as int].ident is Some);
        let id = match &f.ident {
            Some(id) => id,
            None => {
                assert(false);
                return TokenStream::new();
            },
        };
        let ghost before_items = items@;
        push_field_decl(&mut decls, id, &f.ty.tokens);
        push_field_arm(&mut arms, id, &f.ty.tokens);
        items.name(id);
        items.punct(',');
        assert(items@ =~= before_items + field_item(id@));
        assert(fields@.take(i + 1).drop_last() =~= fields@.take(i as int));
        assert(fields@.take(i + 1).last() == fields@[i as int]);
    }
    assert(fields@.take(k as int) =~= fields@);
    let mut ts = TokenStream::new();
    push_struct_attrs_impl(&mut ts, &input.ident, &decls, &arms, &items);
    assert(ts@ =~= struct_attrs_impl(input.ident@, field_parts(fields@)));
    ts
}

/// The message `#[derive(StructFromAttrs)]` panics with on `input`, if any:
/// the item is not a struct, or a field has no name.
pub fn struct_from_attrs_abort(input: &DeriveInput) -> (r: Option<String>)
    ensures
        r is None <==> (input.data matches Data::Struct(fs) && all_named(fs@)),
        r matches Some(m) ==> m@ == (if input.data is Struct { unwrap_none_message() } else { not_struct_attrs_message() }),
{
    match &input.data {
        Data::Struct(fields) => {
            let k = fields.len();
            for i in 0..k
                invariant
                    k == fields@.len(),
                    input.data matches Data::Struct(fs) && fs@ == fields@,
                    forall|j: int| 0 <= j < i ==> (#[trigger] fields@[j]).ident is Some,
            {
                if fields[i].ident.is_none() {
                    return Some(unwrap_none_message_string());
                }
            }
            None
        },
        _ => Some(String::from_str("StructFromAttrs must be used on Struct!")),
    }
}

} // verus!
