//! `#[derive(Diorama)]`: a struct whose fields are bare function types becomes
//! an HTTP client with one request method per such field.
//!
//! The struct's attributes give the base URL (`ClientMeta`); each field's
//! attributes give its request settings. For each field of a bare function
//! type the expansion holds a method that sends the request and a field
//! initializer in `new()`; a field of another type is skipped with the line
//! `ERROR` printed.
use vstd::prelude::*;
use crate::attrs::{FromAttrs, Step, Reading, read_attrs, read_attributes, AttrsOutcome};
use crate::model::{DeriveInput, Data, Field, Lit, Meta, field_ident, field_output, same_name_and_type, fields_well_nested, input_well_nested, Expansion, Abort, LogLine, LogView, Run,
    log_view, empty_log, push_log, unwrap_none_message, unwrap_err_message,
    unwrap_none_message_string, unwrap_err_message_string};
use crate::request::{ClientMeta, Method, RequestMeta, RequestMetaView};
use crate::tokens::{Delimiter, TokenStream, TokenView, ident, name, punct, joint, lit, colon2,
    rarrow, parens, braces, brackets, balanced, group_balanced};

verus! {

/// Request settings that give the HTTP method of a request.
pub trait RequestSettings: FromAttrs {
    spec fn method_of(v: Self::V) -> Method;

    fn method(&self) -> (m: Method)
        ensures
            m == Self::method_of(self@),
    ;

    /// Reading an attribute into settings with the same method gives the
    /// same outcome as far as the method goes; an attribute with another
    /// name than `method` leaves the method as it was.
    proof fn lemma_assigned_method(v1: Self::V, v2: Self::V, key: Seq<char>, lit: Lit)
        requires
            Self::method_of(v1) == Self::method_of(v2),
        ensures
            match (Self::assigned(v1, key, lit), Self::assigned(v2, key, lit)) {
                (Step::Assigned(w1), Step::Assigned(w2)) => {
                    &&& Self::method_of(w1) == Self::method_of(w2)
                    &&& key != "method"@ ==> Self::method_of(w1) == Self::method_of(v1)
                },
                (Step::UnknownKey, Step::UnknownKey) => true,
                (Step::BadValue(m1), Step::BadValue(m2)) => m1 == m2,
                _ => false,
            },
    ;
}

impl RequestSettings for RequestMeta {
    open spec fn method_of(v: RequestMetaView) -> Method {
        v.method
    }

    fn method(&self) -> (m: Method) {
        self.method
    }

    proof fn lemma_assigned_method(v1: RequestMetaView, v2: RequestMetaView, key: Seq<char>, lit: Lit) {
    }
}

// ---------------------------------------------------------------------------
// The method that sends a request.
//
//     fn IDENT GENERICS(&self, url_params: T, body: &'static str)
//         -> Result<String, reqwest::Error>
//     {
//         let url = &format!("{}{}", BASE_URL, url_params.make_path())[..];
//         let client = reqwest::Client::new();
//         let res = client.METHOD(url).body(body).send()?.text()?;
//         println!("{}", res);
//         return Ok(res);
//     }

/// `&self, url_params: T, body: &'static str`
pub open spec fn request_params() -> Seq<TokenView> {
    seq![punct('&'), ident("self"), punct(','), ident("url_params"), punct(':'), ident("T"),
        punct(','), ident("body"), punct(':'), punct('&'), joint('\''), ident("static"), ident("str")]
}

/// `-> Result<String, reqwest::Error>`
pub open spec fn request_result() -> Seq<TokenView> {
    rarrow() + seq![ident("Result"), punct('<'), ident("String"), punct(','), ident("reqwest")]
        + colon2() + seq![ident("Error"), punct('>')]
}

/// `let url = &format!("{}{}", BASE_URL, url_params.make_path())[..];`
pub open spec fn url_stmt(base_url: Seq<char>) -> Seq<TokenView> {
    seq![ident("let"), ident("url"), punct('='), punct('&'), ident("format"), punct('!')]
        + parens(seq![lit("{}{}"@), punct(','), lit(base_url), punct(','), ident("url_params"),
            punct('.'), ident("make_path")] + parens(Seq::empty()))
        + brackets(seq![joint('.'), punct('.')]) + seq![punct(';')]
}

/// `let client = reqwest::Client::new();`
pub open spec fn client_stmt() -> Seq<TokenView> {
    seq![ident("let"), ident("client"), punct('='), ident("reqwest")] + colon2()
        + seq![ident("Client")] + colon2() + seq![ident("new")] + parens(Seq::empty())
        + seq![punct(';')]
}

/// `let res = client.METHOD(url).body(body).send()?.text()?;`
pub open spec fn send_stmt(method: Method) -> Seq<TokenView> {
    seq![ident("let"), ident("res"), punct('='), ident("client"), punct('.'),
        name(method.client_fn())] + parens(seq![ident("url")])
        + seq![punct('.'), ident("body")] + parens(seq![ident("body")])
        + seq![punct('.'), ident("send")] + parens(Seq::empty())
        + seq![punct('?'), punct('.'), ident("text")] + parens(Seq::empty())
        + seq![punct('?'), punct(';')]
}

/// `println!("{}", res); return Ok(res);`
pub open spec fn finish_stmts() -> Seq<TokenView> {
    seq![ident("println"), punct('!')] + parens(seq![lit("{}"@), punct(','), ident("res")])
        + seq![punct(';'), ident("return"), ident("Ok")] + parens(seq![ident("res")])
        + seq![punct(';')]
}

/// The method named `id` that sends a request with `method` to `base_url`.
pub open spec fn request_fn(base_url: Seq<char>, method: Method, id: Seq<char>, generics: Seq<TokenView>) -> Seq<TokenView> {
    seq![ident("fn"), name(id)] + generics + parens(request_params()) + request_result()
        + braces(url_stmt(base_url) + client_stmt() + send_stmt(method) + finish_stmts())
}

/// The initializer of the field `id` in `new()`: `id: || OUTPUT {},`
pub open spec fn field_init(id: Seq<char>, output: Seq<TokenView>) -> Seq<TokenView> {
    seq![name(id), punct(':'), joint('|'), punct('|')] + output + braces(Seq::empty())
        + seq![punct(',')]
}

fn push_url_stmt(ts: &mut TokenStream, base_url: &String)
    ensures
        final(ts)@ == old(ts)@ + url_stmt(base_url@),
{
    let ghost before = ts@;
    ts.ident("let");
    ts.ident("url");
    ts.punct('=');
    ts.punct('&');
    ts.ident("format");
    ts.punct('!');
    let mut args = TokenStream::new();
    args.lit("{}{}");
    args.punct(',');
    args.lit_string(base_url);
    args.punct(',');
    args.ident("url_params");
    args.punct('.');
    args.ident("make_path");
    args.group(Delimiter::Parenthesis, &TokenStream::new());
    ts.group(Delimiter::Parenthesis, &args);
    let mut range = TokenStream::new();
    range.joint('.');
    range.punct('.');
    ts.group(Delimiter::Bracket, &range);
    ts.punct(';');
    assert(ts@ =~= before + url_stmt(base_url@));
}

fn push_client_stmt(ts: &mut TokenStream)
    ensures
        final(ts)@ == old(ts)@ + client_stmt(),
{
    let ghost before = ts@;
    ts.ident("let");
    ts.ident("client");
    ts.punct('=');
    ts.ident("reqwest");
    ts.colon2();
    ts.ident("Client");
    ts.colon2();
    ts.ident("new");
    ts.group(Delimiter::Parenthesis, &TokenStream::new());
    ts.punct(';');
    assert(ts@ =~= before + client_stmt());
}

fn push_send_stmt(ts: &mut TokenStream, method: Method)
    ensures
        final(ts)@ == old(ts)@ + send_stmt(method),
{
    let ghost before = ts@;
    ts.ident("let");
    ts.ident("res");
    ts.punct('=');
    ts.ident("client");
    ts.punct('.');
    ts.push(method.to_ident());
    let mut url = TokenStream::new();
    url.ident("url");
    ts.group(Delimiter::Parenthesis, &url);
    ts.punct('.');
    ts.ident("body");
    let mut body = TokenStream::new();
    body.ident("body");
    ts.group(Delimiter::Parenthesis, &body);
    ts.punct('.');
    ts.ident("send");
    ts.group(Delimiter::Parenthesis, &TokenStream::new());
    ts.punct('?');
    ts.punct('.');
    ts.ident("text");
    ts.group(Delimiter::Parenthesis, &TokenStream::new());
    ts.punct('?');
    ts.punct(';');
    assert(ts@ =~= before + send_stmt(method));
}

fn push_finish_stmts(ts: &mut TokenStream)
    ensures
        final(ts)@ == old(ts)@ + finish_stmts(),
{
    let ghost before = ts@;
    ts.ident("println");
    ts.punct('!');
    let mut args = TokenStream::new();
    args.lit("{}");
    args.punct(',');
    args.ident("res");
    ts.group(Delimiter::Parenthesis, &args);
    ts.punct(';');
    ts.ident("return");
    ts.ident("Ok");
    let mut res = TokenStream::new();
    res.ident("res");
    ts.group(Delimiter::Parenthesis, &res);
    ts.punct(';');
    assert(ts@ =~= before + finish_stmts());
}

/// Appends the method named `id` that sends a request with `method` to
/// `base_url`; `generics` follow the method's name.
pub fn push_request_fn(ts: &mut TokenStream, base_url: &String, method: Method, id: &String, generics: &TokenStream)
    ensures
        final(ts)@ == old(ts)@ + request_fn(base_url@, method, id@, generics@),
{
    let ghost before = ts@;
    ts.ident("fn");
    ts.name(id);
    ts.append(generics);
    let mut params = TokenStream::new();
    params.punct('&');
    params.ident("self");
    params.punct(',');
    params.ident("url_params");
    params.punct(':');
    params.ident("T");
    params.punct(',');
    params.ident("body");
    params.punct(':');
    params.punct('&');
    params.joint('\'');
    params.ident("static");
    params.ident("str");
    assert(params@ =~= request_params());
    ts.group(Delimiter::Parenthesis, &params);
    let ghost mid = ts@;
    ts.rarrow();
    ts.ident("Result");
    ts.punct('<');
    ts.ident("String");
    ts.punct(',');
    ts.ident("reqwest");
    ts.colon2();
    ts.ident("Error");
    ts.punct('>');
    assert(ts@ =~= mid + request_result());
    let mut body = TokenStream::new();
    push_url_stmt(&mut body, base_url);
    push_client_stmt(&mut body);
    push_send_stmt(&mut body, method);
    push_finish_stmts(&mut body);
    assert(body@ =~= url_stmt(base_url@) + client_stmt() + send_stmt(method) + finish_stmts());
    ts.group(Delimiter::Brace, &body);
    assert(ts@ =~= before + request_fn(base_url@, method, id@, generics@));
}

/// The method that sends a request is well nested, given well-nested
/// generics.
pub proof fn lemma_request_fn_balanced(base_url: Seq<char>, method: Method, id: Seq<char>, generics: Seq<TokenView>)
    requires
        balanced(generics),
    ensures
        balanced(request_fn(base_url, method, id, generics)),
{
    broadcast use group_balanced;
}

/// Law: the request method is the same for every HTTP method but for one
/// token, the name of the client's function (`get`, `post`, `delete`), which
/// stands right after `client .`; it is followed, for every method, by
/// `( url ) . body ( body )`: the caller's URL and body are what is sent.
#[verifier::rlimit(30)]
pub proof fn lemma_request_fn_methods(base_url: Seq<char>, m1: Method, m2: Method, id: Seq<char>, generics: Seq<TokenView>)
    ensures
        request_fn(base_url, m1, id, generics).len() == request_fn(base_url, m2, id, generics).len(),
        request_fn(base_url, m1, id, generics).len() > 77 + generics.len(),
        forall|i: int| 0 <= i < request_fn(base_url, m1, id, generics).len() && i != 69 + generics.len()
            ==> #[trigger] request_fn(base_url, m1, id, generics)[i] == request_fn(base_url, m2, id, generics)[i],
        request_fn(base_url, m1, id, generics).subrange(67 + generics.len() as int, 78 + generics.len() as int) == seq![
            ident("client"),
            punct('.'),
            name(m1.client_fn()),
            TokenView::Open(Delimiter::Parenthesis),
            ident("url"),
            TokenView::Close(Delimiter::Parenthesis),
            punct('.'),
            ident("body"),
            TokenView::Open(Delimiter::Parenthesis),
            ident("body"),
            TokenView::Close(Delimiter::Parenthesis),
        ],
{
    let g = generics.len() as int;
    let pre = seq![ident("fn"), name(id)] + generics + parens(request_params()) + request_result()
        + seq![TokenView::Open(Delimiter::Brace)] + url_stmt(base_url) + client_stmt()
        + seq![ident("let"), ident("res"), punct('='), ident("client"), punct('.')];
    let post = parens(seq![ident("url")])
        + seq![punct('.'), ident("body")] + parens(seq![ident("body")])
        + seq![punct('.'), ident("send")] + parens(Seq::empty())
        + seq![punct('?'), punct('.'), ident("text")] + parens(Seq::empty())
        + seq![punct('?'), punct(';')] + finish_stmts() + seq![TokenView::Close(Delimiter::Brace)];
    assert(pre.len() == 69 + g);
    assert(request_fn(base_url, m1, id, generics) =~= pre + seq![name(m1.client_fn())] + post);
    assert(request_fn(base_url, m2, id, generics) =~= pre + seq![name(m2.client_fn())] + post);
    let r1 = pre + seq![name(m1.client_fn())] + post;
    assert(r1.subrange(67 + g, 78 + g) =~= seq![
        ident("client"), punct('.'), name(m1.client_fn()),
        TokenView::Open(Delimiter::Parenthesis), ident("url"), TokenView::Close(Delimiter::Parenthesis),
        punct('.'), ident("body"),
        TokenView::Open(Delimiter::Parenthesis), ident("body"), TokenView::Close(Delimiter::Parenthesis)]);
}

/// Appends the initializer of the field `id` in `new()`.
pub fn push_field_init(ts: &mut TokenStream, id: &String, output: &TokenStream)
    ensures
        final(ts)@ == old(ts)@ + field_init(id@, output@),
{
    let ghost before = ts@;
    ts.name(id);
    ts.punct(':');
    ts.joint('|');
    ts.punct('|');
    ts.append(output);
    ts.group(Delimiter::Brace, &TokenStream::new());
    ts.punct(',');
    assert(ts@ =~= before + field_init(id@, output@));
}

// ---------------------------------------------------------------------------
// The whole expansion.
//
//     extern crate reqwest;
//     impl NAME {
//         fn new() -> NAME { NAME { INITS } }
//         METHODS
//     }

/// The expansion of the struct `n`, with the field initializers `inits` and
/// the request methods `methods`.
pub open spec fn client_impl(n: Seq<char>, inits: Seq<TokenView>, methods: Seq<TokenView>) -> Seq<TokenView> {
    seq![ident("extern"), ident("crate"), ident("reqwest"), punct(';'), ident("impl"), name(n)]
        + braces(seq![ident("fn"), ident("new")] + parens(Seq::empty()) + rarrow() + seq![name(n)]
            + braces(seq![name(n)] + braces(inits)) + methods)
}

pub open spec fn not_struct_message() -> Seq<char> {
    "Only Struct is supported for derive(Diorama)"@
}

/// The line printed for a field that is not of a bare function type.
pub open spec fn skipped_field_line() -> LogView {
    LogView::Text("ERROR"@)
}

/// The state of the expansion after some of the fields.
pub enum FieldsRun {
    Going { methods: Seq<TokenView>, inits: Seq<TokenView>, log: Seq<LogView> },
    Stopped { log: Seq<LogView>, message: Seq<char> },
}

/// Expanding one more field `f`.
pub open spec fn expand_field<R: RequestSettings>(
    base_url: Seq<char>,
    generics: Seq<TokenView>,
    methods: Seq<TokenView>,
    inits: Seq<TokenView>,
    log: Seq<LogView>,
    f: Field,
) -> FieldsRun {
    match f.ident {
        None => FieldsRun::Stopped { log, message: unwrap_none_message() },
        Some(id) => match read_attrs::<R>(f.attrs@) {
            Reading::Parsed(settings) => match f.ty.bare_fn_output {
                Some(out) => FieldsRun::Going {
                    methods: methods + request_fn(base_url, R::method_of(settings), id@, generics),
                    inits: inits + field_init(id@, out@),
                    log,
                },
                None => FieldsRun::Going { methods, inits, log: log.push(skipped_field_line()) },
            },
            Reading::Rejected(e) => FieldsRun::Stopped { log, message: unwrap_err_message(e) },
            Reading::Aborted(m) => FieldsRun::Stopped { log, message: m },
        },
    }
}

/// Expanding the fields in order.
pub open spec fn expand_fields<R: RequestSettings>(
    base_url: Seq<char>,
    generics: Seq<TokenView>,
    fields: Seq<Field>,
) -> FieldsRun
    decreases fields.len(),
{
    if fields.len() == 0 {
        FieldsRun::Going { methods: Seq::empty(), inits: Seq::empty(), log: Seq::empty() }
    } else {
        match expand_fields::<R>(base_url, generics, fields.drop_last()) {
            FieldsRun::Going { methods, inits, log } =>
                expand_field::<R>(base_url, generics, methods, inits, log, fields.last()),
            stopped => stopped,
        }
    }
}

/// What the derive does with `input`, where request methods take the
/// generics `generics` and each field's settings are of type `R`.
pub open spec fn client_run<R: RequestSettings>(input: DeriveInput, generics: Seq<TokenView>) -> Run {
    match read_attrs::<ClientMeta>(input.attrs@) {
        Reading::Parsed(base_url) => match input.data {
            Data::Struct(fields) => match expand_fields::<R>(base_url, generics, fields@) {
                FieldsRun::Going { methods, inits, log } =>
                    Run::Expanded(client_impl(input.ident@, inits, methods), log),
                FieldsRun::Stopped { log, message } => Run::Panicked(log, message),
            },
            _ => Run::Panicked(Seq::empty(), not_struct_message()),
        },
        Reading::Rejected(e) => Run::Panicked(Seq::empty(), unwrap_err_message(e)),
        Reading::Aborted(m) => Run::Panicked(Seq::empty(), m),
    }
}

/// Once the expansion of a prefix of the fields has stopped, more fields do
/// not change the outcome.
pub proof fn lemma_expand_fields_stops<R: RequestSettings>(
    base_url: Seq<char>,
    generics: Seq<TokenView>,
    fields: Seq<Field>,
    i: int,
)
    requires
        0 <= i < fields.len(),
        expand_fields::<R>(base_url, generics, fields.take(i + 1)) is Stopped,
    ensures
        expand_fields::<R>(base_url, generics, fields) == expand_fields::<R>(base_url, generics, fields.take(i + 1)),
    decreases fields.len(),
{
    if fields.len() > i + 1 {
        assert(fields.drop_last().take(i + 1) =~= fields.take(i + 1));
        lemma_expand_fields_stops::<R>(base_url, generics, fields.drop_last(), i);
    } else {
        assert(fields.take(i + 1) =~= fields);
    }
}

fn push_client_impl(ts: &mut TokenStream, n: &String, inits: &TokenStream, methods: &TokenStream)
    ensures
        final(ts)@ == old(ts)@ + client_impl(n@, inits@, methods@),
{
    let ghost before = ts@;
    ts.ident("extern");
    ts.ident("crate");
    ts.ident("reqwest");
    ts.punct(';');
    ts.ident("impl");
    ts.name(n);
    let mut body = TokenStream::new();
    body.ident("fn");
    body.ident("new");
    body.group(Delimiter::Parenthesis, &TokenStream::new());
    body.rarrow();
    body.name(n);
    let mut ctor = TokenStream::new();
    ctor.name(n);
    ctor.group(Delimiter::Brace, inits);
    body.group(Delimiter::Brace, &ctor);
    body.append(methods);
    ts.group(Delimiter::Brace, &body);
    assert(ts@ =~= before + client_impl(n@, inits@, methods@));
}

/// Runs the derive on `input`: the expansion, or why it stops.
pub fn expand_client<R: RequestSettings>(input: &DeriveInput, generics: &TokenStream) -> (r: Result<Expansion, Abort>)
    ensures
        match r {
            Ok(e) => e.run() == client_run::<R>(*input, generics@),
            Err(a) => a.run() == client_run::<R>(*input, generics@),
        },
{
    let client: ClientMeta = match read_attributes::<ClientMeta>(&input.attrs) {
        AttrsOutcome::Parsed(c) => c,
        AttrsOutcome::Rejected(e) => {
            return Err(Abort { log: empty_log(), message: unwrap_err_message_string(&e) });
        },
        AttrsOutcome::Aborted(m) => {
            return Err(Abort { log: empty_log(), message: m });
        },
    };
    let fields = match &input.data {
        Data::Struct(fields) => fields,
        _ => {
            return Err(Abort {
                log: empty_log(),
                message: String::from_str("Only Struct is supported for derive(Diorama)"),
            });
        },
    };
    let ghost base_url = client@;
    let mut methods = TokenStream::new();
    let mut inits = TokenStream::new();
    let mut log = empty_log();
    let n = fields.len();
    assert(fields@.take(0) =~= Seq::<Field>::empty());
    for i in 0..n
        invariant
            n == fields@.len(),
            base_url == client@,
            read_attrs::<ClientMeta>(input.attrs@) == Reading::<Seq<char>>::Parsed(base_url),
            input.data matches Data::Struct(fs) && fs@ == fields@,
            expand_fields::<R>(base_url, generics@, fields@.take(i as int)) == (FieldsRun::Going {
                methods: methods@,
                inits: inits@,
                log: log_view(log@),
            }),
    {
        proof {
            assert(fields@.take(i + 1).drop_last() =~= fields@.take(i as int));
            assert(fields@.take(i + 1).last() == fields@[i as int]);
        }
        let f = &fields[i];
        match &f.ident {
            None => {
                proof { lemma_expand_fields_stops::<R>(base_url, generics@, fields@, i as int); }
                return Err(Abort { log, message: unwrap_none_message_string() });
            },
            Some(id) => match read_attributes::<R>(&f.attrs) {
                AttrsOutcome::Parsed(settings) => match &f.ty.bare_fn_output {
                    Some(out) => {
                        push_request_fn(&mut methods, &client.base_url.0, settings.method(), id, generics);
                        push_field_init(&mut inits, id, out);
                    },
                    None => {
                        push_log(&mut log, LogLine::Text(String::from_str("ERROR")));
                    },
                },
                AttrsOutcome::Rejected(e) => {
                    proof { lemma_expand_fields_stops::<R>(base_url, generics@, fields@, i as int); }
                    return Err(Abort { log, message: unwrap_err_message_string(&e) });
                },
                AttrsOutcome::Aborted(m) => {
                    proof { lemma_expand_fields_stops::<R>(base_url, generics@, fields@, i as int); }
                    return Err(Abort { log, message: m });
                },
            },
        }
    }
    assert(fields@.take(n as int) =~= fields@);
    let mut ts = TokenStream::new();
    push_client_impl(&mut ts, &input.ident, &inits, &methods);
    assert(ts@ =~= client_impl(input.ident@, inits@, methods@));
    Ok(Expansion { tokens: ts, log })
}

proof fn lemma_expand_fields_well_nested<R: RequestSettings>(
    base_url: Seq<char>,
    generics: Seq<TokenView>,
    fields: Seq<Field>,
)
    requires
        balanced(generics),
        fields_well_nested(fields),
    ensures
        expand_fields::<R>(base_url, generics, fields) matches FieldsRun::Going { methods, inits, log }
            ==> balanced(methods) && balanced(inits),
    decreases fields.len(),
{
    broadcast use group_balanced;
    if fields.len() > 0 {
        let last = fields.len() - 1;
        assert(fields_well_nested(fields.drop_last())) by {
            assert forall|i: int| 0 <= i < fields.drop_last().len() implies
                balanced((#[trigger] fields.drop_last()[i]).ty.tokens@)
                && (fields.drop_last()[i].ty.bare_fn_output matches Some(o) ==> balanced(o@)) by {
                assert(fields.drop_last()[i] == fields[i]);
            }
        }
        lemma_expand_fields_well_nested::<R>(base_url, generics, fields.drop_last());
        assert(fields.last() == fields[last]);
        match expand_fields::<R>(base_url, generics, fields.drop_last()) {
            FieldsRun::Going { methods, inits, log } => {
                match fields.last().ident {
                    Some(id) => match read_attrs::<R>(fields.last().attrs@) {
                        Reading::Parsed(settings) => {
                            lemma_request_fn_balanced(base_url, R::method_of(settings), id@, generics);
                        },
                        _ => {},
                    },
                    None => {},
                }
            },
            _ => {},
        }
    }
}

/// Law: where the derive expands, its expansion is a well-nested token
/// stream, given well-nested generics and field types.
pub proof fn lemma_client_run_well_nested<R: RequestSettings>(input: DeriveInput, generics: Seq<TokenView>)
    requires
        balanced(generics),
        input_well_nested(input),
    ensures
        client_run::<R>(input, generics) matches Run::Expanded(tokens, log) ==> balanced(tokens),
{
    broadcast use group_balanced;
    match input.data {
        Data::Struct(fields) => {
            match read_attrs::<ClientMeta>(input.attrs@) {
                Reading::Parsed(base_url) => {
                    lemma_expand_fields_well_nested::<R>(base_url, generics, fields@);
                },
                _ => {},
            }
        },
        _ => {},
    }
}

/// The number of fields that are not of a bare function type.
pub open spec fn skipped_fields(fields: Seq<Field>) -> nat
    decreases fields.len(),
{
    if fields.len() == 0 {
        0
    } else {
        skipped_fields(fields.drop_last()) + if fields.last().ty.bare_fn_output is None { 1nat } else { 0nat }
    }
}

proof fn lemma_expand_fields_log<R: RequestSettings>(base_url: Seq<char>, generics: Seq<TokenView>, fields: Seq<Field>)
    ensures
        expand_fields::<R>(base_url, generics, fields) matches FieldsRun::Going { methods, inits, log } ==> {
            &&& log.len() == skipped_fields(fields)
            &&& forall|i: int| 0 <= i < log.len() ==> #[trigger] log[i] == skipped_field_line()
        },
    decreases fields.len(),
{
    if fields.len() > 0 {
        lemma_expand_fields_log::<R>(base_url, generics, fields.drop_last());
    }
}

/// Law: where the derive expands, it prints the line `ERROR` once for each
/// field that is not of a bare function type, and nothing else.
pub proof fn lemma_client_run_log<R: RequestSettings>(input: DeriveInput, generics: Seq<TokenView>)
    ensures
        client_run::<R>(input, generics) matches Run::Expanded(tokens, log) ==> {
            &&& input.data matches Data::Struct(fs) && log.len() == skipped_fields(fs@)
            &&& forall|i: int| 0 <= i < log.len() ==> #[trigger] log[i] == skipped_field_line()
        },
{
    match input.data {
        Data::Struct(fields) => {
            match read_attrs::<ClientMeta>(input.attrs@) {
                Reading::Parsed(base_url) => {
                    lemma_expand_fields_log::<R>(base_url, generics, fields@);
                },
                _ => {},
            }
        },
        _ => {},
    }
}

// ---------------------------------------------------------------------------
// What the expansion does not depend on.

/// Two readings of field settings that lead the expansion the same way: both
/// read, with the same method, or both stop with the same message.
pub open spec fn readings_agree<R1: RequestSettings, R2: RequestSettings>(a1: Seq<Meta>, a2: Seq<Meta>) -> bool {
    match (read_attrs::<R1>(a1), read_attrs::<R2>(a2)) {
        (Reading::Parsed(v1), Reading::Parsed(v2)) => R1::method_of(v1) == R2::method_of(v2),
        (Reading::Rejected(e1), Reading::Rejected(e2)) => e1 == e2,
        (Reading::Aborted(m1), Reading::Aborted(m2)) => m1 == m2,
        _ => false,
    }
}

/// Where the settings of both fields read, they give the same method.
pub open spec fn methods_agree<R: RequestSettings>(a1: Seq<Meta>, a2: Seq<Meta>) -> bool {
    match (read_attrs::<R>(a1), read_attrs::<R>(a2)) {
        (Reading::Parsed(v1), Reading::Parsed(v2)) => R::method_of(v1) == R::method_of(v2),
        _ => true,
    }
}

/// Two fields with the same name and the same return type (or both not of a
/// bare function type).
pub open spec fn same_name_and_output(f1: Field, f2: Field) -> bool {
    field_ident(f1) == field_ident(f2) && field_output(f1) == field_output(f2)
}

/// Fields whose settings, read as `R1` and as `R2`, lead the expansion the
/// same way expand to the same run.
pub proof fn lemma_expand_fields_agree<R1: RequestSettings, R2: RequestSettings>(
    base_url: Seq<char>,
    generics: Seq<TokenView>,
    fs1: Seq<Field>,
    fs2: Seq<Field>,
)
    requires
        fs1.len() == fs2.len(),
        forall|i: int| 0 <= i < fs1.len() ==> {
            &&& same_name_and_output(#[trigger] fs1[i], fs2[i])
            &&& readings_agree::<R1, R2>(fs1[i].attrs@, fs2[i].attrs@)
        },
    ensures
        expand_fields::<R1>(base_url, generics, fs1) == expand_fields::<R2>(base_url, generics, fs2),
    decreases fs1.len(),
{
    if fs1.len() > 0 {
        let k = fs1.len() - 1;
        assert forall|i: int| 0 <= i < fs1.drop_last().len() implies {
            &&& same_name_and_output(#[trigger] fs1.drop_last()[i], fs2.drop_last()[i])
            &&& readings_agree::<R1, R2>(fs1.drop_last()[i].attrs@, fs2.drop_last()[i].attrs@)
        } by {
            assert(fs1.drop_last()[i] == fs1[i]);
            assert(fs2.drop_last()[i] == fs2[i]);
        }
        lemma_expand_fields_agree::<R1, R2>(base_url, generics, fs1.drop_last(), fs2.drop_last());
        assert(fs1.last() == fs1[k] && fs2.last() == fs2[k]);
        assert(same_name_and_output(fs1[k], fs2[k]));
        assert(readings_agree::<R1, R2>(fs1[k].attrs@, fs2[k].attrs@));
    }
}

/// Fields with the same names and return types, whose settings give the same
/// method wherever both read, expand alike where both expand.
pub proof fn lemma_expand_fields_when_going<R: RequestSettings>(
    base_url: Seq<char>,
    generics: Seq<TokenView>,
    fs1: Seq<Field>,
    fs2: Seq<Field>,
)
    requires
        fs1.len() == fs2.len(),
        forall|i: int| 0 <= i < fs1.len() ==> {
            &&& same_name_and_output(#[trigger] fs1[i], fs2[i])
            &&& methods_agree::<R>(fs1[i].attrs@, fs2[i].attrs@)
        },
        expand_fields::<R>(base_url, generics, fs1) is Going,
        expand_fields::<R>(base_url, generics, fs2) is Going,
    ensures
        expand_fields::<R>(base_url, generics, fs1) == expand_fields::<R>(base_url, generics, fs2),
    decreases fs1.len(),
{
    if fs1.len() > 0 {
        let k = fs1.len() - 1;
        assert forall|i: int| 0 <= i < fs1.drop_last().len() implies {
            &&& same_name_and_output(#[trigger] fs1.drop_last()[i], fs2.drop_last()[i])
            &&& methods_agree::<R>(fs1.drop_last()[i].attrs@, fs2.drop_last()[i].attrs@)
        } by {
            assert(fs1.drop_last()[i] == fs1[i]);
            assert(fs2.drop_last()[i] == fs2[i]);
        }
        lemma_expand_fields_when_going::<R>(base_url, generics, fs1.drop_last(), fs2.drop_last());
        assert(fs1.last() == fs1[k] && fs2.last() == fs2[k]);
        assert(same_name_and_output(fs1[k], fs2[k]));
        assert(methods_agree::<R>(fs1[k].attrs@, fs2[k].attrs@));
    }
}

/// Whether `m` is a `name = value` attribute whose name is in `keys`.
pub open spec fn sets_one_of(m: Meta, keys: Set<Seq<char>>) -> bool {
    m matches Meta::NameValue { name, lit } && keys.contains(name@)
}

/// The attributes of `attrs`, in order, but the `name = value` ones whose name
/// is in `keys`.
pub open spec fn strip_settings(attrs: Seq<Meta>, keys: Set<Seq<char>>) -> Seq<Meta> {
    attrs.filter(kept_settings(keys))
}

/// The attributes that `strip_settings` keeps.
pub open spec fn kept_settings(keys: Set<Seq<char>>) -> spec_fn(Meta) -> bool {
    |m: Meta| !sets_one_of(m, keys)
}

/// Where settings read, leaving out attributes that do not name the method
/// leaves settings that read, with the same method.
pub proof fn lemma_strip_keeps_method<R: RequestSettings>(attrs: Seq<Meta>, keys: Set<Seq<char>>)
    requires
        !keys.contains("method"@),
    ensures
        read_attrs::<R>(attrs) matches Reading::Parsed(v) ==> {
            &&& read_attrs::<R>(strip_settings(attrs, keys)) is Parsed
            &&& R::method_of(read_attrs::<R>(strip_settings(attrs, keys))->Parsed_0) == R::method_of(v)
        },
    decreases attrs.len(),
{
    if attrs.len() > 0 {
        let p = attrs.drop_last();
        let x = attrs.last();
        let sp = strip_settings(p, keys);
        lemma_strip_keeps_method::<R>(p, keys);
        reveal(Seq::filter);
        assert(kept_settings(keys)(x) == !sets_one_of(x, keys));
        assert(strip_settings(attrs, keys) == if sets_one_of(x, keys) { sp } else { sp.push(x) });
        assert(sp.push(x).drop_last() =~= sp);
        assert(sp.push(x).last() == x);
        match (read_attrs::<R>(p), read_attrs::<R>(sp)) {
            (Reading::Parsed(u), Reading::Parsed(u2)) => {
                match x {
                    Meta::NameValue { name, lit } => {
                        R::lemma_assigned_method(u, u2, name@, lit);
                        R::lemma_assigned_method(u, u, name@, lit);
                    },
                    _ => {},
                }
            },
            _ => {},
        }
    }
}

/// Two lists of fields that are alike but for the `name = value` attributes
/// whose name is in `keys`.
pub open spec fn alike_but_settings(fs1: Seq<Field>, fs2: Seq<Field>, keys: Set<Seq<char>>) -> bool {
    &&& fs1.len() == fs2.len()
    &&& forall|i: int| 0 <= i < fs1.len() ==> {
        &&& same_name_and_type(#[trigger] fs1[i], fs2[i])
        &&& strip_settings(fs1[i].attrs@, keys) == strip_settings(fs2[i].attrs@, keys)
    }
}

/// Law: field settings other than the method never reach the output: two
/// items alike but for such settings on their fields (their values, or
/// whether they are given at all) run alike where both expand.
pub proof fn lemma_client_run_ignores_settings<R: RequestSettings>(
    i1: DeriveInput,
    i2: DeriveInput,
    generics: Seq<TokenView>,
    keys: Set<Seq<char>>,
)
    requires
        !keys.contains("method"@),
        i1.ident@ == i2.ident@,
        i1.attrs@ == i2.attrs@,
        i1.data matches Data::Struct(fs1) && i2.data matches Data::Struct(fs2)
            && alike_but_settings(fs1@, fs2@, keys),
        client_run::<R>(i1, generics) is Expanded,
        client_run::<R>(i2, generics) is Expanded,
    ensures
        client_run::<R>(i1, generics) == client_run::<R>(i2, generics),
{
    match (i1.data, i2.data) {
        (Data::Struct(fs1), Data::Struct(fs2)) => {
            match read_attrs::<ClientMeta>(i1.attrs@) {
                Reading::Parsed(base_url) => {
                    assert forall|i: int| 0 <= i < fs1@.len() implies {
                        &&& same_name_and_output(#[trigger] fs1@[i], fs2@[i])
                        &&& methods_agree::<R>(fs1@[i].attrs@, fs2@[i].attrs@)
                    } by {
                        assert(same_name_and_type(fs1@[i], fs2@[i]));
                        lemma_strip_keeps_method::<R>(fs1@[i].attrs@, keys);
                        lemma_strip_keeps_method::<R>(fs2@[i].attrs@, keys);
                    }
                    lemma_expand_fields_when_going::<R>(base_url, generics, fs1@, fs2@);
                },
                _ => {},
            }
        },
        _ => {},
    }
}

proof fn lemma_expand_fields_generics<R: RequestSettings>(
    base_url: Seq<char>,
    g1: Seq<TokenView>,
    g2: Seq<TokenView>,
    fields: Seq<Field>,
)
    ensures
        match (expand_fields::<R>(base_url, g1, fields), expand_fields::<R>(base_url, g2, fields)) {
            (FieldsRun::Going { methods: m1, inits: n1, log: l1 }, FieldsRun::Going { methods: m2, inits: n2, log: l2 }) =>
                n1 == n2 && l1 == l2,
            (FieldsRun::Stopped { log: l1, message: e1 }, FieldsRun::Stopped { log: l2, message: e2 }) =>
                l1 == l2 && e1 == e2,
            _ => false,
        },
    decreases fields.len(),
{
    if fields.len() > 0 {
        lemma_expand_fields_generics::<R>(base_url, g1, g2, fields.drop_last());
    }
}

/// Law: a field with a name, settings that read and a bare function type
/// adds exactly one request method, `request_fn` for its own method and name,
/// and exactly one initializer, whatever its method; nothing is printed for
/// it.
pub proof fn lemma_expand_fields_push_request<R: RequestSettings>(
    base_url: Seq<char>,
    generics: Seq<TokenView>,
    fields: Seq<Field>,
    f: Field,
)
    requires
        f.ident is Some,
        read_attrs::<R>(f.attrs@) is Parsed,
        f.ty.bare_fn_output is Some,
    ensures
        match expand_fields::<R>(base_url, generics, fields) {
            FieldsRun::Going { methods, inits, log } => expand_fields::<R>(base_url, generics, fields.push(f))
                == (FieldsRun::Going {
                    methods: methods + request_fn(base_url, R::method_of(read_attrs::<R>(f.attrs@)->Parsed_0),
                        f.ident->Some_0@, generics),
                    inits: inits + field_init(f.ident->Some_0@, f.ty.bare_fn_output->Some_0@),
                    log,
                }),
            stopped => expand_fields::<R>(base_url, generics, fields.push(f)) == stopped,
        },
{
    assert(fields.push(f).drop_last() =~= fields);
    assert(fields.push(f).last() == f);
}

/// Law: one more field at the end with a name, settings that read and a bare
/// function type adds to the client exactly the request method for its own
/// method and name and its initializer in `new()`, whatever its method, and
/// prints nothing more.
pub proof fn lemma_client_run_push_request<R: RequestSettings>(
    i1: DeriveInput,
    i2: DeriveInput,
    generics: Seq<TokenView>,
    f: Field,
)
    requires
        i1.ident@ == i2.ident@,
        i1.attrs@ == i2.attrs@,
        i1.data matches Data::Struct(fs1) && i2.data matches Data::Struct(fs2) && fs2@ == fs1@.push(f),
        f.ident is Some,
        read_attrs::<R>(f.attrs@) is Parsed,
        f.ty.bare_fn_output is Some,
    ensures
        match client_run::<R>(i1, generics) {
            Run::Expanded(tokens, log) => exists|inits: Seq<TokenView>, methods: Seq<TokenView>| {
                &&& tokens == client_impl(i1.ident@, inits, methods)
                &&& #[trigger] client_run::<R>(i2, generics) == Run::Expanded(
                    client_impl(
                        i1.ident@,
                        inits + field_init(f.ident->Some_0@, f.ty.bare_fn_output->Some_0@),
                        methods + request_fn(read_attrs::<ClientMeta>(i1.attrs@)->Parsed_0,
                            R::method_of(read_attrs::<R>(f.attrs@)->Parsed_0), f.ident->Some_0@, generics),
                    ),
                    log,
                )
            },
            panicked => client_run::<R>(i2, generics) == panicked,
        },
{
    match (i1.data, i2.data) {
        (Data::Struct(fs1), Data::Struct(fs2)) => {
            match read_attrs::<ClientMeta>(i1.attrs@) {
                Reading::Parsed(base_url) => {
                    lemma_expand_fields_push_request::<R>(base_url, generics, fs1@, f);
                    match expand_fields::<R>(base_url, generics, fs1@) {
                        FieldsRun::Going { methods, inits, log } => {
                            assert(client_run::<R>(i1, generics) == Run::Expanded(client_impl(i1.ident@, inits, methods), log));
                        },
                        _ => {},
                    }
                },
                _ => {},
            }
        },
        _ => {},
    }
}

/// Law: the generics given to the request methods change only the methods:
/// with other generics the derive expands on the same items, prints the same
/// lines, and panics alike.
pub proof fn lemma_client_run_generics<R: RequestSettings>(input: DeriveInput, g1: Seq<TokenView>, g2: Seq<TokenView>)
    ensures
        match (client_run::<R>(input, g1), client_run::<R>(input, g2)) {
            (Run::Expanded(t1, l1), Run::Expanded(t2, l2)) => l1 == l2,
            (Run::Panicked(l1, m1), Run::Panicked(l2, m2)) => l1 == l2 && m1 == m2,
            _ => false,
        },
{
    match (input.data, read_attrs::<ClientMeta>(input.attrs@)) {
        (Data::Struct(fields), Reading::Parsed(base_url)) => {
            lemma_expand_fields_generics::<R>(base_url, g1, g2, fields@);
        },
        _ => {},
    }
}

/// Law: one more field at the end that is not of a bare function type, and
/// whose settings read, adds nothing to the expansion: the tokens stay the
/// same and the line `ERROR` is printed once more. Where the derive panics
/// without it, it panics alike with it.
pub proof fn lemma_client_run_extra_field<R: RequestSettings>(
    i1: DeriveInput,
    i2: DeriveInput,
    generics: Seq<TokenView>,
    g: Field,
)
    requires
        i1.ident@ == i2.ident@,
        i1.attrs@ == i2.attrs@,
        i1.data matches Data::Struct(fs1) && i2.data matches Data::Struct(fs2) && fs2@ == fs1@.push(g),
        g.ident is Some,
        g.ty.bare_fn_output is None,
        read_attrs::<R>(g.attrs@) is Parsed,
    ensures
        match client_run::<R>(i1, generics) {
            Run::Expanded(tokens, log) =>
                client_run::<R>(i2, generics) == Run::Expanded(tokens, log.push(skipped_field_line())),
            panicked => client_run::<R>(i2, generics) == panicked,
        },
{
    match (i1.data, i2.data) {
        (Data::Struct(fs1), Data::Struct(fs2)) => {
            assert(fs2@.drop_last() =~= fs1@);
            assert(fs2@.last() == g);
        },
        _ => {},
    }
}

// ---------------------------------------------------------------------------
// The plain flavour: request methods take no generics, and a request's
// settings are `RequestMeta` (method, path, parser).

/// What `#[derive(Diorama)]` does with `input`.
pub open spec fn diorama_run(input: DeriveInput) -> Run {
    client_run::<RequestMeta>(input, Seq::empty())
}

/// Law: the expansion of `#[derive(Diorama)]` is a well-nested token stream.
pub proof fn lemma_diorama_well_nested(input: DeriveInput)
    requires
        input_well_nested(input),
    ensures
        diorama_run(input) matches Run::Expanded(tokens, log) ==> balanced(tokens),
{
    broadcast use group_balanced;
    lemma_client_run_well_nested::<RequestMeta>(input, Seq::empty());
}

/// Expands `#[derive(Diorama)]` on `input`. The derive panics on the inputs
/// left out; `diorama_abort` tells them and what is printed before.
pub fn diorama(input: &DeriveInput) -> (r: Expansion)
    requires
        diorama_run(*input) is Expanded,
    ensures
        r.run() == diorama_run(*input),
{
    match expand_client::<RequestMeta>(input, &TokenStream::new()) {
        Ok(e) => e,
        Err(a) => {
            assert(false);
            Expansion { tokens: TokenStream::new(), log: a.log }
        },
    }
}

/// Where `#[derive(Diorama)]` panics on `input`: what it prints first and the
/// panic message; `None` where it expands.
pub fn diorama_abort(input: &DeriveInput) -> (r: Option<Abort>)
    ensures
        r is None <==> diorama_run(*input) is Expanded,
        r matches Some(a) ==> a.run() == diorama_run(*input),
{
    match expand_client::<RequestMeta>(input, &TokenStream::new()) {
        Ok(_) => None,
        Err(a) => Some(a),
    }
}

/// Law: the `path` and `parser` settings of the fields never reach the
/// output: two items alike but for those settings (their values, or whether
/// they are given at all) run alike where both expand.
pub proof fn lemma_diorama_ignores_path_and_parser(i1: DeriveInput, i2: DeriveInput)
    requires
        i1.ident@ == i2.ident@,
        i1.attrs@ == i2.attrs@,
        i1.data matches Data::Struct(fs1) && i2.data matches Data::Struct(fs2)
            && alike_but_settings(fs1@, fs2@, set!["path"@, "parser"@]),
        diorama_run(i1) is Expanded,
        diorama_run(i2) is Expanded,
    ensures
        diorama_run(i1) == diorama_run(i2),
{
    reveal_strlit("method");
    reveal_strlit("path");
    reveal_strlit("parser");
    assert("method"@.len() == 6 && "path"@.len() == 4 && "method"@[0] != "parser"@[0]);
    lemma_client_run_ignores_settings::<RequestMeta>(i1, i2, Seq::empty(), set!["path"@, "parser"@]);
}

/// Law: one more field at the end that is not of a bare function type, and
/// whose settings read, leaves the tokens of `#[derive(Diorama)]` as they are
/// and prints the line `ERROR` once more.
pub proof fn lemma_diorama_extra_field(i1: DeriveInput, i2: DeriveInput, g: Field)
    requires
        i1.ident@ == i2.ident@,
        i1.attrs@ == i2.attrs@,
        i1.data matches Data::Struct(fs1) && i2.data matches Data::Struct(fs2) && fs2@ == fs1@.push(g),
        g.ident is Some,
        g.ty.bare_fn_output is None,
        read_attrs::<RequestMeta>(g.attrs@) is Parsed,
    ensures
        match diorama_run(i1) {
            Run::Expanded(tokens, log) => diorama_run(i2) == Run::Expanded(tokens, log.push(skipped_field_line())),
            panicked => diorama_run(i2) == panicked,
        },
{
    lemma_client_run_extra_field::<RequestMeta>(i1, i2, Seq::empty(), g);
}

/// The method named `ident` that sends the request described by `req_meta`
/// to the client's base URL.
pub fn impl_request(client_meta: &ClientMeta, req_meta: &RequestMeta, ident: &String, _output: &TokenStream) -> (r: TokenStream)
    ensures
        r@ == request_fn(client_meta@, req_meta.method, ident@, Seq::empty()),
{
    let mut ts = TokenStream::new();
    push_request_fn(&mut ts, &client_meta.base_url.0, req_meta.method, ident, &TokenStream::new());
    assert(ts@ =~= request_fn(client_meta@, req_meta.method, ident@, Seq::empty()));
    ts
}

/// The initializer of the field `ident` in `new()`: a closure with the
/// field's return type and an empty body.
pub fn field_request(_client_meta: &ClientMeta, _req_meta: &RequestMeta, ident: &String, output: &TokenStream) -> (r: TokenStream)
    ensures
        r@ == field_init(ident@, output@),
{
    let mut ts = TokenStream::new();
    push_field_init(&mut ts, ident, output);
    assert(ts@ =~= field_init(ident@, output@));
    ts
}

} // verus!
