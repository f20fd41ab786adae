//! The settings of `#[derive(Diorama)]` in the generic flavour: the client's
//! settings are the same as in the plain flavour; a request has a method and
//! a parser, and no path.
use vstd::prelude::*;
use crate::attrs::{FromAttrs, Step, AssignResult, Reading, read_attrs};
use crate::client::{RequestSettings, request_fn, field_init, push_request_fn, push_field_init};
use crate::model::{Lit, Meta, text_is};
use crate::tokens::{TokenStream, TokenView, ident, punct, colon2};
pub use crate::request::{BaseUrl, ClientMeta, Method, Parser, method_value, method_value_of,
    parser_value, parser_value_of};

verus! {

/// A request's settings as mathematical values.
pub struct RequestMetaView {
    pub method: Method,
    pub parser: Parser,
}

/// The settings of a request: `#[method = ".."]` and `#[parser = ".."]`.
#[derive(Debug)]
pub struct RequestMeta {
    pub method: Method,
    pub parser: Parser,
}

impl View for RequestMeta {
    type V = RequestMetaView;

    open spec fn view(&self) -> RequestMetaView {
        RequestMetaView { method: self.method, parser: self.parser }
    }
}

impl RequestMeta {
    /// Reads the settings of a request from a field's attributes.
    pub fn from_attrs(attrs: &Vec<Meta>) -> (r: Result<RequestMeta, String>)
        requires
            !(read_attrs::<RequestMeta>(attrs@) is Aborted),
        ensures
            r matches Ok(t) ==> read_attrs::<RequestMeta>(attrs@) == Reading::<RequestMetaView>::Parsed(t@),
            r matches Err(e) ==> read_attrs::<RequestMeta>(attrs@) == Reading::<RequestMetaView>::Rejected(e@),
    {
        crate::attrs::from_attrs::<RequestMeta>(attrs)
    }
}

impl FromAttrs for RequestMeta {
    open spec fn struct_name() -> Seq<char> {
        "RequestMeta"@
    }

    open spec fn initial() -> RequestMetaView {
        RequestMetaView { method: Method::DELETE, parser: Parser::Json }
    }

    open spec fn assigned(v: RequestMetaView, key: Seq<char>, lit: Lit) -> Step<RequestMetaView> {
        if key == "method"@ {
            match method_value(lit) {
                Ok(m) => Step::Assigned(RequestMetaView { method: m, parser: v.parser }),
                Err(msg) => Step::BadValue(msg),
            }
        } else if key == "parser"@ {
            match parser_value(lit) {
                Ok(p) => Step::Assigned(RequestMetaView { method: v.method, parser: p }),
                Err(msg) => Step::BadValue(msg),
            }
        } else {
            Step::UnknownKey
        }
    }

    fn struct_name_string() -> (r: String) {
        String::from_str("RequestMeta")
    }

    fn initial_value() -> (r: RequestMeta) {
        RequestMeta { method: Method::new(), parser: Parser::new() }
    }

    fn assign(&mut self, key: &String, lit: &Lit) -> (r: AssignResult) {
        if text_is(key, "method") {
            match method_value_of(lit) {
                Ok(m) => {
                    self.method = m;
                    AssignResult::Assigned
                },
                Err(msg) => AssignResult::BadValue(msg),
            }
        } else if text_is(key, "parser") {
            match parser_value_of(lit) {
                Ok(p) => {
                    self.parser = p;
                    AssignResult::Assigned
                },
                Err(msg) => AssignResult::BadValue(msg),
            }
        } else {
            AssignResult::UnknownKey
        }
    }
}

impl RequestSettings for RequestMeta {
    open spec fn method_of(v: RequestMetaView) -> Method {
        v.method
    }

    fn method(&self) -> (m: Method) {
        self.method
    }

    proof fn lemma_assigned_method(v1: RequestMetaView, v2: RequestMetaView, key: Seq<char>, lit: Lit) {
    }
}

/// `<T: diorama::UrlParams>`
pub open spec fn url_params_generics() -> Seq<TokenView> {
    seq![punct('<'), ident("T"), punct(':'), ident("diorama")] + colon2()
        + seq![ident("UrlParams"), punct('>')]
}

pub fn url_params_generics_tokens() -> (r: TokenStream)
    ensures
        r@ == url_params_generics(),
{
    let mut ts = TokenStream::new();
    ts.punct('<');
    ts.ident("T");
    ts.punct(':');
    ts.ident("diorama");
    ts.colon2();
    ts.ident("UrlParams");
    ts.punct('>');
    assert(ts@ =~= url_params_generics());
    ts
}

/// The method named `ident`, generic over the type of its URL parameters,
/// that sends the request described by `req_meta` to the client's base URL.
pub fn impl_request(client_meta: &ClientMeta, req_meta: &RequestMeta, ident: &String, _output: &TokenStream) -> (r: TokenStream)
    ensures
        r@ == request_fn(client_meta@, req_meta.method, ident@, url_params_generics()),
{
    let mut ts = TokenStream::new();
    let generics = url_params_generics_tokens();
    push_request_fn(&mut ts, &client_meta.base_url.0, req_meta.method, ident, &generics);
    assert(ts@ =~= request_fn(client_meta@, req_meta.method, ident@, url_params_generics()));
    ts
}

/// The initializer of the field `ident` in `new()`.
pub fn impl_field_request(_client_meta: &ClientMeta, _req_meta: &RequestMeta, ident: &String, output: &TokenStream) -> (r: TokenStream)
    ensures
        r@ == field_init(ident@, output@),
{
    let mut ts = TokenStream::new();
    push_field_init(&mut ts, ident, output);
    assert(ts@ =~= field_init(ident@, output@));
    ts
}

} // verus!
