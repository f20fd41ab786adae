use diorama::diorama_core::impl_diorama::request::{impl_field_request, impl_request as core_impl_request,
    RequestMeta as CoreRequestMeta};
use diorama::diorama_core::{impl_make_path, impl_make_path_abort, impl_struct, impl_struct_abort};
use diorama::model::{Data, DeriveInput, Field, Lit, LogLine, Meta, Type};
use diorama::parse_utils::{enum_from_lit, enum_from_lit_abort, ident_to_litstr, string_struct_from_lit,
    struct_from_attrs, struct_from_attrs_abort};
use diorama::request::{BaseUrl, ClientMeta, Method, Parser, RequestMeta, UrlPath};
use diorama::tokens::{Delimiter, Spacing, Token, TokenStream};
use diorama::{diorama, diorama_abort, field_request, impl_request, url_params, url_params_abort};

/// Tokens from space-separated text: brackets, `->`, `::`, `=>`, identifiers,
/// string literals without spaces, numbers and single punctuation.
fn toks(src: &str) -> TokenStream {
    let mut tokens = Vec::new();
    for w in src.split_whitespace() {
        let first = w.chars().next().unwrap();
        match w {
            "(" => tokens.push(Token::Open(Delimiter::Parenthesis)),
            ")" => tokens.push(Token::Close(Delimiter::Parenthesis)),
            "{" => tokens.push(Token::Open(Delimiter::Brace)),
            "}" => tokens.push(Token::Close(Delimiter::Brace)),
            "[" => tokens.push(Token::Open(Delimiter::Bracket)),
            "]" => tokens.push(Token::Close(Delimiter::Bracket)),
            _ if first == '"' => tokens.push(Token::Str(w[1..w.len() - 1].to_string())),
            _ if first.is_ascii_digit() => tokens.push(Token::Literal(w.to_string())),
            _ if first.is_alphabetic() || first == '_' => tokens.push(Token::Ident(w.to_string())),
            _ => {
                let cs: Vec<char> = w.chars().collect();
                for (i, c) in cs.iter().enumerate() {
                    let sp = if i + 1 < cs.len() { Spacing::Joint } else { Spacing::Alone };
                    tokens.push(Token::Punct(*c, sp));
                }
            }
        }
    }
    TokenStream { tokens }
}

/// The tokens as text: a space between tokens, none after a joint punct.
fn render(ts: &TokenStream) -> String {
    let mut out = String::new();
    let mut glue = true;
    for t in &ts.tokens {
        if !glue {
            out.push(' ');
        }
        glue = false;
        match t {
            Token::Ident(s) => out.push_str(s),
            Token::Punct(c, sp) => {
                out.push(*c);
                glue = *sp == Spacing::Joint;
            }
            Token::Str(s) => out.push_str(&format!("{:?}", s)),
            Token::Literal(s) => out.push_str(s),
            Token::Open(Delimiter::Parenthesis) => out.push('('),
            Token::Close(Delimiter::Parenthesis) => out.push(')'),
            Token::Open(Delimiter::Brace) => out.push('{'),
            Token::Close(Delimiter::Brace) => out.push('}'),
            Token::Open(Delimiter::Bracket) => out.push('['),
            Token::Close(Delimiter::Bracket) => out.push(']'),
        }
    }
    out
}

fn well_nested(ts: &TokenStream) -> bool {
    let mut open = Vec::new();
    for t in &ts.tokens {
        match t {
            Token::Open(d) => open.push(*d),
            Token::Close(d) => {
                if open.pop() != Some(*d) {
                    return false;
                }
            }
            _ => {}
        }
    }
    open.is_empty()
}

fn log_text(log: &[LogLine]) -> Vec<String> {
    log.iter()
        .map(|l| match l {
            LogLine::Text(s) => s.clone(),
            LogLine::Tokens(t) => render(t),
        })
        .collect()
}

fn nv(name: &str, value: &str) -> Meta {
    Meta::NameValue { name: name.to_string(), lit: Lit::Str(value.to_string()) }
}

fn field(name: &str, attrs: Vec<Meta>, ty: &str) -> Field {
    Field { ident: Some(name.to_string()), attrs, ty: Type { tokens: toks(ty), bare_fn_output: None } }
}

fn fn_field(name: &str, attrs: Vec<Meta>, ty: &str, output: &str) -> Field {
    Field { ident: Some(name.to_string()), attrs, ty: Type { tokens: toks(ty), bare_fn_output: Some(toks(output)) } }
}

fn item(name: &str, attrs: Vec<Meta>, data: Data) -> DeriveInput {
    DeriveInput { ident: name.to_string(), attrs, data }
}

fn unwrap_err(e: &str) -> String {
    format!("called `Result::unwrap()` on an `Err` value: \"{}\"", e)
}

const UNWRAP_NONE: &str = "called `Option::unwrap()` on a `None` value";

fn params_struct(attrs: Vec<Meta>) -> DeriveInput {
    item(
        "Req",
        attrs,
        Data::Struct(vec![field("id", vec![], "u32"), field("name", vec![], "String")]),
    )
}

#[test]
fn url_params_expands_inherent_make_path() {
    let input = params_struct(vec![nv("path", "/u/{id}/{name}")]);
    assert!(url_params_abort(&input).is_none());
    let e = url_params(&input);
    let expected = "impl Req { fn make_path ( & self ) -> String { format ! ( \"/u/{id}/{name}\" , id = self . id , name = self . name ) . unwrap ( ) } }";
    assert_eq!(render(&e.tokens), expected);
    assert!(well_nested(&e.tokens));
    assert_eq!(
        log_text(&e.log),
        vec![
            ", id = self . id".to_string(),
            ", id = self . id , name = self . name".to_string(),
            expected.to_string(),
        ]
    );
}

#[test]
fn impl_make_path_implements_url_params() {
    let input = params_struct(vec![nv("path", "/u/{id}/{name}")]);
    assert!(impl_make_path_abort(&input).is_none());
    let e = impl_make_path(&input);
    let expected = "impl diorama :: UrlParams for Req { fn make_path ( & self ) -> String { format ! ( \"/u/{id}/{name}\" , id = self . id , name = self . name ) } }";
    assert_eq!(render(&e.tokens), expected);
    assert_eq!(log_text(&e.log), vec![expected.to_string()]);
}

#[test]
fn url_params_without_path_formats_empty_path() {
    let input = item("Unit", vec![], Data::Struct(vec![]));
    let e = url_params(&input);
    assert_eq!(
        render(&e.tokens),
        "impl Unit { fn make_path ( & self ) -> String { format ! ( \"\" ) . unwrap ( ) } }"
    );
}

#[test]
fn url_params_panics_on_enum() {
    let input = item("E", vec![], Data::Enum(vec!["A".to_string()]));
    let a = url_params_abort(&input).unwrap();
    assert_eq!(a.message, "Only Struct is supported for derive(UrlParams)");
    assert!(a.log.is_empty());
    let a = impl_make_path_abort(&input).unwrap();
    assert_eq!(a.message, "Only Struct is supported for derive(UrlParams)");
}

#[test]
fn url_params_panics_on_unknown_attribute_after_printing() {
    let input = params_struct(vec![nv("doc", "a struct")]);
    let a = url_params_abort(&input).unwrap();
    assert_eq!(a.message, unwrap_err("Unknown Meta Message in UrlParamsArgs"));
    assert_eq!(log_text(&a.log).len(), 2);
    let a = impl_make_path_abort(&input).unwrap();
    assert!(a.log.is_empty());
}

#[test]
fn url_params_panics_on_tuple_struct() {
    let f = Field { ident: None, attrs: vec![], ty: Type { tokens: toks("u32"), bare_fn_output: None } };
    let input = item("T", vec![nv("path", "/")], Data::Struct(vec![f]));
    assert_eq!(url_params_abort(&input).unwrap().message, UNWRAP_NONE);
}

fn api_struct(client_attrs: Vec<Meta>, user_attrs: Vec<Meta>) -> DeriveInput {
    item(
        "Api",
        client_attrs,
        Data::Struct(vec![
            field("count", vec![], "u32"),
            fn_field("user", user_attrs, "fn ( ) -> String", "-> String"),
        ]),
    )
}

const USER_METHOD_BODY: &str = "( & self , url_params : T , body : & 'static str ) -> Result < String , reqwest :: Error > { let url = & format ! ( \"{}{}\" , \"https://h\" , url_params . make_path ( ) ) [ .. ] ; let client = reqwest :: Client :: new ( ) ; let res = client . get ( url ) . body ( body ) . send ( ) ? . text ( ) ? ; println ! ( \"{}\" , res ) ; return Ok ( res ) ; }";

#[test]
fn diorama_expands_client() {
    let input = api_struct(
        vec![nv("base_url", "https://h")],
        vec![nv("method", "GET"), nv("path", "/users"), nv("parser", "Json")],
    );
    assert!(diorama_abort(&input).is_none());
    let e = diorama(&input);
    let expected = format!(
        "extern crate reqwest ; impl Api {{ fn new ( ) -> Api {{ Api {{ user : || -> String {{ }} , }} }} fn user {} }}",
        USER_METHOD_BODY
    );
    assert_eq!(render(&e.tokens), expected);
    assert!(well_nested(&e.tokens));
    assert_eq!(log_text(&e.log), vec!["ERROR".to_string()]);
}

#[test]
fn impl_struct_methods_are_generic() {
    let input = api_struct(vec![nv("base_url", "https://h")], vec![nv("method", "GET"), nv("parser", "Json")]);
    assert!(impl_struct_abort(&input).is_none());
    let e = impl_struct(&input);
    let expected = format!(
        "extern crate reqwest ; impl Api {{ fn new ( ) -> Api {{ Api {{ user : || -> String {{ }} , }} }} fn user < T : diorama :: UrlParams > {} }}",
        USER_METHOD_BODY
    );
    assert_eq!(render(&e.tokens), expected);
    assert_eq!(log_text(&e.log), vec!["ERROR".to_string()]);
}

#[test]
fn diorama_panics_on_unknown_client_attribute() {
    let input = api_struct(vec![nv("base", "x")], vec![]);
    let a = diorama_abort(&input).unwrap();
    assert_eq!(a.message, unwrap_err("Unknown Meta Message in ClientMeta"));
    assert!(a.log.is_empty());
}

#[test]
fn diorama_panics_on_enum() {
    let input = item("E", vec![], Data::Enum(vec![]));
    assert_eq!(diorama_abort(&input).unwrap().message, "Only Struct is supported for derive(Diorama)");
    assert_eq!(impl_struct_abort(&input).unwrap().message, "Only Struct is supported for derive(Diorama)");
}

#[test]
fn diorama_panics_on_bad_method_after_printing() {
    let input = api_struct(vec![nv("base_url", "https://h")], vec![nv("method", "PATCH")]);
    let a = diorama_abort(&input).unwrap();
    assert_eq!(a.message, unwrap_err("Unknown Method"));
    assert_eq!(log_text(&a.log), vec!["ERROR".to_string()]);
}

#[test]
fn impl_struct_refuses_path_setting() {
    let input = api_struct(vec![nv("base_url", "https://h")], vec![nv("path", "/x")]);
    let a = impl_struct_abort(&input).unwrap();
    assert_eq!(a.message, unwrap_err("Unknown Meta Message in RequestMeta"));
    assert!(diorama_abort(&input).is_none());
}

#[test]
fn impl_request_sends_with_method() {
    let client = ClientMeta { base_url: BaseUrl("https://h".to_string()) };
    let req = RequestMeta { method: Method::POST, path: UrlPath("/p".to_string()), parser: Parser::Json };
    let ts = impl_request(&client, &req, &"create".to_string(), &toks("-> String"));
    let r = render(&ts);
    assert!(r.starts_with("fn create ( & self"));
    assert!(r.contains("client . post ( url )"));
    assert!(well_nested(&ts));
    let core_req = CoreRequestMeta { method: Method::DELETE, parser: Parser::Html };
    let ts = core_impl_request(&client, &core_req, &"remove".to_string(), &toks(""));
    let r = render(&ts);
    assert!(r.starts_with("fn remove < T : diorama :: UrlParams > ( & self"));
    assert!(r.contains("client . delete ( url )"));
}

#[test]
fn field_request_initializes_closure() {
    let client = ClientMeta { base_url: BaseUrl::new() };
    let req = RequestMeta { method: Method::GET, path: UrlPath::new(), parser: Parser::Json };
    let ts = field_request(&client, &req, &"user".to_string(), &toks("-> String"));
    assert_eq!(render(&ts), "user : || -> String { } ,");
    let core_req = CoreRequestMeta { method: Method::GET, parser: Parser::Json };
    let ts = impl_field_request(&client, &core_req, &"ping".to_string(), &toks(""));
    assert_eq!(render(&ts), "ping : || { } ,");
}

#[test]
fn string_struct_from_lit_generates_reader() {
    let input = item("BaseUrl", vec![], Data::Struct(vec![]));
    let ts = string_struct_from_lit(&input);
    assert_eq!(
        render(&ts),
        "impl BaseUrl { fn from_lit ( lit : & syn :: Lit ) -> Result < Self , String > { let str = match lit { syn :: Lit :: Str ( s ) => Some ( s . value ( ) ) , _ => None } ; match str { Some ( str ) => Ok ( BaseUrl ( str ) ) , None => Err ( format ! ( \"Parse {} error. It is not a String\" , \"BaseUrl\" ) ) } } fn new ( ) -> Self { BaseUrl ( \"\" . to_string ( ) ) } }"
    );
    assert!(well_nested(&ts));
}

#[test]
fn enum_from_lit_generates_reader() {
    let input = item(
        "Method",
        vec![],
        Data::Enum(vec!["GET".to_string(), "POST".to_string(), "DELETE".to_string()]),
    );
    assert!(enum_from_lit_abort(&input).is_none());
    let ts = enum_from_lit(&input);
    assert_eq!(
        render(&ts),
        "impl Method { fn from_lit ( lit : & syn :: Lit ) -> Result < Self , String > { let str = match lit { syn :: Lit :: Str ( s ) => Some ( s . value ( ) ) , _ => None } ; match & str . unwrap ( ) [ .. ] { \"GET\" => Ok ( Method :: GET ) , \"POST\" => Ok ( Method :: POST ) , \"DELETE\" => Ok ( Method :: DELETE ) , _ => Err ( format ! ( \"Unknown {}\" , \"Method\" ) ) } } fn new ( ) -> Self { Method :: DELETE } }"
    );
    assert!(well_nested(&ts));
}

#[test]
fn enum_from_lit_without_variants_defaults_to_uninitialized() {
    let input = item("Never", vec![], Data::Enum(vec![]));
    let r = render(&enum_from_lit(&input));
    assert!(r.ends_with("fn new ( ) -> Self { Never :: Uninitialized } }"));
}

#[test]
fn enum_from_lit_panics_on_struct() {
    let input = item("S", vec![], Data::Struct(vec![]));
    assert_eq!(enum_from_lit_abort(&input).unwrap(), "EnumFromLit must be used on Enum!");
    assert_eq!(enum_from_lit_abort(&item("U", vec![], Data::Union)).unwrap(), "EnumFromLit must be used on Enum!");
}

#[test]
fn struct_from_attrs_generates_reader() {
    let input = item("ClientMeta", vec![], Data::Struct(vec![field("base_url", vec![], "BaseUrl")]));
    assert!(struct_from_attrs_abort(&input).is_none());
    let ts = struct_from_attrs(&input);
    assert_eq!(
        render(&ts),
        "impl ClientMeta { pub fn from_attrs ( attrs : & Vec < syn :: Attribute > ) -> Result < Self , String > { let mut base_url : BaseUrl = BaseUrl :: new ( ) ; for attr in attrs { let meta = attr . interpret_meta ( ) . unwrap ( ) ; match meta { syn :: Meta :: NameValue ( meta_name_value ) => { match meta_name_value . ident . to_string ( ) . as_ref ( ) { \"base_url\" => { base_url = BaseUrl :: from_lit ( & meta_name_value . lit ) . unwrap ( ) ; } _ => { return Err ( format ! ( \"Unknown Meta Message in {}\" , \"ClientMeta\" ) ) } } } _ => { return Err ( \"Only NameValue Attribute is supported\" . to_string ( ) ) } } } Ok ( ClientMeta { base_url , } ) } }"
    );
    assert!(well_nested(&ts));
}

#[test]
fn struct_from_attrs_keeps_type_tokens() {
    let input = item("Sized", vec![], Data::Struct(vec![field("bytes", vec![], "[ u8 ; 4 ]")]));
    let r = render(&struct_from_attrs(&input));
    assert!(r.contains("let mut bytes : [ u8 ; 4 ] = [ u8 ; 4 ] :: new ( ) ;"));
}

#[test]
fn struct_from_attrs_panics_on_enum_and_tuple_struct() {
    let input = item("E", vec![], Data::Enum(vec![]));
    assert_eq!(struct_from_attrs_abort(&input).unwrap(), "StructFromAttrs must be used on Struct!");
    let f = Field { ident: None, attrs: vec![], ty: Type { tokens: toks("u32"), bare_fn_output: None } };
    let input = item("T", vec![], Data::Struct(vec![f]));
    assert_eq!(struct_from_attrs_abort(&input).unwrap(), UNWRAP_NONE);
}

#[test]
fn ident_to_litstr_holds_ident_text() {
    match ident_to_litstr(&"Method".to_string()) {
        Token::Str(s) => assert_eq!(s, "Method"),
        other => panic!("unexpected {:?}", other),
    }
}

#[test]
fn token_stream_group_and_append() {
    let mut inner = TokenStream::new();
    inner.ident("a");
    inner.punct(',');
    let mut ts = TokenStream::new();
    ts.ident("f");
    ts.group(Delimiter::Parenthesis, &inner);
    ts.append(&inner);
    assert_eq!(render(&ts), "f ( a , ) a ,");
    assert!(well_nested(&ts));
}

fn base() -> Vec<Meta> {
    vec![nv("base_url", "https://h")]
}

#[test]
fn impl_struct_parser_setting_leaves_expansion_unchanged() {
    let html = impl_struct(&api_struct(base(), vec![nv("method", "GET"), nv("parser", "Html")]));
    let json = impl_struct(&api_struct(base(), vec![nv("parser", "Json"), nv("method", "GET")]));
    let none = impl_struct(&api_struct(base(), vec![nv("method", "GET")]));
    assert_eq!(render(&html.tokens), render(&none.tokens));
    assert_eq!(render(&json.tokens), render(&none.tokens));
    assert_eq!(log_text(&html.log), log_text(&none.log));
    assert_eq!(log_text(&json.log), log_text(&none.log));
}

#[test]
fn diorama_path_and_parser_settings_leave_expansion_unchanged() {
    let set = diorama(&api_struct(base(), vec![nv("path", "/a"), nv("method", "GET"), nv("parser", "Html")]));
    let bare = diorama(&api_struct(base(), vec![nv("method", "GET")]));
    assert_eq!(render(&set.tokens), render(&bare.tokens));
    assert_eq!(log_text(&set.log), log_text(&bare.log));
}

#[test]
fn extra_plain_field_prints_error_and_adds_no_tokens() {
    let before = api_struct(base(), vec![nv("method", "POST")]);
    let mut after = api_struct(base(), vec![nv("method", "POST")]);
    if let Data::Struct(fs) = &mut after.data {
        fs.push(field("extra", vec![nv("method", "GET")], "u32"));
    }
    let e1 = impl_struct(&before);
    let e2 = impl_struct(&after);
    assert_eq!(render(&e1.tokens), render(&e2.tokens));
    assert_eq!(log_text(&e1.log), vec!["ERROR".to_string()]);
    assert_eq!(log_text(&e2.log), vec!["ERROR".to_string(), "ERROR".to_string()]);
    let d1 = diorama(&before);
    let d2 = diorama(&after);
    assert_eq!(render(&d1.tokens), render(&d2.tokens));
    assert_eq!(d2.log.len(), d1.log.len() + 1);
}

#[test]
fn flavours_differ_only_in_method_generics() {
    let input = api_struct(vec![nv("base_url", "https://h")], vec![nv("method", "GET"), nv("parser", "Html")]);
    let plain = diorama(&input);
    let generic = impl_struct(&input);
    let with_generics = render(&plain.tokens).replace("fn user (", "fn user < T : diorama :: UrlParams > (");
    assert_eq!(render(&generic.tokens), with_generics);
    assert_eq!(log_text(&plain.log), log_text(&generic.log));
    let bad = api_struct(vec![nv("base_url", "https://h")], vec![nv("method", "PUT")]);
    let a1 = diorama_abort(&bad).unwrap();
    let a2 = impl_struct_abort(&bad).unwrap();
    assert_eq!(a1.message, a2.message);
    assert_eq!(log_text(&a1.log), log_text(&a2.log));
}

#[test]
fn make_path_reads_only_field_names() {
    let a = params_struct(vec![nv("path", "/u/{id}/{name}")]);
    let b = item(
        "Req",
        vec![nv("path", "/u/{id}/{name}")],
        Data::Struct(vec![
            field("id", vec![nv("skip", "yes")], "String"),
            fn_field("name", vec![], "fn ( ) -> u8", "-> u8"),
        ]),
    );
    assert_eq!(render(&impl_make_path(&a).tokens), render(&impl_make_path(&b).tokens));
    assert_eq!(log_text(&url_params(&a).log), log_text(&url_params(&b).log));
}
