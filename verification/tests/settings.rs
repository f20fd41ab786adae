use diorama::attrs::{read_attributes, AttrsOutcome};
use diorama::diorama_core::impl_diorama::request::RequestMeta as CoreRequestMeta;
use diorama::model::{Lit, Meta};
use diorama::request::{BaseUrl, ClientMeta, Method, Parser, RequestMeta, UrlPath};
use diorama::tokens::Token;
use diorama::url_params::UrlParamsArgs;

fn nv(name: &str, value: &str) -> Meta {
    Meta::NameValue { name: name.to_string(), lit: Lit::Str(value.to_string()) }
}

fn nv_other(name: &str) -> Meta {
    Meta::NameValue { name: name.to_string(), lit: Lit::Other }
}

fn unwrap_err(e: &str) -> String {
    format!("called `Result::unwrap()` on an `Err` value: \"{}\"", e)
}

const UNWRAP_NONE: &str = "called `Option::unwrap()` on a `None` value";

#[test]
fn client_meta_reads_base_url() {
    let m = ClientMeta::from_attrs(&vec![nv("base_url", "https://api.example.com")]).unwrap();
    assert_eq!(m.base_url.0, "https://api.example.com");
}

#[test]
fn client_meta_without_attributes_has_empty_base_url() {
    let m = ClientMeta::from_attrs(&vec![]).unwrap();
    assert_eq!(m.base_url.0, "");
}

#[test]
fn client_meta_last_attribute_wins() {
    let m = ClientMeta::from_attrs(&vec![nv("base_url", "http://a"), nv("base_url", "http://b")]).unwrap();
    assert_eq!(m.base_url.0, "http://b");
}

#[test]
fn client_meta_refuses_unknown_name() {
    let r = ClientMeta::from_attrs(&vec![nv("base_url", "http://a"), nv("doc", "text")]);
    assert_eq!(r.unwrap_err(), "Unknown Meta Message in ClientMeta");
}

#[test]
fn client_meta_refuses_word_and_list() {
    let r = ClientMeta::from_attrs(&vec![Meta::Word]);
    assert_eq!(r.unwrap_err(), "Only NameValue Attribute is supported");
    let r = ClientMeta::from_attrs(&vec![Meta::List]);
    assert_eq!(r.unwrap_err(), "Only NameValue Attribute is supported");
}

#[test]
fn reading_stops_at_first_refused_attribute() {
    // The second attribute would panic, but the first one is refused first.
    match read_attributes::<ClientMeta>(&vec![Meta::Word, nv_other("base_url")]) {
        AttrsOutcome::Rejected(e) => assert_eq!(e, "Only NameValue Attribute is supported"),
        other => panic!("unexpected {:?}", other),
    }
}

#[test]
fn client_meta_non_string_value_aborts() {
    match read_attributes::<ClientMeta>(&vec![nv_other("base_url")]) {
        AttrsOutcome::Aborted(m) => assert_eq!(m, unwrap_err("Parse BaseUrl error. It is not a String")),
        other => panic!("unexpected {:?}", other),
    }
}

#[test]
fn unparsed_attribute_aborts() {
    match read_attributes::<ClientMeta>(&vec![Meta::Unparsed]) {
        AttrsOutcome::Aborted(m) => assert_eq!(m, UNWRAP_NONE),
        other => panic!("unexpected {:?}", other),
    }
}

#[test]
fn request_meta_defaults() {
    let m = RequestMeta::from_attrs(&vec![]).unwrap();
    assert_eq!(m.method, Method::DELETE);
    assert_eq!(m.path.0, "");
    assert_eq!(m.parser, Parser::Json);
}

#[test]
fn request_meta_reads_all_settings() {
    let m = RequestMeta::from_attrs(&vec![nv("method", "GET"), nv("path", "/users/{id}"), nv("parser", "Html")])
        .unwrap();
    assert_eq!(m.method, Method::GET);
    assert_eq!(m.path.0, "/users/{id}");
    assert_eq!(m.parser, Parser::Html);
}

#[test]
fn request_settings_in_either_order() {
    let a = RequestMeta::from_attrs(&vec![nv("method", "POST"), nv("path", "/x")]).unwrap();
    let b = RequestMeta::from_attrs(&vec![nv("path", "/x"), nv("method", "POST")]).unwrap();
    assert_eq!(a.method, b.method);
    assert_eq!(a.path.0, b.path.0);
    assert_eq!(a.parser, b.parser);
}

#[test]
fn request_meta_unknown_method_aborts() {
    match read_attributes::<RequestMeta>(&vec![nv("method", "get")]) {
        AttrsOutcome::Aborted(m) => assert_eq!(m, unwrap_err("Unknown Method")),
        other => panic!("unexpected {:?}", other),
    }
    match read_attributes::<RequestMeta>(&vec![nv("parser", "Xml")]) {
        AttrsOutcome::Aborted(m) => assert_eq!(m, unwrap_err("Unknown Parser")),
        other => panic!("unexpected {:?}", other),
    }
}

#[test]
fn request_meta_non_string_method_aborts() {
    match read_attributes::<RequestMeta>(&vec![nv_other("method")]) {
        AttrsOutcome::Aborted(m) => assert_eq!(m, UNWRAP_NONE),
        other => panic!("unexpected {:?}", other),
    }
    match read_attributes::<RequestMeta>(&vec![nv_other("path")]) {
        AttrsOutcome::Aborted(m) => assert_eq!(m, unwrap_err("Parse UrlPath error. It is not a String")),
        other => panic!("unexpected {:?}", other),
    }
}

#[test]
fn core_request_meta_has_no_path() {
    let m = CoreRequestMeta::from_attrs(&vec![nv("method", "GET"), nv("parser", "Html")]).unwrap();
    assert_eq!(m.method, Method::GET);
    assert_eq!(m.parser, Parser::Html);
    let r = CoreRequestMeta::from_attrs(&vec![nv("path", "/x")]);
    assert_eq!(r.unwrap_err(), "Unknown Meta Message in RequestMeta");
}

#[test]
fn url_params_args_reads_path() {
    let a = UrlParamsArgs::from_attrs(&vec![nv("path", "/items/{id}")]).unwrap();
    assert_eq!(a.path.0, "/items/{id}");
    let r = UrlParamsArgs::from_attrs(&vec![nv("base_url", "x")]);
    assert_eq!(r.unwrap_err(), "Unknown Meta Message in UrlParamsArgs");
}

#[test]
fn method_from_lit_names() {
    assert_eq!(Method::from_lit(&Lit::Str("GET".to_string())).unwrap(), Method::GET);
    assert_eq!(Method::from_lit(&Lit::Str("POST".to_string())).unwrap(), Method::POST);
    assert_eq!(Method::from_lit(&Lit::Str("DELETE".to_string())).unwrap(), Method::DELETE);
    assert_eq!(Method::from_lit(&Lit::Str("PUT".to_string())).unwrap_err(), "Unknown Method");
    assert_eq!(Method::new(), Method::DELETE);
}

#[test]
fn parser_from_lit_names() {
    assert_eq!(Parser::from_lit(&Lit::Str("Html".to_string())).unwrap(), Parser::Html);
    assert_eq!(Parser::from_lit(&Lit::Str("Json".to_string())).unwrap(), Parser::Json);
    assert_eq!(Parser::from_lit(&Lit::Str("json".to_string())).unwrap_err(), "Unknown Parser");
    assert_eq!(Parser::new(), Parser::Json);
}

#[test]
fn method_to_ident_names_client_fn() {
    for (m, name) in [(Method::GET, "get"), (Method::POST, "post"), (Method::DELETE, "delete")] {
        match m.to_ident() {
            Token::Ident(s) => assert_eq!(s, name),
            other => panic!("unexpected {:?}", other),
        }
    }
}

#[test]
fn string_settings_from_lit() {
    assert_eq!(BaseUrl::from_lit(&Lit::Str("u".to_string())).unwrap().0, "u");
    assert_eq!(BaseUrl::from_lit(&Lit::Other).unwrap_err(), "Parse BaseUrl error. It is not a String");
    assert_eq!(UrlPath::from_lit(&Lit::Str("/p".to_string())).unwrap().0, "/p");
    assert_eq!(UrlPath::from_lit(&Lit::Other).unwrap_err(), "Parse UrlPath error. It is not a String");
    assert_eq!(BaseUrl::new().0, "");
    assert_eq!(UrlPath::new().0, "");
}

struct Query {
    id: u32,
}

impl diorama::UrlParams for Query {
    fn make_path(&self) -> String {
        format!("/items/{}", self.id)
    }
}

#[test]
fn url_params_trait_formats_path() {
    let q = Query { id: 7 };
    assert_eq!(diorama::UrlParams::make_path(&q), "/items/7");
}
