//! The settings that `#[derive(Diorama)]` reads: the client's base URL on the
//! struct, and the method, path and parser of each request on its fields.
use vstd::prelude::*;
use crate::attrs::{FromAttrs, Step, AssignResult, Reading, read_attrs, read_attr};
use crate::model::{Lit, Meta, text_is, unwrap_none_message, unwrap_err_message,
    unwrap_none_message_string, unwrap_err_message_string};
use crate::tokens::{Token, name};

verus! {

/// The error that reading a string setting from a literal that is not a
/// string gives, for the setting's type name.
pub open spec fn not_a_string_message(setting_type: Seq<char>) -> Seq<char> {
    "Parse "@ + setting_type + " error. It is not a String"@
}

pub fn not_a_string_message_string(setting_type: &str) -> (r: String)
    ensures
        r@ == not_a_string_message(setting_type@),
{
    let mut r = String::from_str("Parse ");
    r.append(setting_type);
    r.append(" error. It is not a String");
    r
}

/// A string setting read from `lit`, or the message the derive panics with
/// (a string setting's reading is unwrapped).
pub open spec fn text_value(lit: Lit, setting_type: Seq<char>) -> Result<Seq<char>, Seq<char>> {
    match lit {
        Lit::Str(s) => Ok(s@),
        Lit::Other => Err(unwrap_err_message(not_a_string_message(setting_type))),
    }
}

/// The base URL of a client.
#[derive(Debug)]
pub struct BaseUrl(pub String);

impl View for BaseUrl {
    type V = Seq<char>;

    open spec fn view(&self) -> Seq<char> {
        self.0@
    }
}

impl BaseUrl {
    /// Reads a base URL from a string literal.
    pub fn from_lit(lit: &Lit) -> (r: Result<BaseUrl, String>)
        ensures
            match lit {
                Lit::Str(s) => r matches Ok(b) && b@ == s@,
                Lit::Other => r matches Err(e) && e@ == not_a_string_message("BaseUrl"@),
            },
    {
        match lit {
            Lit::Str(s) => Ok(BaseUrl(s.clone())),
            Lit::Other => Err(not_a_string_message_string("BaseUrl")),
        }
    }

    /// The empty base URL.
    pub fn new() -> (r: BaseUrl)
        ensures
            r@ == Seq::<char>::empty(),
    {
        BaseUrl(String::new())
    }
}

/// The path of a request.
#[derive(Debug)]
pub struct UrlPath(pub String);

impl View for UrlPath {
    type V = Seq<char>;

    open spec fn view(&self) -> Seq<char> {
        self.0@
    }
}

impl UrlPath {
    /// Reads a path from a string literal.
    pub fn from_lit(lit: &Lit) -> (r: Result<UrlPath, String>)
        ensures
            match lit {
                Lit::Str(s) => r matches Ok(p) && p@ == s@,
                Lit::Other => r matches Err(e) && e@ == not_a_string_message("UrlPath"@),
            },
    {
        match lit {
            Lit::Str(s) => Ok(UrlPath(s.clone())),
            Lit::Other => Err(not_a_string_message_string("UrlPath")),
        }
    }

    /// The empty path.
    pub fn new() -> (r: UrlPath)
        ensures
            r@ == Seq::<char>::empty(),
    {
        UrlPath(String::new())
    }
}

/// The HTTP method of a request.
#[allow(non_camel_case_types)]
#[derive(Clone, Copy, Debug, PartialEq, Eq, Structural)]
pub enum Method {
    GET,
    POST,
    DELETE,
}

impl Method {
    /// The variant's name, as an attribute writes it.
    pub open spec fn variant_name(self) -> Seq<char> {
        match self {
            Method::GET => "GET"@,
            Method::POST => "POST"@,
            Method::DELETE => "DELETE"@,
        }
    }

    /// The method whose variant name is `s`, if any.
    pub open spec fn named(s: Seq<char>) -> Option<Method> {
        if s == "GET"@ {
            Some(Method::GET)
        } else if s == "POST"@ {
            Some(Method::POST)
        } else if s == "DELETE"@ {
            Some(Method::DELETE)
        } else {
            None
        }
    }

    /// The name of the client method that sends a request with this method.
    pub open spec fn client_fn(self) -> Seq<char> {
        match self {
            Method::GET => "get"@,
            Method::POST => "post"@,
            Method::DELETE => "delete"@,
        }
    }

    /// Reads a method from a string literal that names a variant; any other
    /// string gives `"Unknown Method"`. (A literal that is not a string
    /// panics in the generated reader, so it is left out.)
    pub fn from_lit(lit: &Lit) -> (r: Result<Method, String>)
        requires
            lit is Str,
        ensures
            lit matches Lit::Str(s) && match Method::named(s@) {
                Some(m) => r == Ok::<Method, String>(m),
                None => r matches Err(e) && e@ == "Unknown Method"@,
            },
    {
        match lit {
            Lit::Str(s) => {
                if text_is(s, "GET") {
                    Ok(Method::GET)
                } else if text_is(s, "POST") {
                    Ok(Method::POST)
                } else if text_is(s, "DELETE") {
                    Ok(Method::DELETE)
                } else {
                    Err(String::from_str("Unknown Method"))
                }
            },
            Lit::Other => Err(String::new()),
        }
    }

    /// The default method: the last variant.
    pub fn new() -> (r: Method)
        ensures
            r == Method::DELETE,
    {
        Method::DELETE
    }

    /// The identifier of the client method that sends the request.
    pub fn to_ident(&self) -> (r: Token)
        ensures
            r@ == name(self.client_fn()),
    {
        match self {
            Method::GET => Token::Ident(String::from_str("get")),
            Method::POST => Token::Ident(String::from_str("post")),
            Method::DELETE => Token::Ident(String::from_str("delete")),
        }
    }
}

/// A method setting read from `lit`, or the message the derive panics with.
pub open spec fn method_value(lit: Lit) -> Result<Method, Seq<char>> {
    match lit {
        Lit::Str(s) => match Method::named(s@) {
            Some(m) => Ok(m),
            None => Err(unwrap_err_message("Unknown Method"@)),
        },
        Lit::Other => Err(unwrap_none_message()),
    }
}

/// Reads a method setting as the generated reader does: `Err` holds the
/// message it panics with.
pub fn method_value_of(lit: &Lit) -> (r: Result<Method, String>)
    ensures
        match method_value(*lit) {
            Ok(m) => r == Ok::<Method, String>(m),
            Err(msg) => r matches Err(e) && e@ == msg,
        },
{
    match lit {
        Lit::Str(_) => match Method::from_lit(lit) {
            Ok(m) => Ok(m),
            Err(e) => Err(unwrap_err_message_string(&e)),
        },
        Lit::Other => Err(unwrap_none_message_string()),
    }
}

/// How the response of a request is read.
#[derive(Clone, Copy, Debug, PartialEq, Eq, Structural)]
pub enum Parser {
    Html,
    Json,
}

impl Parser {
    pub open spec fn variant_name(self) -> Seq<char> {
        match self {
            Parser::Html => "Html"@,
            Parser::Json => "Json"@,
        }
    }

    /// The parser whose variant name is `s`, if any.
    pub open spec fn named(s: Seq<char>) -> Option<Parser> {
        if s == "Html"@ {
            Some(Parser::Html)
        } else if s == "Json"@ {
            Some(Parser::Json)
        } else {
            None
        }
    }

    /// Reads a parser from a string literal that names a variant; any other
    /// string gives `"Unknown Parser"`.
    pub fn from_lit(lit: &Lit) -> (r: Result<Parser, String>)
        requires
            lit is Str,
        ensures
            lit matches Lit::Str(s) && match Parser::named(s@) {
                Some(p) => r == Ok::<Parser, String>(p),
                None => r matches Err(e) && e@ == "Unknown Parser"@,
            },
    {
        match lit {
            Lit::Str(s) => {
                if text_is(s, "Html") {
                    Ok(Parser::Html)
                } else if text_is(s, "Json") {
                    Ok(Parser::Json)
                } else {
                    Err(String::from_str("Unknown Parser"))
                }
            },
            Lit::Other => Err(String::new()),
        }
    }

    /// The default parser: the last variant.
    pub fn new() -> (r: Parser)
        ensures
            r == Parser::Json,
    {
        Parser::Json
    }
}

/// A parser setting read from `lit`, or the message the derive panics with.
pub open spec fn parser_value(lit: Lit) -> Result<Parser, Seq<char>> {
    match lit {
        Lit::Str(s) => match Parser::named(s@) {
            Some(p) => Ok(p),
            None => Err(unwrap_err_message("Unknown Parser"@)),
        },
        Lit::Other => Err(unwrap_none_message()),
    }
}

pub fn parser_value_of(lit: &Lit) -> (r: Result<Parser, String>)
    ensures
        match parser_value(*lit) {
            Ok(p) => r == Ok::<Parser, String>(p),
            Err(msg) => r matches Err(e) && e@ == msg,
        },
{
    match lit {
        Lit::Str(_) => match Parser::from_lit(lit) {
            Ok(p) => Ok(p),
            Err(e) => Err(unwrap_err_message_string(&e)),
        },
        Lit::Other => Err(unwrap_none_message_string()),
    }
}

/// The settings of a client: `#[base_url = ".."]`.
#[derive(Debug)]
pub struct ClientMeta {
    pub base_url: BaseUrl,
}

impl View for ClientMeta {
    type V = Seq<char>;

    open spec fn view(&self) -> Seq<char> {
        self.base_url@
    }
}

impl ClientMeta {
    /// Reads the client settings from the struct's attributes.
    pub fn from_attrs(attrs: &Vec<Meta>) -> (r: Result<ClientMeta, String>)
        requires
            !(read_attrs::<ClientMeta>(attrs@) is Aborted),
        ensures
            r matches Ok(t) ==> read_attrs::<ClientMeta>(attrs@) == Reading::<Seq<char>>::Parsed(t@),
            r matches Err(e) ==> read_attrs::<ClientMeta>(attrs@) == Reading::<Seq<char>>::Rejected(e@),
    {
        crate::attrs::from_attrs::<ClientMeta>(attrs)
    }
}

impl FromAttrs for ClientMeta {
    open spec fn struct_name() -> Seq<char> {
        "ClientMeta"@
    }

    open spec fn initial() -> Seq<char> {
        Seq::empty()
    }

    open spec fn assigned(v: Seq<char>, key: Seq<char>, lit: Lit) -> Step<Seq<char>> {
        if key == "base_url"@ {
            match text_value(lit, "BaseUrl"@) {
                Ok(s) => Step::Assigned(s),
                Err(msg) => Step::BadValue(msg),
            }
        } else {
            Step::UnknownKey
        }
    }

    fn struct_name_string() -> (r: String) {
        String::from_str("ClientMeta")
    }

    fn initial_value() -> (r: ClientMeta) {
        ClientMeta { base_url: BaseUrl::new() }
    }

    fn assign(&mut self, key: &String, lit: &Lit) -> (r: AssignResult) {
        if text_is(key, "base_url") {
            match BaseUrl::from_lit(lit) {
                Ok(b) => {
                    self.base_url = b;
                    AssignResult::Assigned
                },
                Err(e) => AssignResult::BadValue(unwrap_err_message_string(&e)),
            }
        } else {
            AssignResult::UnknownKey
        }
    }
}

/// The settings of one request, as mathematical values.
pub struct RequestMetaView {
    pub method: Method,
    pub path: Seq<char>,
    pub parser: Parser,
}

/// The settings of a request: `#[method = ".."]`, `#[path = ".."]` and
/// `#[parser = ".."]`.
#[derive(Debug)]
pub struct RequestMeta {
    pub method: Method,
    pub path: UrlPath,
    pub parser: Parser,
}

impl View for RequestMeta {
    type V = RequestMetaView;

    open spec fn view(&self) -> RequestMetaView {
        RequestMetaView { method: self.method, path: self.path@, parser: self.parser }
    }
}

impl RequestMeta {
    /// Reads the settings of a request from a field's attributes.
    pub fn from_attrs(attrs: &Vec<Meta>) -> (r: Result<RequestMeta, String>)
        requires
            !(read_attrs::<RequestMeta>(attrs@) is Aborted),
        ensures
            r matches Ok(t) ==> read_attrs::<RequestMeta>(attrs@) == Reading::<RequestMetaView>::Parsed(t@),
            r matches Err(e) ==> read_attrs::<RequestMeta>(attrs@) == Reading::<RequestMetaView>::Rejected(e@),
    {
        crate::attrs::from_attrs::<RequestMeta>(attrs)
    }
}

impl FromAttrs for RequestMeta {
    open spec fn struct_name() -> Seq<char> {
        "RequestMeta"@
    }

    open spec fn initial() -> RequestMetaView {
        RequestMetaView { method: Method::DELETE, path: Seq::empty(), parser: Parser::Json }
    }

    open spec fn assigned(v: RequestMetaView, key: Seq<char>, lit: Lit) -> Step<RequestMetaView> {
        if key == "method"@ {
            match method_value(lit) {
                Ok(m) => Step::Assigned(RequestMetaView { method: m, path: v.path, parser: v.parser }),
                Err(msg) => Step::BadValue(msg),
            }
        } else if key == "path"@ {
            match text_value(lit, "UrlPath"@) {
                Ok(p) => Step::Assigned(RequestMetaView { method: v.method, path: p, parser: v.parser }),
                Err(msg) => Step::BadValue(msg),
            }
        } else if key == "parser"@ {
            match parser_value(lit) {
                Ok(p) => Step::Assigned(RequestMetaView { method: v.method, path: v.path, parser: p }),
                Err(msg) => Step::BadValue(msg),
            }
        } else {
            Step::UnknownKey
        }
    }

    fn struct_name_string() -> (r: String) {
        String::from_str("RequestMeta")
    }

    fn initial_value() -> (r: RequestMeta) {
        RequestMeta { method: Method::new(), path: UrlPath::new(), parser: Parser::new() }
    }

    fn assign(&mut self, key: &String, lit: &Lit) -> (r: AssignResult) {
        if text_is(key, "method") {
            match method_value_of(lit) {
                Ok(m) => {
                    self.method = m;
                    AssignResult::Assigned
                },
                Err(msg) => AssignResult::BadValue(msg),
            }
        } else if text_is(key, "path") {
            match UrlPath::from_lit(lit) {
                Ok(p) => {
                    self.path = p;
                    AssignResult::Assigned
                },
                Err(e) => AssignResult::BadValue(unwrap_err_message_string(&e)),
            }
        } else if text_is(key, "parser") {
            match parser_value_of(lit) {
                Ok(p) => {
                    self.parser = p;
                    AssignResult::Assigned
                },
                Err(msg) => AssignResult::BadValue(msg),
            }
        } else {
            AssignResult::UnknownKey
        }
    }
}

// ---------------------------------------------------------------------------
// Laws.

/// Law: a method's variant name reads as that method, and only its name
/// does (names are matched exactly, case included).
pub proof fn lemma_method_names(m: Method, s: Seq<char>)
    ensures
        Method::named(m.variant_name()) == Some(m),
        Method::named(s) == Some(m) ==> s == m.variant_name(),
{
    reveal_strlit("GET");
    reveal_strlit("POST");
    reveal_strlit("DELETE");
    assert("GET"@.len() == 3 && "POST"@.len() == 4 && "DELETE"@.len() == 6);
    assert("GET"@ != "POST"@ && "GET"@ != "DELETE"@ && "POST"@ != "DELETE"@);
}

/// The text `s` with its ASCII capitals in lower case.
pub open spec fn ascii_lowercase(s: Seq<char>) -> Seq<char> {
    s.map_values(|c: char| if 'A' <= c && c <= 'Z' { ((c as u32) + 32) as char } else { c })
}

/// Law: a request is sent with the client's function named by the method in
/// lower case (`GET` with `get`, `POST` with `post`, `DELETE` with `delete`),
/// so that different methods are sent differently.
pub proof fn lemma_client_fn_names(m1: Method, m2: Method)
    ensures
        m1.client_fn() == ascii_lowercase(m1.variant_name()),
        m1 != m2 ==> m1.client_fn() != m2.client_fn(),
{
    reveal_strlit("GET");
    reveal_strlit("POST");
    reveal_strlit("DELETE");
    reveal_strlit("get");
    reveal_strlit("post");
    reveal_strlit("delete");
    assert(ascii_lowercase("GET"@) =~= "get"@);
    assert(ascii_lowercase("POST"@) =~= "post"@);
    assert(ascii_lowercase("DELETE"@) =~= "delete"@);
    assert("get"@.len() == 3 && "post"@.len() == 4 && "delete"@.len() == 6);
}

/// Law: a parser's variant name reads as that parser, and only its name
/// does.
pub proof fn lemma_parser_names(p: Parser, s: Seq<char>)
    ensures
        Parser::named(p.variant_name()) == Some(p),
        Parser::named(s) == Some(p) ==> s == p.variant_name(),
{
    reveal_strlit("Html");
    reveal_strlit("Json");
    assert("Html"@[0] == 'H' && "Json"@[0] == 'J');
    assert("Html"@ != "Json"@);
}

/// Whether `m` is `#[base_url = "..."]`.
pub open spec fn is_base_url_attr(m: Meta) -> bool {
    m matches Meta::NameValue { name, lit } && name@ == "base_url"@ && lit is Str
}

/// The base URL the last attribute of `attrs` gives (empty if none).
pub open spec fn last_base_url(attrs: Seq<Meta>) -> Seq<char> {
    if attrs.len() == 0 {
        Seq::empty()
    } else {
        match attrs.last() {
            Meta::NameValue { name, lit: Lit::Str(s) } => s@,
            _ => Seq::empty(),
        }
    }
}

/// Law: the client settings read exactly when every attribute is
/// `base_url = "..."`, and then the base URL is that of the last one (the
/// empty string when there is none).
pub proof fn lemma_client_meta_reading(attrs: Seq<Meta>)
    ensures
        read_attrs::<ClientMeta>(attrs) is Parsed
            <==> forall|i: int| 0 <= i < attrs.len() ==> is_base_url_attr(#[trigger] attrs[i]),
        read_attrs::<ClientMeta>(attrs) matches Reading::Parsed(url) ==> url == last_base_url(attrs),
    decreases attrs.len(),
{
    if attrs.len() > 0 {
        let prefix = attrs.drop_last();
        lemma_client_meta_reading(prefix);
        if forall|i: int| 0 <= i < attrs.len() ==> is_base_url_attr(#[trigger] attrs[i]) {
            assert forall|i: int| 0 <= i < prefix.len() implies is_base_url_attr(#[trigger] prefix[i]) by {
                assert(prefix[i] == attrs[i]);
            }
            assert(is_base_url_attr(attrs[attrs.len() - 1]));
        } else {
            let k = choose|i: int| 0 <= i < attrs.len() && !is_base_url_attr(#[trigger] attrs[i]);
            if k < attrs.len() - 1 {
                assert(prefix[k] == attrs[k]);
                assert(!is_base_url_attr(prefix[k]));
            } else {
                assert(attrs.last() == attrs[k]);
            }
        }
    }
}

/// Whether `m` is `#[name = "value"]`.
pub open spec fn is_name_value(m: Meta, name: Seq<char>, value: Seq<char>) -> bool {
    m matches Meta::NameValue { name: n, lit: Lit::Str(v) } && n@ == name && v@ == value
}

/// Law: writing each request setting once, as `method = "M"`, `path = "P"`
/// and `parser = "R"`, reads back exactly those settings.
pub proof fn lemma_request_meta_read_back(a: Meta, b: Meta, c: Meta, m: Method, path: Seq<char>, p: Parser)
    requires
        is_name_value(a, "method"@, m.variant_name()),
        is_name_value(b, "path"@, path),
        is_name_value(c, "parser"@, p.variant_name()),
    ensures
        read_attrs::<RequestMeta>(seq![a, b, c])
            == Reading::Parsed(RequestMetaView { method: m, path: path, parser: p }),
{
    reveal_strlit("method");
    reveal_strlit("path");
    reveal_strlit("parser");
    assert("method"@.len() == 6 && "path"@.len() == 4 && "parser"@.len() == 6);
    assert("method"@[0] == 'm' && "parser"@[0] == 'p');
    lemma_method_names(m, m.variant_name());
    lemma_parser_names(p, p.variant_name());
    let s3 = seq![a, b, c];
    assert(s3.drop_last() =~= seq![a, b]);
    assert(seq![a, b].drop_last() =~= seq![a]);
    assert(seq![a].drop_last() =~= Seq::<Meta>::empty());
    let v0 = RequestMeta::initial();
    let v1 = RequestMetaView { method: m, path: v0.path, parser: v0.parser };
    let v2 = RequestMetaView { method: m, path: path, parser: v0.parser };
    assert(read_attrs::<RequestMeta>(Seq::<Meta>::empty()) == Reading::Parsed(v0));
    assert(seq![a].last() == a && seq![a, b].last() == b && s3.last() == c);
    assert(read_attr::<RequestMeta>(v0, a) == Reading::Parsed(v1));
    assert(read_attrs::<RequestMeta>(seq![a]) == Reading::Parsed(v1));
    assert(read_attrs::<RequestMeta>(seq![a, b]) == Reading::Parsed(v2));
}

/// Whether `m` names a request setting and gives it a value it can take.
pub open spec fn sets_request_setting(m: Meta) -> bool {
    m matches Meta::NameValue { name, lit } && {
        ||| name@ == "method"@ && method_value(lit) is Ok
        ||| name@ == "path"@ && lit is Str
        ||| name@ == "parser"@ && parser_value(lit) is Ok
    }
}

/// The name of a `name = value` attribute.
pub open spec fn meta_name(m: Meta) -> Seq<char> {
    match m {
        Meta::NameValue { name, lit } => name@,
        _ => Seq::empty(),
    }
}

/// Law: two attributes that set different request settings can be given in
/// either order.
pub proof fn lemma_request_settings_commute(attrs: Seq<Meta>, x: Meta, y: Meta)
    requires
        sets_request_setting(x),
        sets_request_setting(y),
        meta_name(x) != meta_name(y),
    ensures
        read_attrs::<RequestMeta>(attrs.push(x).push(y)) == read_attrs::<RequestMeta>(attrs.push(y).push(x)),
{
    reveal_strlit("method");
    reveal_strlit("path");
    reveal_strlit("parser");
    assert("method"@.len() == 6 && "path"@.len() == 4 && "parser"@.len() == 6);
    assert("method"@[0] == 'm' && "parser"@[0] == 'p');
    assert("method"@ != "path"@ && "method"@ != "parser"@ && "path"@ != "parser"@);
    let ax = attrs.push(x);
    let ay = attrs.push(y);
    assert(ax.push(y).drop_last() =~= ax);
    assert(ay.push(x).drop_last() =~= ay);
    assert(ax.drop_last() =~= attrs);
    assert(ay.drop_last() =~= attrs);
    assert(ax.last() == x && ay.last() == y && ax.push(y).last() == y && ay.push(x).last() == x);
    match read_attrs::<RequestMeta>(attrs) {
        Reading::Parsed(v) => {
            assert(read_attrs::<RequestMeta>(ax) == read_attr::<RequestMeta>(v, x));
            assert(read_attrs::<RequestMeta>(ay) == read_attr::<RequestMeta>(v, y));
        },
        _ => {},
    }
}

} // verus!
