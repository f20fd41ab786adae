//! `#[derive(UrlParams)]`: a struct gets `make_path`, which formats the path
//! given by `#[path = ".."]` with the struct's fields as named arguments.
use vstd::prelude::*;
use crate::attrs::{FromAttrs, Step, AssignResult, Reading, read_attrs, read_attributes, AttrsOutcome};
use crate::model::{DeriveInput, Data, Field, Lit, Meta, field_ident, Expansion, Abort, LogLine, LogView, Run,
    log_view, empty_log, push_log, text_is, unwrap_none_message, unwrap_err_message,
    unwrap_none_message_string, unwrap_err_message_string};
use crate::request::{UrlPath, text_value};
use crate::tokens::{Delimiter, TokenStream, TokenView, ident, name, punct, lit, colon2, rarrow,
    parens, braces, balanced, group_balanced};

verus! {

/// The settings of `#[derive(UrlParams)]`: `#[path = ".."]`.
#[derive(Debug)]
pub struct UrlParamsArgs {
    pub path: UrlPath,
}

impl View for UrlParamsArgs {
    type V = Seq<char>;

    open spec fn view(&self) -> Seq<char> {
        self.path@
    }
}

impl FromAttrs for UrlParamsArgs {
    open spec fn struct_name() -> Seq<char> {
        "UrlParamsArgs"@
    }

    open spec fn initial() -> Seq<char> {
        Seq::empty()
    }

    open spec fn assigned(v: Seq<char>, key: Seq<char>, lit: Lit) -> Step<Seq<char>> {
        if key == "path"@ {
            match text_value(lit, "UrlPath"@) {
                Ok(s) => Step::Assigned(s),
                Err(msg) => Step::BadValue(msg),
            }
        } else {
            Step::UnknownKey
        }
    }

    fn struct_name_string() -> (r: String) {
        String::from_str("UrlParamsArgs")
    }

    fn initial_value() -> (r: UrlParamsArgs) {
        UrlParamsArgs { path: UrlPath::new() }
    }

    fn assign(&mut self, key: &String, lit: &Lit) -> (r: AssignResult) {
        if text_is(key, "path") {
            match UrlPath::from_lit(lit) {
                Ok(p) => {
                    self.path = p;
                    AssignResult::Assigned
                },
                Err(e) => AssignResult::BadValue(unwrap_err_message_string(&e)),
            }
        } else {
            AssignResult::UnknownKey
        }
    }
}

impl UrlParamsArgs {
    /// Reads the settings from the struct's attributes.
    pub fn from_attrs(attrs: &Vec<Meta>) -> (r: Result<UrlParamsArgs, String>)
        requires
            !(read_attrs::<UrlParamsArgs>(attrs@) is Aborted),
        ensures
            r matches Ok(t) ==> read_attrs::<UrlParamsArgs>(attrs@) == Reading::<Seq<char>>::Parsed(t@),
            r matches Err(e) ==> read_attrs::<UrlParamsArgs>(attrs@) == Reading::<Seq<char>>::Rejected(e@),
    {
        crate::attrs::from_attrs::<UrlParamsArgs>(attrs)
    }
}

/// The named argument `, id = self.id` that passes the field `id`.
pub open spec fn param(id: Seq<char>) -> Seq<TokenView> {
    seq![punct(','), name(id), punct('='), ident("self"), punct('.'), name(id)]
}

/// The state after some of the fields.
pub enum ParamsRun {
    Going { params: Seq<TokenView>, log: Seq<LogView> },
    Stopped { log: Seq<LogView>, message: Seq<char> },
}

/// Collecting the named arguments of `fields`, in order; where `print`, the
/// arguments so far are printed after each field.
pub open spec fn collect_params(fields: Seq<Field>, print: bool) -> ParamsRun
    decreases fields.len(),
{
    if fields.len() == 0 {
        ParamsRun::Going { params: Seq::empty(), log: Seq::empty() }
    } else {
        match collect_params(fields.drop_last(), print) {
            ParamsRun::Going { params, log } => match fields.last().ident {
                Some(id) => {
                    let p = params + param(id@);
                    ParamsRun::Going { params: p, log: if print { log.push(LogView::Tokens(p)) } else { log } }
                },
                None => ParamsRun::Stopped { log, message: unwrap_none_message() },
            },
            stopped => stopped,
        }
    }
}

/// `format!(PATH PARAMS)`
pub open spec fn format_call(path: Seq<char>, params: Seq<TokenView>) -> Seq<TokenView> {
    seq![ident("format"), punct('!')] + parens(seq![lit(path)] + params)
}

/// `fn make_path(&self) -> String { BODY }`
pub open spec fn make_path_fn(body: Seq<TokenView>) -> Seq<TokenView> {
    seq![ident("fn"), ident("make_path")] + parens(seq![punct('&'), ident("self")]) + rarrow()
        + seq![ident("String")] + braces(body)
}

/// Where `trait_impl`: `impl diorama::UrlParams for N { fn make_path .. format!(..) }`;
/// else `impl N { fn make_path .. format!(..).unwrap() }`.
pub open spec fn make_path_impl(n: Seq<char>, path: Seq<char>, params: Seq<TokenView>, trait_impl: bool) -> Seq<TokenView> {
    if trait_impl {
        seq![ident("impl"), ident("diorama")] + colon2() + seq![ident("UrlParams"), ident("for"), name(n)]
            + braces(make_path_fn(format_call(path, params)))
    } else {
        seq![ident("impl"), name(n)] + braces(make_path_fn(format_call(path, params)
            + seq![punct('.'), ident("unwrap")] + parens(Seq::empty())))
    }
}

pub open spec fn url_params_not_struct_message() -> Seq<char> {
    "Only Struct is supported for derive(UrlParams)"@
}

/// What the derive does with `input`. The inherent flavour prints the
/// arguments after each field and defines an inherent `make_path`; the
/// other implements `diorama::UrlParams`. Both print the expansion.
pub open spec fn url_params_flavour_run(input: DeriveInput, trait_impl: bool) -> Run {
    match input.data {
        Data::Struct(fields) => match collect_params(fields@, !trait_impl) {
            ParamsRun::Going { params, log } => match read_attrs::<UrlParamsArgs>(input.attrs@) {
                Reading::Parsed(path) => {
                    let out = make_path_impl(input.ident@, path, params, trait_impl);
                    Run::Expanded(out, log.push(LogView::Tokens(out)))
                },
                Reading::Rejected(e) => Run::Panicked(log, unwrap_err_message(e)),
                Reading::Aborted(m) => Run::Panicked(log, m),
            },
            ParamsRun::Stopped { log, message } => Run::Panicked(log, message),
        },
        _ => Run::Panicked(Seq::empty(), url_params_not_struct_message()),
    }
}

pub proof fn lemma_collect_params_stops(fields: Seq<Field>, print: bool, i: int)
    requires
        0 <= i < fields.len(),
        collect_params(fields.take(i + 1), print) is Stopped,
    ensures
        collect_params(fields, print) == collect_params(fields.take(i + 1), print),
    decreases fields.len(),
{
    if fields.len() > i + 1 {
        assert(fields.drop_last().take(i + 1) =~= fields.take(i + 1));
        lemma_collect_params_stops(fields.drop_last(), print, i);
    } else {
        assert(fields.take(i + 1) =~= fields);
    }
}

proof fn lemma_collect_params_well_nested(fields: Seq<Field>, print: bool)
    ensures
        collect_params(fields, print) matches ParamsRun::Going { params, log } ==> balanced(params),
    decreases fields.len(),
{
    broadcast use group_balanced;
    if fields.len() > 0 {
        lemma_collect_params_well_nested(fields.drop_last(), print);
    }
}

/// Law: where `#[derive(UrlParams)]` expands, its expansion is a
/// well-nested token stream (in either flavour).
pub proof fn lemma_url_params_flavour_well_nested(input: DeriveInput, trait_impl: bool)
    ensures
        url_params_flavour_run(input, trait_impl) matches Run::Expanded(tokens, log) ==> balanced(tokens),
{
    broadcast use group_balanced;
    match input.data {
        Data::Struct(fields) => lemma_collect_params_well_nested(fields@, !trait_impl),
        _ => {},
    }
}

proof fn lemma_collect_params_log(fields: Seq<Field>, print: bool)
    ensures
        collect_params(fields, print) matches ParamsRun::Going { params, log }
            ==> log.len() == if print { fields.len() } else { 0 },
    decreases fields.len(),
{
    if fields.len() > 0 {
        lemma_collect_params_log(fields.drop_last(), print);
    }
}

/// Law: where `#[derive(UrlParams)]` expands, the last line it prints is the
/// expansion itself; before it, the inherent flavour prints one line per
/// field, the other flavour none.
pub proof fn lemma_url_params_flavour_log(input: DeriveInput, trait_impl: bool)
    ensures
        url_params_flavour_run(input, trait_impl) matches Run::Expanded(tokens, log) ==> {
            &&& input.data matches Data::Struct(fs) && log.len() == 1 + if trait_impl { 0 } else { fs@.len() }
            &&& log.last() == LogView::Tokens(tokens)
        },
{
    match input.data {
        Data::Struct(fields) => lemma_collect_params_log(fields@, !trait_impl),
        _ => {},
    }
}

/// The name of a field (empty for a field of a tuple struct).
pub open spec fn param_name(f: Field) -> Seq<char> {
    match f.ident {
        Some(id) => id@,
        None => Seq::empty(),
    }
}

/// Law: where every field has a name, the named arguments are one
/// `, f = self.f` per field, in the fields' order, and nothing else.
pub proof fn lemma_collect_params_every_field(fields: Seq<Field>, print: bool)
    requires
        forall|i: int| 0 <= i < fields.len() ==> (#[trigger] fields[i]).ident is Some,
    ensures
        collect_params(fields, print) is Going,
        collect_params(fields, print)->Going_params.len() == 6 * fields.len(),
        forall|i: int| 0 <= i < fields.len() ==>
            collect_params(fields, print)->Going_params.subrange(6 * i, 6 * i + 6) == seq![
                punct(','),
                name(param_name(#[trigger] fields[i])),
                punct('='),
                ident("self"),
                punct('.'),
                name(param_name(fields[i])),
            ],
    decreases fields.len(),
{
    if fields.len() > 0 {
        let p = fields.drop_last();
        let k = fields.len() - 1;
        assert forall|i: int| 0 <= i < p.len() implies (#[trigger] p[i]).ident is Some by {
            assert(p[i] == fields[i]);
        }
        lemma_collect_params_every_field(p, print);
        assert(fields.last() == fields[k]);
        assert(fields[k].ident is Some);
        let ps = collect_params(p, print)->Going_params;
        let id = fields[k].ident->Some_0;
        let all = ps + param(id@);
        assert(collect_params(fields, print)->Going_params == all);
        assert forall|i: int| 0 <= i < fields.len() implies
            all.subrange(6 * i, 6 * i + 6) == seq![
                punct(','),
                name(param_name(#[trigger] fields[i])),
                punct('='),
                ident("self"),
                punct('.'),
                name(param_name(fields[i])),
            ] by {
            if i < k {
                assert(p[i] == fields[i]);
                assert(all.subrange(6 * i, 6 * i + 6) =~= ps.subrange(6 * i, 6 * i + 6));
            } else {
                assert(all.subrange(6 * i, 6 * i + 6) =~= param(id@));
            }
        }
    }
}

/// Law: where `#[derive(UrlParams)]` expands, every field has a name and
/// `make_path` formats the path with one named argument `, f = self.f` per
/// field, in the fields' order (in either flavour).
pub proof fn lemma_url_params_passes_every_field(input: DeriveInput, trait_impl: bool)
    ensures
        url_params_flavour_run(input, trait_impl) matches Run::Expanded(tokens, log) ==> {
            &&& input.data matches Data::Struct(fs)
            &&& forall|i: int| 0 <= i < fs@.len() ==> (#[trigger] fs@[i]).ident is Some
            &&& exists|path: Seq<char>, params: Seq<TokenView>| {
                &&& #[trigger] make_path_impl(input.ident@, path, params, trait_impl) == tokens
                &&& params.len() == 6 * fs@.len()
                &&& forall|i: int| 0 <= i < fs@.len() ==> params.subrange(6 * i, 6 * i + 6) == seq![
                    punct(','),
                    name(param_name(#[trigger] fs@[i])),
                    punct('='),
                    ident("self"),
                    punct('.'),
                    name(param_name(fs@[i])),
                ]
            }
        },
{
    match input.data {
        Data::Struct(fs) => {
            if url_params_flavour_run(input, trait_impl) is Expanded {
                assert forall|i: int| 0 <= i < fs@.len() implies (#[trigger] fs@[i]).ident is Some by {
                    if fs@[i].ident is None {
                        lemma_collect_params_none(fs@, !trait_impl, i);
                    }
                }
                lemma_collect_params_every_field(fs@, !trait_impl);
                let params = collect_params(fs@, !trait_impl)->Going_params;
                let path = read_attrs::<UrlParamsArgs>(input.attrs@)->Parsed_0;
                assert(make_path_impl(input.ident@, path, params, trait_impl)
                    == url_params_flavour_run(input, trait_impl)->Expanded_0);
            }
        },
        _ => {},
    }
}

/// A field without a name stops the collection.
proof fn lemma_collect_params_none(fields: Seq<Field>, print: bool, i: int)
    requires
        0 <= i < fields.len(),
        fields[i].ident is None,
    ensures
        collect_params(fields, print) is Stopped,
    decreases fields.len(),
{
    if i < fields.len() - 1 {
        assert(fields.drop_last()[i] == fields[i]);
        lemma_collect_params_none(fields.drop_last(), print, i);
    } else {
        assert(fields.last() == fields[i]);
    }
}

/// Two lists of fields with the same names, in order (their types and
/// attributes aside).
pub open spec fn same_field_names(fs1: Seq<Field>, fs2: Seq<Field>) -> bool {
    &&& fs1.len() == fs2.len()
    &&& forall|i: int| 0 <= i < fs1.len() ==> field_ident(#[trigger] fs1[i]) == field_ident(fs2[i])
}

proof fn lemma_collect_params_names(fs1: Seq<Field>, fs2: Seq<Field>, print: bool)
    requires
        same_field_names(fs1, fs2),
    ensures
        collect_params(fs1, print) == collect_params(fs2, print),
    decreases fs1.len(),
{
    if fs1.len() > 0 {
        let k = fs1.len() - 1;
        assert forall|i: int| 0 <= i < fs1.drop_last().len() implies
            field_ident(#[trigger] fs1.drop_last()[i]) == field_ident(fs2.drop_last()[i]) by {
            assert(fs1.drop_last()[i] == fs1[i]);
            assert(fs2.drop_last()[i] == fs2[i]);
        }
        lemma_collect_params_names(fs1.drop_last(), fs2.drop_last(), print);
        assert(fs1.last() == fs1[k] && fs2.last() == fs2[k]);
        assert(field_ident(fs1[k]) == field_ident(fs2[k]));
    }
}

/// Law: of the fields, `#[derive(UrlParams)]` reads only their names: two
/// items with the same name and attributes whose fields have the same names,
/// in order, run alike (in either flavour), whatever the fields' types and
/// attributes.
pub proof fn lemma_url_params_reads_field_names(i1: DeriveInput, i2: DeriveInput, trait_impl: bool)
    requires
        i1.ident@ == i2.ident@,
        i1.attrs@ == i2.attrs@,
        match (i1.data, i2.data) {
            (Data::Struct(fs1), Data::Struct(fs2)) => same_field_names(fs1@, fs2@),
            (Data::Struct(fs1), _) => false,
            (_, Data::Struct(fs2)) => false,
            _ => true,
        },
    ensures
        url_params_flavour_run(i1, trait_impl) == url_params_flavour_run(i2, trait_impl),
{
    match (i1.data, i2.data) {
        (Data::Struct(fs1), Data::Struct(fs2)) => lemma_collect_params_names(fs1@, fs2@, !trait_impl),
        _ => {},
    }
}

fn push_make_path_impl(ts: &mut TokenStream, n: &String, path: &String, params: &TokenStream, trait_impl: bool)
    ensures
        final(ts)@ == old(ts)@ + make_path_impl(n@, path@, params@, trait_impl),
{
    let ghost before = ts@;
    let mut args = TokenStream::new();
    args.lit_string(path);
    args.append(params);
    let mut body = TokenStream::new();
    body.ident("format");
    body.punct('!');
    body.group(Delimiter::Parenthesis, &args);
    assert(body@ =~= format_call(path@, params@));
    if !trait_impl {
        body.punct('.');
        body.ident("unwrap");
        body.group(Delimiter::Parenthesis, &TokenStream::new());
    }
    let ghost body_v = body@;
    let mut f = TokenStream::new();
    f.ident("fn");
    f.ident("make_path");
    let mut recv = TokenStream::new();
    recv.punct('&');
    recv.ident("self");
    f.group(Delimiter::Parenthesis, &recv);
    f.rarrow();
    f.ident("String");
    f.group(Delimiter::Brace, &body);
    assert(f@ =~= make_path_fn(body_v));
    ts.ident("impl");
    if trait_impl {
        ts.ident("diorama");
        ts.colon2();
        ts.ident("UrlParams");
        ts.ident("for");
    }
    ts.name(n);
    ts.group(Delimiter::Brace, &f);
    assert(ts@ =~= before + make_path_impl(n@, path@, params@, trait_impl));
}

/// Runs the derive on `input`: the expansion, or why it stops.
pub fn expand_url_params(input: &DeriveInput, trait_impl: bool) -> (r: Result<Expansion, Abort>)
    ensures
        match r {
            Ok(e) => e.run() == url_params_flavour_run(*input, trait_impl),
            Err(a) => a.run() == url_params_flavour_run(*input, trait_impl),
        },
{
    let fields = match &input.data {
        Data::Struct(fields) => fields,
        _ => {
            return Err(Abort {
                log: empty_log(),
                message: String::from_str("Only Struct is supported for derive(UrlParams)"),
            });
        },
    };
    let mut params = TokenStream::new();
    let mut log = empty_log();
    let n = fields.len();
    assert(fields@.take(0) =~= Seq::<Field>::empty());
    for i in 0..n
        invariant
            n == fields@.len(),
            input.data matches Data::Struct(fs) && fs@ == fields@,
            collect_params(fields@.take(i as int), !trait_impl) == (ParamsRun::Going {
                params: params@,
                log: log_view(log@),
            }),
    {
        proof {
            assert(fields@.take(i + 1).drop_last() =~= fields@.take(i as int));
            assert(fields@.take(i + 1).last() == fields@[i as int]);
        }
        match &fields[i].ident {
            Some(id) => {
                let ghost old_params = params@;
                params.punct(',');
                params.name(id);
                params.punct('=');
                params.ident("self");
                params.punct('.');
                params.name(id);
                assert(params@ =~= old_params + param(id@));
                if !trait_impl {
                    let mut copy = TokenStream::new();
                    copy.append(&params);
                    push_log(&mut log, LogLine::Tokens(copy));
                }
            },
            None => {
                proof { lemma_collect_params_stops(fields@, !trait_impl, i as int); }
                return Err(Abort { log, message: unwrap_none_message_string() });
            },
        }
    }
    assert(fields@.take(n as int) =~= fields@);
    match read_attributes::<UrlParamsArgs>(&input.attrs) {
        AttrsOutcome::Parsed(args) => {
            let mut ts = TokenStream::new();
            push_make_path_impl(&mut ts, &input.ident, &args.path.0, &params, trait_impl);
            assert(ts@ =~= make_path_impl(input.ident@, args@, params@, trait_impl));
            let mut copy = TokenStream::new();
            copy.append(&ts);
            push_log(&mut log, LogLine::Tokens(copy));
            Ok(Expansion { tokens: ts, log })
        },
        AttrsOutcome::Rejected(e) => Err(Abort { log, message: unwrap_err_message_string(&e) }),
        AttrsOutcome::Aborted(m) => Err(Abort { log, message: m }),
    }
}

/// What `#[derive(UrlParams)]`, in the inherent flavour, does
/// with `input`.
pub open spec fn url_params_run(input: DeriveInput) -> Run {
    url_params_flavour_run(input, false)
}

/// Law: the expansion of `#[derive(UrlParams)]` is a well-nested token
/// stream.
pub proof fn lemma_url_params_well_nested(input: DeriveInput)
    ensures
        url_params_run(input) matches Run::Expanded(tokens, log) ==> balanced(tokens),
{
    lemma_url_params_flavour_well_nested(input, false);
}

/// Expands `#[derive(UrlParams)]` on `input`: an inherent `make_path` whose
/// `format!` call is unwrapped. The derive panics on the inputs left out;
/// `url_params_abort` tells them.
pub fn url_params(input: &DeriveInput) -> (r: Expansion)
    requires
        url_params_run(*input) is Expanded,
    ensures
        r.run() == url_params_run(*input),
{
    match expand_url_params(input, false) {
        Ok(e) => e,
        Err(a) => {
            assert(false);
            Expansion { tokens: TokenStream::new(), log: a.log }
        },
    }
}

/// Where `#[derive(UrlParams)]` panics on `input`: what it prints first and
/// the panic message; `None` where it expands.
pub fn url_params_abort(input: &DeriveInput) -> (r: Option<Abort>)
    ensures
        r is None <==> url_params_run(*input) is Expanded,
        r matches Some(a) ==> a.run() == url_params_run(*input),
{
    match expand_url_params(input, false) {
        Ok(_) => None,
        Err(a) => Some(a),
    }
}

} // verus!
