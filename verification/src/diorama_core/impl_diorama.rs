//! `#[derive(Diorama)]` in the generic flavour: each request method is
//! generic over the type of its URL parameters.
pub mod request;

use vstd::prelude::*;
use crate::attrs::{Reading, read_attrs};
use crate::client::{client_run, diorama_run, expand_client, lemma_client_run_well_nested,
    lemma_client_run_ignores_settings, lemma_client_run_extra_field, lemma_client_run_generics,
    lemma_expand_fields_agree, readings_agree, same_name_and_output, alike_but_settings,
    sets_one_of, skipped_field_line};
use crate::model::{DeriveInput, Data, Field, Meta, Expansion, Abort, Run, input_well_nested};
use crate::tokens::{balanced, group_balanced};
use crate::tokens::{TokenStream, TokenView};
use self::request::{ClientMeta, RequestMeta, url_params_generics, url_params_generics_tokens};

verus! {

/// What `#[derive(Diorama)]` does with `input`.
pub open spec fn impl_struct_run(input: DeriveInput) -> Run {
    client_run::<RequestMeta>(input, url_params_generics())
}

/// Law: the expansion of `#[derive(Diorama)]` is a well-nested token stream.
pub proof fn lemma_impl_struct_well_nested(input: DeriveInput)
    requires
        input_well_nested(input),
    ensures
        impl_struct_run(input) matches Run::Expanded(tokens, log) ==> balanced(tokens),
{
    broadcast use group_balanced;
    lemma_client_run_well_nested::<RequestMeta>(input, url_params_generics());
}

/// Expands `#[derive(Diorama)]` on `input`. The derive panics on the inputs
/// left out; `impl_struct_abort` tells them and what is printed before.
pub fn impl_struct(input: &DeriveInput) -> (r: Expansion)
    requires
        impl_struct_run(*input) is Expanded,
    ensures
        r.run() == impl_struct_run(*input),
{
    match expand_client::<RequestMeta>(input, &url_params_generics_tokens()) {
        Ok(e) => e,
        Err(a) => {
            assert(false);
            Expansion { tokens: TokenStream::new(), log: a.log }
        },
    }
}

/// Where `#[derive(Diorama)]` panics on `input`: what it prints first and the
/// panic message; `None` where it expands.
pub fn impl_struct_abort(input: &DeriveInput) -> (r: Option<Abort>)
    ensures
        r is None <==> impl_struct_run(*input) is Expanded,
        r matches Some(a) ==> a.run() == impl_struct_run(*input),
{
    match expand_client::<RequestMeta>(input, &url_params_generics_tokens()) {
        Ok(_) => None,
        Err(a) => Some(a),
    }
}

/// Law: the `parser` setting of the fields never reaches the output: two
/// items alike but for the `parser` settings of their fields (their values,
/// or whether they are given at all) run alike where both expand.
pub proof fn lemma_impl_struct_ignores_parser(i1: DeriveInput, i2: DeriveInput)
    requires
        i1.ident@ == i2.ident@,
        i1.attrs@ == i2.attrs@,
        i1.data matches Data::Struct(fs1) && i2.data matches Data::Struct(fs2)
            && alike_but_settings(fs1@, fs2@, set!["parser"@]),
        impl_struct_run(i1) is Expanded,
        impl_struct_run(i2) is Expanded,
    ensures
        impl_struct_run(i1) == impl_struct_run(i2),
{
    reveal_strlit("method");
    reveal_strlit("parser");
    assert("method"@[0] != "parser"@[0]);
    lemma_client_run_ignores_settings::<RequestMeta>(i1, i2, url_params_generics(), set!["parser"@]);
}

/// Law: one more field at the end that is not of a bare function type, and
/// whose settings read, leaves the tokens as they are (the field gets neither
/// a method nor an initializer) and prints the line `ERROR` once more.
pub proof fn lemma_impl_struct_extra_field(i1: DeriveInput, i2: DeriveInput, g: Field)
    requires
        i1.ident@ == i2.ident@,
        i1.attrs@ == i2.attrs@,
        i1.data matches Data::Struct(fs1) && i2.data matches Data::Struct(fs2) && fs2@ == fs1@.push(g),
        g.ident is Some,
        g.ty.bare_fn_output is None,
        read_attrs::<RequestMeta>(g.attrs@) is Parsed,
    ensures
        match impl_struct_run(i1) {
            Run::Expanded(tokens, log) => impl_struct_run(i2) == Run::Expanded(tokens, log.push(skipped_field_line())),
            panicked => impl_struct_run(i2) == panicked,
        },
{
    lemma_client_run_extra_field::<RequestMeta>(i1, i2, url_params_generics(), g);
}

/// Whether no attribute of `attrs` is a `path = ..` setting.
pub open spec fn no_path_setting(attrs: Seq<Meta>) -> bool {
    forall|i: int| 0 <= i < attrs.len() ==> !sets_one_of(#[trigger] attrs[i], set!["path"@])
}

/// Whether no field of `input` has a `path = ..` setting.
pub open spec fn no_field_path(input: DeriveInput) -> bool {
    input.data matches Data::Struct(fs) ==> forall|i: int| 0 <= i < fs@.len() ==> no_path_setting(#[trigger] fs@[i].attrs@)
}

/// Without a `path` setting, a request's settings read in the plain flavour
/// as in the generic one: the same method and parser, or the same error.
proof fn lemma_flavour_readings(attrs: Seq<Meta>)
    requires
        no_path_setting(attrs),
    ensures
        match (read_attrs::<crate::request::RequestMeta>(attrs), read_attrs::<RequestMeta>(attrs)) {
            (Reading::Parsed(v1), Reading::Parsed(v2)) => v1.method == v2.method && v1.parser == v2.parser,
            (Reading::Rejected(e1), Reading::Rejected(e2)) => e1 == e2,
            (Reading::Aborted(m1), Reading::Aborted(m2)) => m1 == m2,
            _ => false,
        },
    decreases attrs.len(),
{
    if attrs.len() > 0 {
        let p = attrs.drop_last();
        let k = attrs.len() - 1;
        assert forall|i: int| 0 <= i < p.len() implies !sets_one_of(#[trigger] p[i], set!["path"@]) by {
            assert(p[i] == attrs[i]);
        }
        lemma_flavour_readings(p);
        assert(attrs.last() == attrs[k]);
        assert(!sets_one_of(attrs[k], set!["path"@]));
    }
}

/// Law: where no field has a `path` setting, the plain and the generic
/// flavour of `#[derive(Diorama)]` run alike when given the same generics.
pub proof fn lemma_flavours_agree(input: DeriveInput, generics: Seq<TokenView>)
    requires
        no_field_path(input),
    ensures
        client_run::<crate::request::RequestMeta>(input, generics) == client_run::<RequestMeta>(input, generics),
{
    match (input.data, read_attrs::<ClientMeta>(input.attrs@)) {
        (Data::Struct(fs), Reading::Parsed(base_url)) => {
            assert forall|i: int| 0 <= i < fs@.len() implies {
                &&& same_name_and_output(#[trigger] fs@[i], fs@[i])
                &&& readings_agree::<crate::request::RequestMeta, RequestMeta>(fs@[i].attrs@, fs@[i].attrs@)
            } by {
                lemma_flavour_readings(fs@[i].attrs@);
            }
            lemma_expand_fields_agree::<crate::request::RequestMeta, RequestMeta>(base_url, generics, fs@, fs@);
        },
        _ => {},
    }
}

/// Law: where no field has a `path` setting, `#[derive(Diorama)]` in the
/// generic flavour expands exactly where the plain flavour does, prints the
/// same lines and panics alike; its tokens are those of the plain flavour
/// with `<T: diorama::UrlParams>` after each request method's name.
pub proof fn lemma_impl_struct_matches_diorama(input: DeriveInput)
    requires
        no_field_path(input),
    ensures
        impl_struct_run(input) is Expanded <==> diorama_run(input) is Expanded,
        match (impl_struct_run(input), diorama_run(input)) {
            (Run::Expanded(t1, l1), Run::Expanded(t2, l2)) => l1 == l2,
            (Run::Panicked(l1, m1), Run::Panicked(l2, m2)) => l1 == l2 && m1 == m2,
            _ => false,
        },
        impl_struct_run(input) == client_run::<crate::request::RequestMeta>(input, url_params_generics()),
{
    lemma_flavours_agree(input, url_params_generics());
    lemma_flavours_agree(input, Seq::empty());
    lemma_client_run_generics::<RequestMeta>(input, url_params_generics(), Seq::empty());
}

} // verus!
