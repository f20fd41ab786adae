//! `#[derive(UrlParams)]` in the trait flavour: `make_path`
//! implements `diorama::UrlParams` and returns the formatted path.
use vstd::prelude::*;
use crate::model::{DeriveInput, Expansion, Abort, Run};
use crate::tokens::TokenStream;
use crate::url_params::{url_params_flavour_run, expand_url_params, lemma_url_params_flavour_well_nested,
    lemma_url_params_reads_field_names, same_field_names};
use crate::model::Data;
use crate::tokens::balanced;

verus! {

/// What `#[derive(UrlParams)]` does with `input`.
pub open spec fn impl_make_path_run(input: DeriveInput) -> Run {
    url_params_flavour_run(input, true)
}

/// Law: the expansion of `#[derive(UrlParams)]` is a well-nested token
/// stream.
pub proof fn lemma_impl_make_path_well_nested(input: DeriveInput)
    ensures
        impl_make_path_run(input) matches Run::Expanded(tokens, log) ==> balanced(tokens),
{
    lemma_url_params_flavour_well_nested(input, true);
}

/// Law: `make_path` reads of the fields only their names: two items with
/// the same name and attributes whose fields have the same names, in order,
/// expand alike, whatever the fields' types and attributes.
pub proof fn lemma_impl_make_path_reads_field_names(i1: DeriveInput, i2: DeriveInput)
    requires
        i1.ident@ == i2.ident@,
        i1.attrs@ == i2.attrs@,
        match (i1.data, i2.data) {
            (Data::Struct(fs1), Data::Struct(fs2)) => same_field_names(fs1@, fs2@),
            (Data::Struct(fs1), _) => false,
            (_, Data::Struct(fs2)) => false,
            _ => true,
        },
    ensures
        impl_make_path_run(i1) == impl_make_path_run(i2),
{
    lemma_url_params_reads_field_names(i1, i2, true);
}

/// Expands `#[derive(UrlParams)]` on `input`. The derive panics on the
/// inputs left out; `impl_make_path_abort` tells them.
pub fn impl_make_path(input: &DeriveInput) -> (r: Expansion)
    requires
        impl_make_path_run(*input) is Expanded,
    ensures
        r.run() == impl_make_path_run(*input),
{
    match expand_url_params(input, true) {
        Ok(e) => e,
        Err(a) => {
            assert(false);
            Expansion { tokens: TokenStream::new(), log: a.log }
        },
    }
}

/// Where `#[derive(UrlParams)]` panics on `input`: what it prints first and
/// the panic message; `None` where it expands.
pub fn impl_make_path_abort(input: &DeriveInput) -> (r: Option<Abort>)
    ensures
        r is None <==> impl_make_path_run(*input) is Expanded,
        r matches Some(a) ==> a.run() == impl_make_path_run(*input),
{
    match expand_url_params(input, true) {
        Ok(_) => None,
        Err(a) => Some(a),
    }
}

} // verus!
