# diorama

Derives that turn a struct into an HTTP client (`#[derive(Diorama)]`) or into
a path formatter (`#[derive(UrlParams)]`), and the derives that generate the
readers of their `#[name = "value"]` settings (`StringStructFromLit`,
`EnumFromLit`, `StructFromAttrs`).

The expansions are computed and verified in `src/`, over plain values: the
item a derive is applied to (`model`), the settings read from attributes
(`attrs`, `request`), and the code that comes out as a flat token stream
(`tokens`). Each derive states exactly which tokens it produces, which lines
it prints, and on which items it panics and with what message; the laws
proved alongside say, among others, that every expansion is well nested and
how the settings are read.

The token stream is the crate's own type (`tokens::TokenStream`, a flat
list of identifiers, literals, punctuation and group delimiters) rather than
`proc_macro2::TokenStream`. Code is usually generated with `quote!`, a macro
that the verified library cannot call, so the templates have to be the
crate's own in any case; and an outside type declared to the verifier is
opaque, so a contract over it could not say which tokens come out. Over the crate's own
type every derive's contract gives the exact tokens, and `app/` converts to
and from `proc_macro2` at the compiler's edge.

`app/` sits at the compiler's edge: it reads the item with `syn` into the
model, prints and panics as the library reports, and hands the expansion
back as `proc-macro2` tokens.

Modules of `src/`:

- `tokens`: the token stream, its views, and well-nestedness.
- `model`: the derive input, expansions, printed lines and panics.
- `attrs`: reading a struct of settings from attributes.
- `request`: the settings of `#[derive(Diorama)]` (base URL, method, path, parser).
- `client`: `#[derive(Diorama)]`.
- `url_params`: `#[derive(UrlParams)]`.
- `parse_utils`: the three settings derives.
- `diorama_core`: the variants of `Diorama` and `UrlParams` with generic request methods and a `diorama::UrlParams` impl.
- `traits`: `UrlParams`, `Deserializer`, `Serializer`.
