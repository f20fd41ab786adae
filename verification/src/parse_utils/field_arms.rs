//! Every field of a settings struct reaches the generated `from_attrs`.
use vstd::prelude::*;
use crate::model::Field;
use crate::tokens::{Delimiter, TokenView, ident, name, punct, lit, colon2, fat_arrow, parens, braces,
    occurs_in, lemma_occurs_around, lemma_occurs_self, lemma_occurs_trans};
use super::{field_arm, field_decl, field_item, field_name, field_parts, name_value_arm, attr_loop_body,
    struct_attrs_impl, err_format, result_self, FieldParts};

verus! {

proof fn lemma_field_parts_occur(fields: Seq<Field>)
    ensures
        forall|i: int| 0 <= i < fields.len() ==> {
            &&& occurs_in(field_arm(field_name(#[trigger] fields[i]), fields[i].ty.tokens@), field_parts(fields).arms)
            &&& occurs_in(field_decl(field_name(fields[i]), fields[i].ty.tokens@), field_parts(fields).decls)
            &&& occurs_in(field_item(field_name(fields[i])), field_parts(fields).items)
        },
    decreases fields.len(),
{
    if fields.len() > 0 {
        let p = fields.drop_last();
        let k = fields.len() - 1;
        let f = fields[k];
        lemma_field_parts_occur(p);
        let pp = field_parts(p);
        let arm = field_arm(field_name(f), f.ty.tokens@);
        let decl = field_decl(field_name(f), f.ty.tokens@);
        let item = field_item(field_name(f));
        assert(fields.last() == f);
        assert forall|i: int| 0 <= i < fields.len() implies {
            &&& occurs_in(field_arm(field_name(#[trigger] fields[i]), fields[i].ty.tokens@), field_parts(fields).arms)
            &&& occurs_in(field_decl(field_name(fields[i]), fields[i].ty.tokens@), field_parts(fields).decls)
            &&& occurs_in(field_item(field_name(fields[i])), field_parts(fields).items)
        } by {
            if i < k {
                assert(p[i] == fields[i]);
                lemma_occurs_around(field_arm(field_name(fields[i]), fields[i].ty.tokens@), Seq::empty(), pp.arms, arm);
                lemma_occurs_around(field_decl(field_name(fields[i]), fields[i].ty.tokens@), Seq::empty(), pp.decls, decl);
                lemma_occurs_around(field_item(field_name(fields[i])), Seq::empty(), pp.items, item);
                assert(Seq::<TokenView>::empty() + pp.arms + arm =~= pp.arms + arm);
                assert(Seq::<TokenView>::empty() + pp.decls + decl =~= pp.decls + decl);
                assert(Seq::<TokenView>::empty() + pp.items + item =~= pp.items + item);
            } else {
                lemma_occurs_self(arm);
                lemma_occurs_self(decl);
                lemma_occurs_self(item);
                lemma_occurs_around(arm, pp.arms, arm, Seq::empty());
                lemma_occurs_around(decl, pp.decls, decl, Seq::empty());
                lemma_occurs_around(item, pp.items, item, Seq::empty());
                assert(pp.arms + arm + Seq::<TokenView>::empty() =~= pp.arms + arm);
                assert(pp.decls + decl + Seq::<TokenView>::empty() =~= pp.decls + decl);
                assert(pp.items + item + Seq::<TokenView>::empty() =~= pp.items + item);
            }
        }
    }
}

proof fn lemma_arms_in_match(n: Seq<char>, arms: Seq<TokenView>)
    ensures
        occurs_in(arms, name_value_arm(n, arms)),
{
    let open_b = seq![TokenView::Open(Delimiter::Brace)];
    let close_b = seq![TokenView::Close(Delimiter::Brace)];
    let p1 = seq![ident("syn")] + colon2() + seq![ident("Meta")] + colon2() + seq![ident("NameValue")]
        + parens(seq![ident("meta_name_value")]) + fat_arrow() + open_b
        + seq![ident("match"), ident("meta_name_value"), punct('.'), ident("ident"), punct('.'), ident("to_string")]
        + parens(Seq::empty()) + seq![punct('.'), ident("as_ref")] + parens(Seq::empty()) + open_b;
    let q1 = seq![ident("_")] + fat_arrow()
        + braces(seq![ident("return")] + err_format("Unknown Meta Message in {}"@, n)) + close_b + close_b;
    assert(name_value_arm(n, arms) =~= p1 + arms + q1);
    lemma_occurs_self(arms);
    lemma_occurs_around(arms, p1, arms, q1);
}

proof fn lemma_match_in_loop(n: Seq<char>, arms: Seq<TokenView>)
    ensures
        occurs_in(name_value_arm(n, arms), attr_loop_body(n, arms)),
{
    let open_b = seq![TokenView::Open(Delimiter::Brace)];
    let close_b = seq![TokenView::Close(Delimiter::Brace)];
    let nv = name_value_arm(n, arms);
    let p2 = seq![ident("let"), ident("meta"), punct('='), ident("attr"), punct('.'), ident("interpret_meta")]
        + parens(Seq::empty()) + seq![punct('.'), ident("unwrap")] + parens(Seq::empty())
        + seq![punct(';'), ident("match"), ident("meta")] + open_b;
    let q2 = seq![ident("_")] + fat_arrow() + braces(seq![ident("return"), ident("Err")]
        + parens(seq![lit("Only NameValue Attribute is supported"@), punct('.'), ident("to_string")]
            + parens(Seq::empty()))) + close_b;
    assert(attr_loop_body(n, arms) =~= p2 + nv + q2);
    lemma_occurs_self(nv);
    lemma_occurs_around(nv, p2, nv, q2);
}

/// The tokens before the declarations of the fields.
spec fn impl_head(n: Seq<char>) -> Seq<TokenView> {
    seq![ident("impl"), name(n), TokenView::Open(Delimiter::Brace), ident("pub"), ident("fn"), ident("from_attrs")]
        + parens(seq![ident("attrs"), punct(':'), punct('&'), ident("Vec"), punct('<'), ident("syn")]
            + colon2() + seq![ident("Attribute"), punct('>')])
        + result_self() + seq![TokenView::Open(Delimiter::Brace)]
}

proof fn lemma_parts_in_impl(n: Seq<char>, parts: FieldParts)
    ensures
        occurs_in(attr_loop_body(n, parts.arms), struct_attrs_impl(n, parts)),
        occurs_in(parts.decls, struct_attrs_impl(n, parts)),
        occurs_in(parts.items, struct_attrs_impl(n, parts)),
{
    let open_b = seq![TokenView::Open(Delimiter::Brace)];
    let close_b = seq![TokenView::Close(Delimiter::Brace)];
    let alb = attr_loop_body(n, parts.arms);
    let head = impl_head(n);
    let whole = struct_attrs_impl(n, parts);
    let for_in = seq![ident("for"), ident("attr"), ident("in"), ident("attrs")];
    let q3 = close_b + seq![ident("Ok")] + parens(seq![name(n)] + braces(parts.items)) + close_b + close_b;
    assert(whole =~= (head + parts.decls + for_in + open_b) + alb + q3);
    lemma_occurs_self(alb);
    lemma_occurs_around(alb, head + parts.decls + for_in + open_b, alb, q3);
    assert(whole =~= head + parts.decls + (for_in + open_b + alb + q3));
    lemma_occurs_self(parts.decls);
    lemma_occurs_around(parts.decls, head, parts.decls, for_in + open_b + alb + q3);
    let p5 = head + parts.decls + for_in + open_b + alb + close_b
        + seq![ident("Ok"), TokenView::Open(Delimiter::Parenthesis), name(n), TokenView::Open(Delimiter::Brace)];
    let q5 = close_b + seq![TokenView::Close(Delimiter::Parenthesis)] + close_b + close_b;
    assert(whole =~= p5 + parts.items + q5);
    lemma_occurs_self(parts.items);
    lemma_occurs_around(parts.items, p5, parts.items, q5);
}

/// Law: the generated `from_attrs` has, for every field, its declaration
/// `let mut f: T = T::new();`, its arm `"f" => { f = T::from_lit(..).unwrap(); }`
/// in the match on the attribute's name, and `f,` in the constructor.
pub proof fn lemma_struct_attrs_every_field(n: Seq<char>, fields: Seq<Field>)
    ensures
        forall|i: int| 0 <= i < fields.len() ==> {
            &&& occurs_in(field_arm(field_name(#[trigger] fields[i]), fields[i].ty.tokens@),
                name_value_arm(n, field_parts(fields).arms))
            &&& occurs_in(field_arm(field_name(fields[i]), fields[i].ty.tokens@),
                struct_attrs_impl(n, field_parts(fields)))
            &&& occurs_in(field_decl(field_name(fields[i]), fields[i].ty.tokens@),
                struct_attrs_impl(n, field_parts(fields)))
            &&& occurs_in(field_item(field_name(fields[i])), struct_attrs_impl(n, field_parts(fields)))
        },
{
    let parts = field_parts(fields);
    let nv = name_value_arm(n, parts.arms);
    let alb = attr_loop_body(n, parts.arms);
    let whole = struct_attrs_impl(n, parts);
    lemma_field_parts_occur(fields);
    lemma_arms_in_match(n, parts.arms);
    lemma_match_in_loop(n, parts.arms);
    lemma_parts_in_impl(n, parts);
    assert forall|i: int| 0 <= i < fields.len() implies {
        &&& occurs_in(field_arm(field_name(#[trigger] fields[i]), fields[i].ty.tokens@), nv)
        &&& occurs_in(field_arm(field_name(fields[i]), fields[i].ty.tokens@), whole)
        &&& occurs_in(field_decl(field_name(fields[i]), fields[i].ty.tokens@), whole)
        &&& occurs_in(field_item(field_name(fields[i])), whole)
    } by {
        let a = field_arm(field_name(fields[i]), fields[i].ty.tokens@);
        lemma_occurs_trans(a, parts.arms, nv);
        lemma_occurs_trans(a, nv, alb);
        lemma_occurs_trans(a, alb, whole);
        lemma_occurs_trans(field_decl(field_name(fields[i]), fields[i].ty.tokens@), parts.decls, whole);
        lemma_occurs_trans(field_item(field_name(fields[i])), parts.items, whole);
    }
}

} // verus!
