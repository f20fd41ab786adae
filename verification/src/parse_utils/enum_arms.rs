//! Every variant of an enum reaches the generated `from_lit`.
use vstd::prelude::*;
use crate::tokens::{Delimiter, TokenView, ident, name, punct, joint, lit, fat_arrow, parens, brackets,
    occurs_in, lemma_occurs_around, lemma_occurs_self, lemma_occurs_trans};
use super::{variant_arm, variant_arms, enum_impl, default_variant, from_lit_sig, let_str, err_format, new_fn};

verus! {

/// `"V" => Ok(N::V),`
pub open spec fn variant_arm_tokens(n: Seq<char>, v: Seq<char>) -> Seq<TokenView> {
    seq![lit(v), joint('='), punct('>'), ident("Ok"), TokenView::Open(Delimiter::Parenthesis), name(n),
        joint(':'), punct(':'), name(v), TokenView::Close(Delimiter::Parenthesis), punct(',')]
}

proof fn lemma_variant_arms_occur(n: Seq<char>, vs: Seq<Seq<char>>)
    ensures
        forall|i: int| 0 <= i < vs.len() ==> occurs_in(variant_arm_tokens(n, #[trigger] vs[i]), variant_arms(n, vs)),
    decreases vs.len(),
{
    if vs.len() > 0 {
        let p = vs.drop_last();
        let k = vs.len() - 1;
        let arms = variant_arms(n, p);
        let last = variant_arm_tokens(n, vs[k]);
        lemma_variant_arms_occur(n, p);
        assert(vs.last() == vs[k]);
        assert(variant_arm(n, vs[k]) =~= last);
        assert(variant_arms(n, vs) == arms + last);
        assert forall|i: int| 0 <= i < vs.len() implies occurs_in(variant_arm_tokens(n, #[trigger] vs[i]), variant_arms(n, vs)) by {
            if i < k {
                assert(p[i] == vs[i]);
                lemma_occurs_around(variant_arm_tokens(n, vs[i]), Seq::empty(), arms, last);
                assert(Seq::<TokenView>::empty() + arms + last =~= arms + last);
            } else {
                lemma_occurs_self(last);
                lemma_occurs_around(last, arms, last, Seq::empty());
                assert(arms + last + Seq::<TokenView>::empty() =~= arms + last);
            }
        }
    }
}

/// Law: the generated `from_lit` has the arm `"V" => Ok(N::V),` for every
/// variant `V` of the enum: each variant's name reads as that variant.
pub proof fn lemma_enum_impl_every_variant(n: Seq<char>, vs: Seq<Seq<char>>)
    ensures
        forall|i: int| 0 <= i < vs.len() ==> occurs_in(variant_arm_tokens(n, #[trigger] vs[i]), enum_impl(n, vs)),
{
    let arms = variant_arms(n, vs);
    let pre = seq![ident("impl"), name(n), TokenView::Open(Delimiter::Brace)] + from_lit_sig()
        + seq![TokenView::Open(Delimiter::Brace)] + let_str()
        + seq![ident("match"), punct('&'), ident("str"), punct('.'), ident("unwrap")]
        + parens(Seq::empty()) + brackets(seq![joint('.'), punct('.')]) + seq![TokenView::Open(Delimiter::Brace)];
    let post = seq![ident("_")] + fat_arrow() + err_format("Unknown {}"@, n)
        + seq![TokenView::Close(Delimiter::Brace), TokenView::Close(Delimiter::Brace)]
        + new_fn(seq![name(n), joint(':'), punct(':'), name(default_variant(vs))])
        + seq![TokenView::Close(Delimiter::Brace)];
    assert(enum_impl(n, vs) =~= pre + arms + post);
    lemma_occurs_self(arms);
    lemma_occurs_around(arms, pre, arms, post);
    lemma_variant_arms_occur(n, vs);
    assert forall|i: int| 0 <= i < vs.len() implies occurs_in(variant_arm_tokens(n, #[trigger] vs[i]), enum_impl(n, vs)) by {
        lemma_occurs_trans(variant_arm_tokens(n, vs[i]), arms, enum_impl(n, vs));
    }
}

} // verus!
