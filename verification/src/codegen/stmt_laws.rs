//! What holds of translated statements: each arm of a `match` runs for its own variant.
use crate::ast::{variant_index, ArmV, VariantV};
use crate::codegen::tr_stmt::{arms_spec, inner_spec, payload_line};
use crate::codegen::translator::{CtxV, EnvV, StV};
use crate::text::dec;
use vstd::prelude::*;

verus! {

/// The arms of a `match` stand one behind the other, and each is labelled with the place
/// of its variant in the enum, wherever the arm itself stands.
pub proof fn law_arms_are_tagged_by_variant(
    g: EnvV,
    st: StV,
    cx: CtxV,
    name: Seq<char>,
    mv: Seq<char>,
    arms: Seq<ArmV>,
    i: nat,
)
    requires
        i < arms.len(),
        g.w.enums.contains_key(name),
        g.w.enums[name].variants.len() <= usize::MAX,
        variant_index(g.w.enums[name].variants, arms[i as int].variant, 0) is Some,
    ensures
        ({
            let (st1, cx1, before) = arms_spec(g, st, cx, name, mv, arms, i);
            let arm = arms[i as int];
            let (st2, cx2, inner) = inner_spec(g, st1, cx1, "    "@, arm.body, arm.body.len());
            arms_spec(g, st, cx, name, mv, arms, i + 1) == (
                st2,
                cx2,
                before + "case "@ + dec(
                    variant_index(g.w.enums[name].variants, arm.variant, 0)->0 as nat,
                ) + " {\n"@ + payload_line(mv, arm.payload_var) + inner + "}\n"@,
            )
        }),
{
    let vs = g.w.enums[name].variants;
    lemma_variant_index(vs, arms[i as int].variant, 0);
}

proof fn lemma_variant_index(vs: Seq<VariantV>, variant: Seq<char>, i: int)
    requires
        0 <= i <= vs.len(),
    ensures
        match variant_index(vs, variant, i) {
            Some(k) => i <= k < vs.len() && vs[k].name == variant && forall|j: int|
                i <= j < k ==> (#[trigger] vs[j]).name != variant,
            None => forall|j: int| i <= j < vs.len() ==> (#[trigger] vs[j]).name != variant,
        },
    decreases vs.len() - i,
{
    if i < vs.len() && vs[i].name != variant {
        lemma_variant_index(vs, variant, i + 1);
    }
}

/// Different variants have different places in their enum.
pub proof fn law_tags_are_distinct(vs: Seq<VariantV>, a: Seq<char>, b: Seq<char>)
    requires
        a != b,
        variant_index(vs, a, 0) is Some,
        variant_index(vs, b, 0) is Some,
    ensures
        variant_index(vs, a, 0) != variant_index(vs, b, 0),
        vs[variant_index(vs, a, 0)->0].name == a,
{
    lemma_variant_index(vs, a, 0);
    lemma_variant_index(vs, b, 0);
}

} // verus!
