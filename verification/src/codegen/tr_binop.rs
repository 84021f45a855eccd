//! Binary operators: checked arithmetic, comparisons, and folding of constants.
use crate::ast::{Expr, ExprV, Type, TypeV};
use crate::codegen::consts::{fits, fits_bits};
use crate::codegen::helpers::{
    checked_add_helper_src, checked_add_src, checked_div_helper_src, checked_div_src,
    checked_exp_helper_src, checked_exp_src, checked_mod_helper_src, checked_mod_src,
    checked_mul_helper_src, checked_mul_src, checked_sadd_helper_src, checked_sadd_src,
    checked_sdiv_helper_src, checked_sdiv_src, checked_sexp_helper_src, checked_sexp_src,
    checked_smod_helper_src, checked_smod_src, checked_smul_helper_src, checked_smul_src,
    checked_ssub_helper_src, checked_ssub_n_helper_src, checked_ssub_n_src, checked_ssub_src,
    checked_sub_helper_src, checked_sub_src, gum_muldiv_helper_src, gum_muldiv_src,
    gum_str_eq_helper_src, gum_str_eq_src, gum_str_len_helper_src, gum_str_len_src,
    gum_wad_div_helper_src, gum_wad_mul_helper_src, gum_wad_signed_spec,
};
use crate::codegen::tr_expr::translate_expr_spec;
use crate::codegen::tr_types::static_type_spec;
use crate::codegen::translator::{ensure_spec, Ctx, CtxV, EnvV, StV, Translator};
use crate::codegen::yul::{
    fixed_point, is_fixed_point, is_str_type, literal_spec, literal_u128, mask_hex, mask_hex_spec,
    numeric_meta, numeric_spec, opt_text, str_type, WAD,
};
use crate::text::{cat3, cat4, cat5, cat7, cat9, dec, dec_u128, rep, repeat, same};
use vstd::prelude::*;

verus! {

broadcast use crate::ast::group_views;

/// The width and the signedness of a numeric expression.
pub open spec fn type_meta_spec(g: EnvV, cx: CtxV, e: ExprV) -> Option<(usize, bool)> {
    match static_type_spec(g, cx, e) {
        TypeV::Primitive(n) => numeric_spec(n),
        _ => None,
    }
}

impl<'a> Translator<'a> {
    pub(crate) fn type_meta(&self, cx: &Ctx, e: &Expr) -> (r: Option<(usize, bool)>)
        ensures
            r == type_meta_spec(self.env(), cx@, e@),
            r matches Some(m) ==> numeric_bits(m.0),
    {
        match &self.static_type(cx, e) {
            Type::Primitive(n) => numeric_meta(n.as_str()),
            _ => None,
        }
    }
}

/// The width and the signedness of an operation. A literal takes the type of
/// the other operand.
pub open spec fn binary_op_meta_spec(
    g: EnvV,
    cx: CtxV,
    left: ExprV,
    right: ExprV,
) -> Option<(usize, bool)> {
    if (left is Number) && !((right is Number)) {
        match type_meta_spec(g, cx, right) {
            Some(m) => Some(m),
            None => type_meta_spec(g, cx, left),
        }
    } else {
        match type_meta_spec(g, cx, left) {
            Some(m) => Some(m),
            None => type_meta_spec(g, cx, right),
        }
    }
}

impl<'a> Translator<'a> {
    pub(crate) fn binary_op_meta(
        &self,
        cx: &Ctx,
        left: &Expr,
        right: &Expr,
    ) -> (r: Option<(usize, bool)>)
        ensures
            r == binary_op_meta_spec(self.env(), cx@, left@, right@),
            r matches Some(m) ==> numeric_bits(m.0),
    {
        if matches!(left, Expr::Number(..)) && !(matches!(right, Expr::Number(..))) {
            match self.type_meta(cx, right) {
                Some(m) => {
                    return Some(m);
                },
                None => {
                    return self.type_meta(cx, left);
                },
            }
        }
        match self.type_meta(cx, left) {
            Some(m) => Some(m),
            None => self.type_meta(cx, right),
        }
    }
}

/// The widths of the numeric types.
pub open spec fn numeric_bits(bits: usize) -> bool {
    bits == 8 || bits == 16 || bits == 32 || bits == 64 || bits == 128 || bits == 256
}

/// The largest unsigned value of a width.
pub open spec fn max_value_hex_spec(bits: usize) -> Seq<char> {
    if bits == 256 {
        "not(0)"@
    } else {
        mask_hex_spec(bits / 8)
    }
}

pub fn max_value_hex(bits: usize) -> (r: String)
    ensures
        r@ == max_value_hex_spec(bits),
{
    if bits == 256 {
        String::from_str("not(0)")
    } else {
        mask_hex(bits / 8)
    }
}

/// The largest signed value of a width, as a full word.
pub open spec fn max_signed_hex_spec(bits: usize) -> Seq<char> {
    let n = bits as int / 8;
    "0x"@ + rep("00"@, (32 - n) as nat) + "7f"@ + rep("ff"@, (n - 1) as nat)
}

pub fn max_signed_hex(bits: usize) -> (r: String)
    requires
        numeric_bits(bits),
    ensures
        r@ == max_signed_hex_spec(bits),
{
    let n: usize = bits / 8;
    cat4("0x", repeat("00", 32 - n).as_str(), "7f", repeat("ff", n - 1).as_str())
}

/// The smallest signed value of a width, as a full word.
pub open spec fn min_signed_hex_spec(bits: usize) -> Seq<char> {
    let n = bits as int / 8;
    "0x"@ + rep("ff"@, (32 - n) as nat) + "80"@ + rep("00"@, (n - 1) as nat)
}

pub fn min_signed_hex(bits: usize) -> (r: String)
    requires
        numeric_bits(bits),
    ensures
        r@ == min_signed_hex_spec(bits),
{
    let n: usize = bits / 8;
    cat4("0x", repeat("ff", 32 - n).as_str(), "80", repeat("00", n - 1).as_str())
}

/// The value of an operation on two literals.
pub open spec fn folded_value(op: Seq<char>, a: nat, b: nat) -> Option<nat> {
    if op == "+"@ {
        Some(a + b)
    } else if op == "-"@ {
        if a >= b {
            Some((a - b) as nat)
        } else {
            None
        }
    } else if op == "*"@ {
        Some(a * b)
    } else {
        None
    }
}

/// The result of unsigned `+`, `-` or `*` on two literals, where the type holds
/// it.
pub open spec fn const_fold_spec(
    left: ExprV,
    right: ExprV,
    op: Seq<char>,
    meta: Option<(usize, bool)>,
) -> Option<Seq<char>> {
    match (meta, literal_spec(left), literal_spec(right)) {
        (Some((bits, signed)), Some(a), Some(b)) => match folded_value(op, a, b) {
            Some(v) => if !signed && v <= u128::MAX && fits_bits(v, bits) {
                Some(dec(v))
            } else {
                None
            },
            None => None,
        },
        _ => None,
    }
}

pub fn const_fold(left: &Expr, right: &Expr, op: &str, meta: Option<(usize, bool)>) -> (r: Option<
    String,
>)
    requires
        meta matches Some(m) ==> numeric_bits(m.0),
    ensures
        opt_text(r) == const_fold_spec(left@, right@, op@, meta),
{
    let (bits, signed) = match meta {
        Some(m) => m,
        None => {
            return None;
        },
    };
    let a = match literal_u128(left) {
        Some(a) => a,
        None => {
            return None;
        },
    };
    let b = match literal_u128(right) {
        Some(b) => b,
        None => {
            return None;
        },
    };
    let v = if same(op, "+") {
        a.checked_add(b)
    } else if same(op, "-") {
        a.checked_sub(b)
    } else if same(op, "*") {
        a.checked_mul(b)
    } else {
        None
    };
    proof {
        let want = folded_value(op@, a as nat, b as nat);
        assert(v is Some ==> want == Some(v->0 as nat));
        assert(v is None ==> (want is None || want->0 > u128::MAX));
    }
    match v {
        Some(v) => if !signed && fits(v, bits) {
            Some(dec_u128(v))
        } else {
            None
        },
        None => None,
    }
}

/// A product or a quotient of fixed-point numbers.
#[verifier::opaque]
pub open spec fn wad_op_spec(
    g: EnvV,
    st: StV,
    product: bool,
    a: Seq<char>,
    b: Seq<char>,
) -> (StV, Seq<char>) {
    let st = ensure_spec(st, "gum_muldiv"@, gum_muldiv_src(g.rich));
    if product {
        let st = ensure_spec(
            st,
            "gum_wad_mul"@,
            gum_wad_signed_spec("gum_wad_mul"@, "x, y"@, WAD@, g.rich),
        );
        (
            st,
            "gum_wad_mul("@ + a + ", "@ + b + ", "@ + min_signed_hex_spec(
                256usize
            ) + ", "@ + max_signed_hex_spec(256usize) + ")"@,
        )
    } else {
        let st = ensure_spec(
            st,
            "gum_wad_div"@,
            gum_wad_signed_spec("gum_wad_div"@, "x, "@ + WAD@, "y"@, g.rich),
        );
        (
            st,
            "gum_wad_div("@ + a + ", "@ + b + ", "@ + min_signed_hex_spec(
                256usize
            ) + ", "@ + max_signed_hex_spec(256usize) + ")"@,
        )
    }
}

impl<'a> Translator<'a> {
    pub(crate) fn wad_op(&mut self, product: bool, a: &str, b: &str) -> (r: String)
        ensures
            final(self).env() == old(self).env(),
            wad_op_spec(old(self).env(), old(self).st(), product, a@, b@) == (final(self).st(), r@),
    {
        proof {
            reveal(wad_op_spec);
        }
        self.ensure_helper("gum_muldiv", gum_muldiv_helper_src(self.rich_reverts));
        if product {
            self.ensure_helper("gum_wad_mul", gum_wad_mul_helper_src(self.rich_reverts));
            return cat9(
                "gum_wad_mul(",
                a,
                ", ",
                b,
                ", ",
                min_signed_hex(256).as_str(),
                ", ",
                max_signed_hex(256).as_str(),
                ")",
            );
        }
        self.ensure_helper("gum_wad_div", gum_wad_div_helper_src(self.rich_reverts));
        cat9(
            "gum_wad_div(",
            a,
            ", ",
            b,
            ", ",
            min_signed_hex(256).as_str(),
            ", ",
            max_signed_hex(256).as_str(),
            ")",
        )
    }
}

#[verifier::opaque]
pub open spec fn add_op_spec(
    g: EnvV,
    st: StV,
    a: Seq<char>,
    b: Seq<char>,
    meta: Option<(usize, bool)>,
) -> (StV, Seq<char>) {
    match meta {
        Some((bits, signed)) => {
            if signed {
                let st = ensure_spec(st, "checked_sadd"@, checked_sadd_src(g.rich));
                (
                    st,
                    "checked_sadd("@ + a + ", "@ + b + ", "@ + min_signed_hex_spec(
                        bits
                    ) + ", "@ + max_signed_hex_spec(bits) + ")"@,
                )
            } else {
                let st = ensure_spec(st, "checked_add"@, checked_add_src(g.rich));
                (st, "checked_add("@ + a + ", "@ + b + ", "@ + max_value_hex_spec(bits) + ")"@)
            }
        },
        None => (st, "add("@ + a + ", "@ + b + ")"@),
    }
}

impl<'a> Translator<'a> {
    pub(crate) fn add_op(&mut self, a: &str, b: &str, meta: Option<(usize, bool)>) -> (r: String)
        requires
            meta matches Some(m) ==> numeric_bits(m.0),
        ensures
            final(self).env() == old(self).env(),
            add_op_spec(old(self).env(), old(self).st(), a@, b@, meta) == (final(self).st(), r@),
    {
        proof {
            reveal(add_op_spec);
        }
        match meta {
            Some((bits, signed)) => {
                if signed {
                    self.ensure_helper("checked_sadd", checked_sadd_helper_src(self.rich_reverts));
                    return cat9(
                        "checked_sadd(",
                        a,
                        ", ",
                        b,
                        ", ",
                        min_signed_hex(bits).as_str(),
                        ", ",
                        max_signed_hex(bits).as_str(),
                        ")",
                    );
                }
                self.ensure_helper("checked_add", checked_add_helper_src(self.rich_reverts));
                cat7("checked_add(", a, ", ", b, ", ", max_value_hex(bits).as_str(), ")")
            },
            None => cat5("add(", a, ", ", b, ")"),
        }
    }
}

#[verifier::opaque]
pub open spec fn sub_op_spec(
    g: EnvV,
    st: StV,
    a: Seq<char>,
    b: Seq<char>,
    meta: Option<(usize, bool)>,
) -> (StV, Seq<char>) {
    match meta {
        Some((bits, signed)) => {
            if signed && bits == 256usize {
                let st = ensure_spec(st, "checked_ssub"@, checked_ssub_src(g.rich));
                (st, "checked_ssub("@ + a + ", "@ + b + ")"@)
            } else if signed {
                let st = ensure_spec(st, "checked_ssub"@, checked_ssub_src(g.rich));
                let st = ensure_spec(st, "checked_ssub_n"@, checked_ssub_n_src(g.rich));
                (
                    st,
                    "checked_ssub_n("@ + a + ", "@ + b + ", "@ + min_signed_hex_spec(
                        bits
                    ) + ", "@ + max_signed_hex_spec(bits) + ")"@,
                )
            } else {
                let st = ensure_spec(st, "checked_sub"@, checked_sub_src(g.rich));
                (st, "checked_sub("@ + a + ", "@ + b + ")"@)
            }
        },
        None => {
            let st = ensure_spec(st, "checked_sub"@, checked_sub_src(g.rich));
            (st, "checked_sub("@ + a + ", "@ + b + ")"@)
        },
    }
}

impl<'a> Translator<'a> {
    pub(crate) fn sub_op(&mut self, a: &str, b: &str, meta: Option<(usize, bool)>) -> (r: String)
        requires
            meta matches Some(m) ==> numeric_bits(m.0),
        ensures
            final(self).env() == old(self).env(),
            sub_op_spec(old(self).env(), old(self).st(), a@, b@, meta) == (final(self).st(), r@),
    {
        proof {
            reveal(sub_op_spec);
        }
        match meta {
            Some((bits, signed)) => {
                if signed && bits == 256 {
                    self.ensure_helper("checked_ssub", checked_ssub_helper_src(self.rich_reverts));
                    return cat5("checked_ssub(", a, ", ", b, ")");
                }
                if signed {
                    self.ensure_helper("checked_ssub", checked_ssub_helper_src(self.rich_reverts));
                    self.ensure_helper(
                        "checked_ssub_n",
                        checked_ssub_n_helper_src(self.rich_reverts),
                    );
                    return cat9(
                        "checked_ssub_n(",
                        a,
                        ", ",
                        b,
                        ", ",
                        min_signed_hex(bits).as_str(),
                        ", ",
                        max_signed_hex(bits).as_str(),
                        ")",
                    );
                }
                self.ensure_helper("checked_sub", checked_sub_helper_src(self.rich_reverts));
                cat5("checked_sub(", a, ", ", b, ")")
            },
            None => {
                self.ensure_helper("checked_sub", checked_sub_helper_src(self.rich_reverts));
                cat5("checked_sub(", a, ", ", b, ")")
            },
        }
    }
}

#[verifier::opaque]
pub open spec fn mul_op_spec(
    g: EnvV,
    st: StV,
    a: Seq<char>,
    b: Seq<char>,
    meta: Option<(usize, bool)>,
) -> (StV, Seq<char>) {
    match meta {
        Some((bits, signed)) => {
            if signed {
                let st = ensure_spec(st, "checked_smul"@, checked_smul_src(g.rich));
                (
                    st,
                    "checked_smul("@ + a + ", "@ + b + ", "@ + min_signed_hex_spec(
                        bits
                    ) + ", "@ + max_signed_hex_spec(bits) + ")"@,
                )
            } else {
                let st = ensure_spec(st, "checked_mul"@, checked_mul_src(g.rich));
                (st, "checked_mul("@ + a + ", "@ + b + ", "@ + max_value_hex_spec(bits) + ")"@)
            }
        },
        None => (st, "mul("@ + a + ", "@ + b + ")"@),
    }
}

impl<'a> Translator<'a> {
    pub(crate) fn mul_op(&mut self, a: &str, b: &str, meta: Option<(usize, bool)>) -> (r: String)
        requires
            meta matches Some(m) ==> numeric_bits(m.0),
        ensures
            final(self).env() == old(self).env(),
            mul_op_spec(old(self).env(), old(self).st(), a@, b@, meta) == (final(self).st(), r@),
    {
        proof {
            reveal(mul_op_spec);
        }
        match meta {
            Some((bits, signed)) => {
                if signed {
                    self.ensure_helper("checked_smul", checked_smul_helper_src(self.rich_reverts));
                    return cat9(
                        "checked_smul(",
                        a,
                        ", ",
                        b,
                        ", ",
                        min_signed_hex(bits).as_str(),
                        ", ",
                        max_signed_hex(bits).as_str(),
                        ")",
                    );
                }
                self.ensure_helper("checked_mul", checked_mul_helper_src(self.rich_reverts));
                cat7("checked_mul(", a, ", ", b, ", ", max_value_hex(bits).as_str(), ")")
            },
            None => cat5("mul(", a, ", ", b, ")"),
        }
    }
}

#[verifier::opaque]
pub open spec fn exp_op_spec(
    g: EnvV,
    st: StV,
    a: Seq<char>,
    b: Seq<char>,
    meta: Option<(usize, bool)>,
) -> (StV, Seq<char>) {
    match meta {
        Some((bits, signed)) => {
            if signed {
                let st = ensure_spec(st, "checked_smul"@, checked_smul_src(g.rich));
                let st = ensure_spec(st, "checked_sexp"@, checked_sexp_src());
                (
                    st,
                    "checked_sexp("@ + a + ", "@ + b + ", "@ + min_signed_hex_spec(
                        bits
                    ) + ", "@ + max_signed_hex_spec(bits) + ")"@,
                )
            } else {
                let st = ensure_spec(st, "checked_mul"@, checked_mul_src(g.rich));
                let st = ensure_spec(st, "checked_exp"@, checked_exp_src());
                (st, "checked_exp("@ + a + ", "@ + b + ", "@ + max_value_hex_spec(bits) + ")"@)
            }
        },
        None => (st, "exp("@ + a + ", "@ + b + ")"@),
    }
}

impl<'a> Translator<'a> {
    pub(crate) fn exp_op(&mut self, a: &str, b: &str, meta: Option<(usize, bool)>) -> (r: String)
        requires
            meta matches Some(m) ==> numeric_bits(m.0),
        ensures
            final(self).env() == old(self).env(),
            exp_op_spec(old(self).env(), old(self).st(), a@, b@, meta) == (final(self).st(), r@),
    {
        proof {
            reveal(exp_op_spec);
        }
        match meta {
            Some((bits, signed)) => {
                if signed {
                    self.ensure_helper("checked_smul", checked_smul_helper_src(self.rich_reverts));
                    self.ensure_helper("checked_sexp", checked_sexp_helper_src());
                    return cat9(
                        "checked_sexp(",
                        a,
                        ", ",
                        b,
                        ", ",
                        min_signed_hex(bits).as_str(),
                        ", ",
                        max_signed_hex(bits).as_str(),
                        ")",
                    );
                }
                self.ensure_helper("checked_mul", checked_mul_helper_src(self.rich_reverts));
                self.ensure_helper("checked_exp", checked_exp_helper_src());
                cat7("checked_exp(", a, ", ", b, ", ", max_value_hex(bits).as_str(), ")")
            },
            None => cat5("exp(", a, ", ", b, ")"),
        }
    }
}

#[verifier::opaque]
pub open spec fn div_op_spec(
    g: EnvV,
    st: StV,
    a: Seq<char>,
    b: Seq<char>,
    signed: bool,
) -> (StV, Seq<char>) {
    if signed {
        let st = ensure_spec(st, "checked_sdiv"@, checked_sdiv_src(g.rich));
        (st, "checked_sdiv("@ + a + ", "@ + b + ")"@)
    } else {
        let st = ensure_spec(st, "checked_div"@, checked_div_src(g.rich));
        (st, "checked_div("@ + a + ", "@ + b + ")"@)
    }
}

impl<'a> Translator<'a> {
    pub(crate) fn div_op(&mut self, a: &str, b: &str, signed: bool) -> (r: String)
        ensures
            final(self).env() == old(self).env(),
            div_op_spec(old(self).env(), old(self).st(), a@, b@, signed) == (final(self).st(), r@),
    {
        proof {
            reveal(div_op_spec);
        }
        if signed {
            self.ensure_helper("checked_sdiv", checked_sdiv_helper_src(self.rich_reverts));
            return cat5("checked_sdiv(", a, ", ", b, ")");
        }
        self.ensure_helper("checked_div", checked_div_helper_src(self.rich_reverts));
        cat5("checked_div(", a, ", ", b, ")")
    }
}

#[verifier::opaque]
pub open spec fn mod_op_spec(
    g: EnvV,
    st: StV,
    a: Seq<char>,
    b: Seq<char>,
    signed: bool,
) -> (StV, Seq<char>) {
    if signed {
        let st = ensure_spec(st, "checked_smod"@, checked_smod_src(g.rich));
        (st, "checked_smod("@ + a + ", "@ + b + ")"@)
    } else {
        let st = ensure_spec(st, "checked_mod"@, checked_mod_src(g.rich));
        (st, "checked_mod("@ + a + ", "@ + b + ")"@)
    }
}

impl<'a> Translator<'a> {
    pub(crate) fn mod_op(&mut self, a: &str, b: &str, signed: bool) -> (r: String)
        ensures
            final(self).env() == old(self).env(),
            mod_op_spec(old(self).env(), old(self).st(), a@, b@, signed) == (final(self).st(), r@),
    {
        proof {
            reveal(mod_op_spec);
        }
        if signed {
            self.ensure_helper("checked_smod", checked_smod_helper_src(self.rich_reverts));
            return cat5("checked_smod(", a, ", ", b, ")");
        }
        self.ensure_helper("checked_mod", checked_mod_helper_src(self.rich_reverts));
        cat5("checked_mod(", a, ", ", b, ")")
    }
}

/// Operators that need no check.
pub open spec fn compare_op_spec(
    op: Seq<char>,
    a: Seq<char>,
    b: Seq<char>,
    signed: bool,
) -> Seq<char> {
    if op == "=="@ {
        "eq("@ + a + ", "@ + b + ")"@
    } else if op == "!="@ {
        "iszero(eq("@ + a + ", "@ + b + "))"@
    } else if op == "<"@ {
        if signed {
            "slt("@ + a + ", "@ + b + ")"@
        } else {
            "lt("@ + a + ", "@ + b + ")"@
        }
    } else if op == ">"@ {
        if signed {
            "sgt("@ + a + ", "@ + b + ")"@
        } else {
            "gt("@ + a + ", "@ + b + ")"@
        }
    } else if op == "<="@ {
        if signed {
            "iszero(sgt("@ + a + ", "@ + b + "))"@
        } else {
            "iszero(gt("@ + a + ", "@ + b + "))"@
        }
    } else if op == ">="@ {
        if signed {
            "iszero(slt("@ + a + ", "@ + b + "))"@
        } else {
            "iszero(lt("@ + a + ", "@ + b + "))"@
        }
    } else if op == "&&"@ {
        "and("@ + a + ", "@ + b + ")"@
    } else if op == "||"@ {
        "or("@ + a + ", "@ + b + ")"@
    } else {
        "/* unsupported op "@ + op + " */"@
    }
}

pub(crate) fn compare_op(op: &str, a: &str, b: &str, signed: bool) -> (r: String)
    ensures
        r@ == compare_op_spec(op@, a@, b@, signed),
{
    if same(op, "==") {
        return cat5("eq(", a, ", ", b, ")");
    }
    if same(op, "!=") {
        return cat5("iszero(eq(", a, ", ", b, "))");
    }
    if same(op, "<") {
        if signed {
            return cat5("slt(", a, ", ", b, ")");
        } else {
            return cat5("lt(", a, ", ", b, ")");
        }
    }
    if same(op, ">") {
        if signed {
            return cat5("sgt(", a, ", ", b, ")");
        } else {
            return cat5("gt(", a, ", ", b, ")");
        }
    }
    if same(op, "<=") {
        if signed {
            return cat5("iszero(sgt(", a, ", ", b, "))");
        } else {
            return cat5("iszero(gt(", a, ", ", b, "))");
        }
    }
    if same(op, ">=") {
        if signed {
            return cat5("iszero(slt(", a, ", ", b, "))");
        } else {
            return cat5("iszero(lt(", a, ", ", b, "))");
        }
    }
    if same(op, "&&") {
        return cat5("and(", a, ", ", b, ")");
    }
    if same(op, "||") {
        return cat5("or(", a, ", ", b, ")");
    }
    cat3("/* unsupported op ", op, " */")
}

pub open spec fn is_signed_spec(meta: Option<(usize, bool)>) -> bool {
    match meta {
        Some((_, signed)) => signed,
        None => false,
    }
}

pub(crate) fn is_signed(meta: Option<(usize, bool)>) -> (r: bool)
    ensures
        r == is_signed_spec(meta),
{
    match meta {
        Some((_, signed)) => signed,
        None => false,
    }
}

#[verifier::opaque]
pub open spec fn arithmetic_spec(
    g: EnvV,
    st: StV,
    op: Seq<char>,
    a: Seq<char>,
    b: Seq<char>,
    meta: Option<(usize, bool)>,
) -> (StV, Seq<char>) {
    if op == "+"@ {
        add_op_spec(g, st, a, b, meta)
    } else if op == "-"@ {
        sub_op_spec(g, st, a, b, meta)
    } else if op == "*"@ {
        mul_op_spec(g, st, a, b, meta)
    } else if op == "**"@ {
        exp_op_spec(g, st, a, b, meta)
    } else if op == "/"@ {
        div_op_spec(g, st, a, b, is_signed_spec(meta))
    } else if op == "%"@ {
        mod_op_spec(g, st, a, b, is_signed_spec(meta))
    } else {
        (st, compare_op_spec(op, a, b, is_signed_spec(meta)))
    }
}

impl<'a> Translator<'a> {
    pub(crate) fn arithmetic(
        &mut self,
        op: &str,
        a: &str,
        b: &str,
        meta: Option<(usize, bool)>,
    ) -> (r: String)
        requires
            meta matches Some(m) ==> numeric_bits(m.0),
        ensures
            final(self).env() == old(self).env(),
            arithmetic_spec(
                old(self).env(),
                old(self).st(),
                op@,
                a@,
                b@,
                meta,
            ) == (final(self).st(), r@),
    {
        proof {
            reveal(arithmetic_spec);
        }
        if same(op, "+") {
            return self.add_op(a, b, meta);
        }
        if same(op, "-") {
            return self.sub_op(a, b, meta);
        }
        if same(op, "*") {
            return self.mul_op(a, b, meta);
        }
        if same(op, "**") {
            return self.exp_op(a, b, meta);
        }
        if same(op, "/") {
            return self.div_op(a, b, is_signed(meta));
        }
        if same(op, "%") {
            return self.mod_op(a, b, is_signed(meta));
        }
        compare_op(op, a, b, is_signed(meta))
    }
}

#[verifier::opaque]
pub open spec fn translate_binary_op_spec(
    g: EnvV,
    st: StV,
    cx: CtxV,
    e: ExprV,
) -> (StV, Seq<char>)
    decreases e, 8nat,
{
    match e {
        ExprV::BinaryOp { left, operator, right } => {
            let (st, a) = translate_expr_spec(g, st, cx, *left);
            let (st, b) = translate_expr_spec(g, st, cx, *right);
            if (
                operator == "=="@
                || operator == "!="@
            ) && str_type(static_type_spec(g, cx, *left)) && str_type(static_type_spec(g, cx, *right)) {
                let st = ensure_spec(st, "gum_str_len"@, gum_str_len_src());
                let st = ensure_spec(st, "gum_str_eq"@, gum_str_eq_src());
                if operator == "=="@ {
                    (st, "gum_str_eq("@ + a + ", "@ + b + ")"@)
                } else {
                    (st, "iszero(gum_str_eq("@ + a + ", "@ + b + "))"@)
                }
            } else {
                let meta = binary_op_meta_spec(g, cx, *left, *right);
                match const_fold_spec(*left, *right, operator, meta) {
                    Some(v) => (st, v),
                    None => {
                        if (
                            operator == "*"@
                            || operator == "/"@
                        ) && fixed_point(static_type_spec(g, cx, *left)) && fixed_point(static_type_spec(g, cx, *right)) {
                            wad_op_spec(g, st, operator == "*"@, a, b)
                        } else {
                            arithmetic_spec(g, st, operator, a, b, meta)
                        }
                    },
                }
            }
        },
        _ => (st, ""@),
    }
}

impl<'a> Translator<'a> {
    pub(crate) fn translate_binary_op(&mut self, cx: &Ctx, e: &Expr) -> (r: String)
        ensures
            final(self).env() == old(self).env(),
            translate_binary_op_spec(
                old(self).env(),
                old(self).st(),
                cx@,
                e@,
            ) == (final(self).st(), r@),
        decreases e, 8nat,
    {
        proof {
            reveal(translate_binary_op_spec);
            reveal(translate_expr_spec);
        }
        match e {
            Expr::BinaryOp { left, operator, right } => {
                let a = self.translate_expr(cx, left);
                let b = self.translate_expr(cx, right);
                if (
                    same(operator.as_str(), "==")
                    || same(operator.as_str(), "!=")
                ) && is_str_type(&self.static_type(cx, left)) && is_str_type(&self.static_type(cx, right)) {
                    self.ensure_helper("gum_str_len", gum_str_len_helper_src());
                    self.ensure_helper("gum_str_eq", gum_str_eq_helper_src());
                    if same(operator.as_str(), "==") {
                        return cat5("gum_str_eq(", a.as_str(), ", ", b.as_str(), ")");
                    }
                    return cat5("iszero(gum_str_eq(", a.as_str(), ", ", b.as_str(), "))");
                }
                let meta = self.binary_op_meta(cx, left, right);
                match const_fold(left, right, operator.as_str(), meta) {
                    Some(v) => {
                        return v;
                    },
                    None => {},
                }
                if (
                    same(operator.as_str(), "*")
                    || same(operator.as_str(), "/")
                ) && is_fixed_point(&self.static_type(cx, left)) && is_fixed_point(&self.static_type(cx, right)) {
                    return self.wad_op(same(operator.as_str(), "*"), a.as_str(), b.as_str());
                }
                self.arithmetic(operator.as_str(), a.as_str(), b.as_str(), meta)
            },
            _ => String::from_str(""),
        }
    }
}

} // verus!
