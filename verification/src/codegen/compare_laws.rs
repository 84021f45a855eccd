//! What the code of a comparison computes.
use crate::ast::{ExprV, TypeV};
use crate::codegen::tr_binop::{
    arithmetic_spec, binary_op_meta_spec, compare_op_spec, const_fold_spec, is_signed_spec,
    translate_binary_op_spec,
};
use crate::codegen::tr_expr::translate_expr_spec;
use crate::codegen::tr_types::static_type_spec;
use crate::codegen::translator::{CtxV, EnvV, StV};
use crate::codegen::word::{is_word, law_bits_of_truths, number_of, signed, truth};
use crate::codegen::yul::{numeric_spec, str_type};
use crate::codegen::yul_run::{apply, eval, give, group_steps, End, Machine};
use crate::codegen::yul_tree::{
    expr_text, group_texts, op1, op2, op_name, Op, YulExpr, YulFn,
};
use vstd::prelude::*;

verus! {

broadcast use {group_steps, group_texts};

/// The relation that an operator of the language names.
pub open spec fn relation(op: Seq<char>, a: int, b: int) -> bool {
    if op == "=="@ {
        a == b
    } else if op == "!="@ {
        a != b
    } else if op == "<"@ {
        a < b
    } else if op == ">"@ {
        a > b
    } else if op == "<="@ {
        a <= b
    } else {
        a >= b
    }
}

pub open spec fn is_comparison(op: Seq<char>) -> bool {
    op == "=="@ || op == "!="@ || op == "<"@ || op == ">"@ || op == "<="@ || op == ">="@
}

/// Whether an expression, on any machine, evaluates the second operand and then the first,
/// and gives what a function makes of the two words.
pub open spec fn computes(e: YulExpr, x: YulExpr, y: YulExpr, f: spec_fn(int, int) -> int) -> bool {
    forall|p: Map<Seq<char>, YulFn>, m: Machine, d: nat|
        {
            let b = eval(p, m, y, d);
            let a = eval(p, b.m, x, d);
            b.end == End::Next && a.end == End::Next && is_word(a.v) && is_word(b.v) ==> #[trigger] eval(
                p,
                m,
                e,
                d,
            ) == give(a.m, f(a.v, b.v))
        }
}

proof fn lemma_plain(t: Seq<char>, o: Op, x: YulExpr, y: YulExpr, head: Seq<char>)
    requires
        t == head + expr_text(x) + ", "@ + expr_text(y) + ")"@,
        head == op_name(o) + "("@,
    ensures
        t == expr_text(op2(o, x, y)),
{
    assert(t =~= expr_text(op2(o, x, y)));
}

proof fn lemma_negated(t: Seq<char>, o: Op, x: YulExpr, y: YulExpr, head: Seq<char>)
    requires
        t == head + expr_text(x) + ", "@ + expr_text(y) + "))"@,
        head == "iszero("@ + op_name(o) + "("@,
    ensures
        t == expr_text(op1(Op::Iszero, op2(o, x, y))),
{
    reveal_strlit("iszero(");
    reveal_strlit("iszero");
    reveal_strlit("(");
    reveal_strlit("))");
    reveal_strlit(")");
    assert("iszero("@ =~= "iszero"@ + "("@);
    assert("))"@ =~= ")"@ + ")"@);
    let e = op2(o, x, y);
    assert(expr_text(e) == op_name(o) + "("@ + (expr_text(x) + ", "@ + expr_text(y)) + ")"@);
    assert(expr_text(op1(Op::Iszero, e)) == "iszero"@ + "("@ + expr_text(e) + ")"@);
    assert(t =~= expr_text(op1(Op::Iszero, e)));
}

proof fn lemma_heads()
    ensures
        "eq("@ == "eq"@ + "("@,
        "lt("@ == "lt"@ + "("@,
        "gt("@ == "gt"@ + "("@,
        "slt("@ == "slt"@ + "("@,
        "sgt("@ == "sgt"@ + "("@,
        "and("@ == "and"@ + "("@,
        "or("@ == "or"@ + "("@,
        "iszero(eq("@ == "iszero("@ + "eq"@ + "("@,
        "iszero(lt("@ == "iszero("@ + "lt"@ + "("@,
        "iszero(gt("@ == "iszero("@ + "gt"@ + "("@,
        "iszero(slt("@ == "iszero("@ + "slt"@ + "("@,
        "iszero(sgt("@ == "iszero("@ + "sgt"@ + "("@,
{
    reveal_strlit("eq");
    reveal_strlit("lt");
    reveal_strlit("gt");
    reveal_strlit("slt");
    reveal_strlit("sgt");
    reveal_strlit("and");
    reveal_strlit("or");
    reveal_strlit("(");
    reveal_strlit("eq(");
    reveal_strlit("lt(");
    reveal_strlit("gt(");
    reveal_strlit("slt(");
    reveal_strlit("sgt(");
    reveal_strlit("and(");
    reveal_strlit("or(");
    reveal_strlit("iszero(");
    reveal_strlit("iszero(eq(");
    reveal_strlit("iszero(lt(");
    reveal_strlit("iszero(gt(");
    reveal_strlit("iszero(slt(");
    reveal_strlit("iszero(sgt(");
    assert("eq("@ =~= "eq"@ + "("@);
    assert("lt("@ =~= "lt"@ + "("@);
    assert("gt("@ =~= "gt"@ + "("@);
    assert("slt("@ =~= "slt"@ + "("@);
    assert("sgt("@ =~= "sgt"@ + "("@);
    assert("and("@ =~= "and"@ + "("@);
    assert("or("@ =~= "or"@ + "("@);
    assert("iszero(eq("@ =~= "iszero("@ + "eq"@ + "("@);
    assert("iszero(lt("@ =~= "iszero("@ + "lt"@ + "("@);
    assert("iszero(gt("@ =~= "iszero("@ + "gt"@ + "("@);
    assert("iszero(slt("@ =~= "iszero("@ + "slt"@ + "("@);
    assert("iszero(sgt("@ =~= "iszero("@ + "sgt"@ + "("@);
}

proof fn lemma_operators()
    ensures
        "=="@ != "!="@,
        "=="@ != "<"@,
        "=="@ != ">"@,
        "=="@ != "<="@,
        "=="@ != ">="@,
        "!="@ != "<"@,
        "!="@ != ">"@,
        "!="@ != "<="@,
        "!="@ != ">="@,
        "<"@ != ">"@,
        "<"@ != "<="@,
        "<"@ != ">="@,
        ">"@ != "<="@,
        ">"@ != ">="@,
        "<="@ != ">="@,
        !is_comparison("&&"@),
        !is_comparison("||"@),
        "&&"@ != "||"@,
        forall|op: Seq<char>|
            #![trigger is_comparison(op)]
            is_comparison(op) || op == "&&"@ || op == "||"@ ==> op != "+"@ && op != "-"@ && op
                != "*"@ && op != "**"@ && op != "/"@ && op != "%"@,
{
    reveal_strlit("==");
    assert("=="@.len() == 2 && "=="@[0] == '=' && "=="@[1] == '=');
    reveal_strlit("!=");
    assert("!="@.len() == 2 && "!="@[0] == '!' && "!="@[1] == '=');
    reveal_strlit("<");
    assert("<"@.len() == 1 && "<"@[0] == '<');
    reveal_strlit(">");
    assert(">"@.len() == 1 && ">"@[0] == '>');
    reveal_strlit("<=");
    assert("<="@.len() == 2 && "<="@[0] == '<' && "<="@[1] == '=');
    reveal_strlit(">=");
    assert(">="@.len() == 2 && ">="@[0] == '>' && ">="@[1] == '=');
    reveal_strlit("&&");
    assert("&&"@.len() == 2 && "&&"@[0] == '&' && "&&"@[1] == '&');
    reveal_strlit("||");
    assert("||"@.len() == 2 && "||"@[0] == '|' && "||"@[1] == '|');
    reveal_strlit("+");
    assert("+"@.len() == 1 && "+"@[0] == '+');
    reveal_strlit("-");
    assert("-"@.len() == 1 && "-"@[0] == '-');
    reveal_strlit("*");
    assert("*"@.len() == 1 && "*"@[0] == '*');
    reveal_strlit("**");
    assert("**"@.len() == 2 && "**"@[0] == '*' && "**"@[1] == '*');
    reveal_strlit("/");
    assert("/"@.len() == 1 && "/"@[0] == '/');
    reveal_strlit("%");
    assert("%"@.len() == 1 && "%"@[0] == '%');
}

/// The code of a comparison gives 1 exactly where the relation holds of the two operands,
/// read as signed numbers or as unsigned ones, and 0 elsewhere.
pub proof fn law_comparison(op: Seq<char>, x: YulExpr, y: YulExpr, is_signed: bool)
    requires
        is_comparison(op),
    ensures
        exists|e: YulExpr| #[trigger]
            expr_text(e) == compare_op_spec(op, expr_text(x), expr_text(y), is_signed) && computes(
                e,
                x,
                y,
                |a: int, b: int|
                    truth(relation(op, number_of(a, is_signed), number_of(b, is_signed))),
            ),
{
    lemma_heads();
    lemma_operators();
    let t = compare_op_spec(op, expr_text(x), expr_text(y), is_signed);
    let f = |a: int, b: int|
        truth(relation(op, number_of(a, is_signed), number_of(b, is_signed)));
    let (o, negated) = if op == "=="@ {
        (Op::Eq, false)
    } else if op == "!="@ {
        (Op::Eq, true)
    } else if op == "<"@ {
        (if is_signed { Op::Slt } else { Op::Lt }, false)
    } else if op == ">"@ {
        (if is_signed { Op::Sgt } else { Op::Gt }, false)
    } else if op == "<="@ {
        (if is_signed { Op::Sgt } else { Op::Gt }, true)
    } else {
        (if is_signed { Op::Slt } else { Op::Lt }, true)
    };
    let inner = op2(o, x, y);
    let e = if negated { op1(Op::Iszero, inner) } else { inner };
    if negated {
        lemma_negated(t, o, x, y, "iszero("@ + op_name(o) + "("@);
    } else {
        lemma_plain(t, o, x, y, op_name(o) + "("@);
    }
    assert(expr_text(e) == t);
    assert(computes(e, x, y, f)) by {
        reveal(apply);
        reveal(signed);
    }
}

/// `==` and `!=` never agree: on operands that are evaluated without a revert, the code of
/// one gives 1 where the code of the other gives 0.
pub proof fn law_equal_or_different(x: YulExpr, y: YulExpr, is_signed: bool)
    ensures
        exists|e: YulExpr, n: YulExpr|
            #![trigger expr_text(e), expr_text(n)]
            expr_text(e) == compare_op_spec("=="@, expr_text(x), expr_text(y), is_signed)
                && expr_text(n) == compare_op_spec("!="@, expr_text(x), expr_text(y), is_signed)
                && computes(e, x, y, |a: int, b: int| truth(a == b)) && computes(
                n,
                x,
                y,
                |a: int, b: int| 1 - truth(a == b),
            ),
{
    lemma_operators();
    reveal(signed);
    law_comparison("=="@, x, y, is_signed);
    law_comparison("!="@, x, y, is_signed);
    let fe = |a: int, b: int|
        truth(relation("=="@, number_of(a, is_signed), number_of(b, is_signed)));
    let fn_ = |a: int, b: int|
        truth(relation("!="@, number_of(a, is_signed), number_of(b, is_signed)));
    let e = choose|e: YulExpr| #[trigger]
        expr_text(e) == compare_op_spec("=="@, expr_text(x), expr_text(y), is_signed) && computes(
            e,
            x,
            y,
            fe,
        );
    let n = choose|e: YulExpr| #[trigger]
        expr_text(e) == compare_op_spec("!="@, expr_text(x), expr_text(y), is_signed) && computes(
            e,
            x,
            y,
            fn_,
        );
    assert(computes(e, x, y, |a: int, b: int| truth(a == b)));
    assert(computes(n, x, y, |a: int, b: int| 1 - truth(a == b)));
}

/// The code of `&&` and of `||` on two truths gives the truth of both, and of either.
pub proof fn law_connectives(x: YulExpr, y: YulExpr, is_signed: bool)
    ensures
        exists|e: YulExpr| #[trigger]
            expr_text(e) == compare_op_spec("&&"@, expr_text(x), expr_text(y), is_signed)
                && computes_truth(e, x, y, |a: bool, b: bool| a && b),
        exists|e: YulExpr| #[trigger]
            expr_text(e) == compare_op_spec("||"@, expr_text(x), expr_text(y), is_signed)
                && computes_truth(e, x, y, |a: bool, b: bool| a || b),
{
    lemma_heads();
    lemma_operators();
    let u = op2(Op::And, x, y);
    let v = op2(Op::Or, x, y);
    lemma_plain(
        compare_op_spec("&&"@, expr_text(x), expr_text(y), is_signed),
        Op::And,
        x,
        y,
        "and("@,
    );
    lemma_plain(
        compare_op_spec("||"@, expr_text(x), expr_text(y), is_signed),
        Op::Or,
        x,
        y,
        "or("@,
    );
    law_bits_of_truths(true, true);
    law_bits_of_truths(true, false);
    law_bits_of_truths(false, true);
    law_bits_of_truths(false, false);
    assert(computes_truth(u, x, y, |a: bool, b: bool| a && b)) by {
        reveal(apply);
    }
    assert(computes_truth(v, x, y, |a: bool, b: bool| a || b)) by {
        reveal(apply);
    }
}

/// As `computes`, on operands that are truths.
pub open spec fn computes_truth(
    e: YulExpr,
    x: YulExpr,
    y: YulExpr,
    f: spec_fn(bool, bool) -> bool,
) -> bool {
    forall|p: Map<Seq<char>, YulFn>, m: Machine, d: nat|
        {
            let b = eval(p, m, y, d);
            let a = eval(p, b.m, x, d);
            b.end == End::Next && a.end == End::Next && (a.v == 0 || a.v == 1) && (b.v == 0 || b.v
                == 1) ==> #[trigger] eval(p, m, e, d) == give(a.m, truth(f(a.v == 1, b.v == 1)))
        }
}

/// The signedness of a number type, and nothing for another type.
pub open spec fn signedness(t: TypeV) -> Option<bool> {
    match t {
        TypeV::Primitive(n) => if n == "u8"@ || n == "u16"@ || n == "u32"@ || n == "u64"@ || n
            == "u128"@ || n == "u256"@ {
            Some(false)
        } else if n == "i8"@ || n == "i16"@ || n == "i32"@ || n == "i64"@ || n == "i128"@ || n
            == "i256"@ || n == "f32"@ || n == "f64"@ {
            Some(true)
        } else {
            None
        },
        _ => None,
    }
}

proof fn lemma_signedness(n: Seq<char>)
    ensures
        signedness(TypeV::Primitive(n)) == (match numeric_spec(n) {
            Some(m) => Some(m.1),
            None => None,
        }),
{
    reveal_strlit("u8");
    reveal_strlit("u16");
    reveal_strlit("u32");
    reveal_strlit("u64");
    reveal_strlit("u128");
    reveal_strlit("u256");
    reveal_strlit("i8");
    reveal_strlit("i16");
    reveal_strlit("i32");
    reveal_strlit("i64");
    reveal_strlit("i128");
    reveal_strlit("i256");
    reveal_strlit("f32");
    reveal_strlit("f64");
    assert("u8"@[0] == 'u' && "u16"@[0] == 'u' && "u32"@[0] == 'u' && "u64"@[0] == 'u' && "u128"@[0]
        == 'u' && "u256"@[0] == 'u');
    assert("i8"@[0] == 'i' && "i16"@[0] == 'i' && "i32"@[0] == 'i' && "i64"@[0] == 'i' && "i128"@[0]
        == 'i' && "i256"@[0] == 'i');
    assert("f32"@[0] == 'f' && "f64"@[0] == 'f');
}

/// A comparison of two expressions compares what the code of the two gives. Where both are
/// numbers of one signedness, or one is and the other is a literal, that is how the words are
/// read; where neither is a number, they are read as unsigned.
pub proof fn law_comparison_of_expressions(
    g: EnvV,
    st: StV,
    cx: CtxV,
    left: ExprV,
    right: ExprV,
    op: Seq<char>,
    x: YulExpr,
    y: YulExpr,
    is_signed: bool,
)
    requires
        is_comparison(op),
        ({
            let (st1, a) = translate_expr_spec(g, st, cx, left);
            let (st2, b) = translate_expr_spec(g, st1, cx, right);
            expr_text(x) == a && expr_text(y) == b
        }),
        !(str_type(static_type_spec(g, cx, left)) && str_type(static_type_spec(g, cx, right))),
        ({
            let l = signedness(static_type_spec(g, cx, left));
            let r = signedness(static_type_spec(g, cx, right));
            ||| l == Some(is_signed) && r == Some(is_signed)
            ||| l == Some(is_signed) && right is Number && !(left is Number)
            ||| r == Some(is_signed) && left is Number && !(right is Number)
            ||| l is None && r is None && !is_signed
        }),
    ensures
        exists|e: YulExpr| #[trigger]
            expr_text(e) == translate_binary_op_spec(
                g,
                st,
                cx,
                (ExprV::BinaryOp { left: Box::new(left), operator: op, right: Box::new(right) }),
            ).1 && computes(
                e,
                x,
                y,
                |a: int, b: int|
                    truth(relation(op, number_of(a, is_signed), number_of(b, is_signed))),
            ),
{
    let whole = ExprV::BinaryOp { left: Box::new(left), operator: op, right: Box::new(right) };
    lemma_operators();
    assert(is_comparison(op));
    let lt = static_type_spec(g, cx, left);
    let rt = static_type_spec(g, cx, right);
    if lt is Primitive {
        lemma_signedness(lt->Primitive_0);
    }
    if rt is Primitive {
        lemma_signedness(rt->Primitive_0);
    }
    let meta = binary_op_meta_spec(g, cx, left, right);
    assert(is_signed_spec(meta) == is_signed);
    assert(const_fold_spec(left, right, op, meta) is None);
    reveal(translate_binary_op_spec);
    reveal(translate_expr_spec);
    reveal(arithmetic_spec);
    assert(translate_binary_op_spec(g, st, cx, whole).1 == compare_op_spec(
        op,
        expr_text(x),
        expr_text(y),
        is_signed,
    ));
    law_comparison(op, x, y, is_signed);
}

} // verus!
