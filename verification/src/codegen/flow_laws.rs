//! What the code of `if` and `while` does.
use crate::ast::{ExprV, SpannedV, StmtV};
use crate::codegen::tr_expr::translate_expr_spec;
use crate::codegen::tr_stmt::{body_spec, translate_branch_spec, translate_statement_spec};
use crate::codegen::translator::{CtxV, EnvV, StV};
use crate::codegen::yul_num::lemma_numbers;
use crate::codegen::yul_run::{
    closed, eval, exec, group_steps, law_code_follows, pick, run, run_first, turns, End, Machine,
};
use crate::codegen::yul_tree::{
    both, cases_text, code_text, expr_text, law_code_joins, none, parts_text, stmt_text, tail, Code,
    YulExpr, YulFn, YulStmt,
};
use vstd::prelude::*;

verus! {

/// What a block of code does.
pub open spec fn block(p: Map<Seq<char>, YulFn>, m: Machine, c: Code, d: nat) -> (Machine, End) {
    let (after, end) = run(p, m, c, d);
    (closed(m, after), end)
}

/// Code on lines of its own.
pub open spec fn lines(c: Code) -> Code {
    both(tail(none(), "\n"@), c)
}

proof fn lemma_lines(c: Code)
    ensures
        parts_text(lines(c).parts, lines(c).parts.len()) + lines(c).tail == "\n"@ + code_text(c),
        forall|p: Map<Seq<char>, YulFn>, m: Machine, d: nat| #[trigger]
            run(p, m, lines(c), d) == run(p, m, c, d),
{
    let nl = tail(none(), "\n"@);
    law_code_joins(nl, c);
    assert(code_text(nl) =~= "\n"@);
    assert forall|p: Map<Seq<char>, YulFn>, m: Machine, d: nat| #[trigger]
        run(p, m, lines(c), d) == run(p, m, c, d) by {
        law_code_follows(p, m, nl, c, d);
        assert(run(p, m, nl, d) == (m, End::Next)) by {
            broadcast use group_steps;

        }
    }
}

/// Whether a statement, on any machine, evaluates a condition once and then runs one piece of
/// code where the condition is not zero and another where it is.
pub open spec fn branches(s: YulStmt, c: YulExpr, yes: Code, no: Code) -> bool {
    forall|p: Map<Seq<char>, YulFn>, m: Machine, d: nat|
        {
            let o = eval(p, m, c, d);
            o.end == End::Next ==> #[trigger] exec(p, m, s, d) == (if o.v != 0 {
                block(p, o.m, yes, d)
            } else {
                block(p, o.m, no, d)
            })
        }
}

proof fn lemma_if_else(c: YulExpr, yes: Code, no: Code)
    ensures
        ({
            let s = YulStmt::Switch(
                c,
                seq![("\n"@, "0"@, lines(no))],
                Some(("\n"@, lines(yes))),
            );
            &&& stmt_text(s) + "\n"@ == "switch "@ + expr_text(c) + "\ncase 0 {\n"@ + code_text(no)
                + "}\ndefault {\n"@ + code_text(yes) + "}\n"@
            &&& branches(s, c, yes, no)
        }),
{
    lemma_lines(yes);
    lemma_lines(no);
    lemma_numbers();
    let cases = seq![("\n"@, "0"@, lines(no))];
    let s = YulStmt::Switch(c, cases, Some(("\n"@, lines(yes))));
    let (y, n) = (lines(yes), lines(no));
    let ty = parts_text(y.parts, y.parts.len()) + y.tail;
    let tn = parts_text(n.parts, n.parts.len()) + n.tail;
    assert(cases_text(cases, 0) =~= Seq::<char>::empty());
    assert(cases_text(cases, 1) =~= "\n"@ + "case "@ + "0"@ + " {"@ + tn + "}"@);
    assert(stmt_text(s) =~= "switch "@ + expr_text(c) + cases_text(cases, 1) + ("\n"@
        + "default {"@ + ty + "}"@));
    assert("\ncase 0 {\n"@ =~= "\n"@ + "case "@ + "0"@ + " {"@ + "\n"@) by {
        reveal_strlit("\ncase 0 {\n");
        reveal_strlit("\n");
        reveal_strlit("case ");
        reveal_strlit("0");
        reveal_strlit(" {");
    }
    assert("}\ndefault {\n"@ =~= "}"@ + "\n"@ + "default {"@ + "\n"@) by {
        reveal_strlit("}\ndefault {\n");
        reveal_strlit("\n");
        reveal_strlit("default {");
        reveal_strlit("}");
    }
    assert("}\n"@ =~= "}"@ + "\n"@) by {
        reveal_strlit("}\n");
        reveal_strlit("\n");
        reveal_strlit("}");
    }
    let (a, b) = (code_text(no), code_text(yes));
    assert(stmt_text(s) + "\n"@ =~= "switch "@ + expr_text(c) + "\ncase 0 {\n"@ + a
        + "}\ndefault {\n"@ + b + "}\n"@);
    assert forall|p: Map<Seq<char>, YulFn>, m: Machine, d: nat|
        {
            let o = eval(p, m, c, d);
            o.end == End::Next ==> #[trigger] exec(p, m, s, d) == (if o.v != 0 {
                block(p, o.m, yes, d)
            } else {
                block(p, o.m, no, d)
            })
        } by {
        let o = eval(p, m, c, d);
        lemma_switch(p, m, d, c, y, n);
        assert(run(p, o.m, y, d) == run(p, o.m, yes, d));
        assert(run(p, o.m, n, d) == run(p, o.m, no, d));
    }
}

/// What a `switch` on zero does.
proof fn lemma_switch(
    p: Map<Seq<char>, YulFn>,
    m: Machine,
    d: nat,
    c: YulExpr,
    yes: Code,
    no: Code,
)
    ensures
        ({
            let o = eval(p, m, c, d);
            let s = YulStmt::Switch(c, seq![("\n"@, "0"@, no)], Some(("\n"@, yes)));
            o.end == End::Next ==> exec(p, m, s, d) == (if o.v != 0 {
                block(p, o.m, yes, d)
            } else {
                block(p, o.m, no, d)
            })
        }),
{
    let o = eval(p, m, c, d);
    let s = YulStmt::Switch(c, seq![("\n"@, "0"@, no)], Some(("\n"@, yes)));
    lemma_numbers();
    assert(exec(p, m, s, d) == (if o.end != End::Next {
        (o.m, o.end)
    } else {
        pick(p, o.m, o.v, s, 0, d)
    })) by {
        reveal(exec);
        reveal(eval);
        reveal(run_first);
        reveal(pick);
    }
    assert(pick(p, o.m, o.v, s, 1, d) == block(p, o.m, yes, d)) by {
        reveal(pick);
        reveal(run_first);
    }
    assert(pick(p, o.m, o.v, s, 0, d) == (if o.v == 0 {
        block(p, o.m, no, d)
    } else {
        pick(p, o.m, o.v, s, 1, d)
    })) by {
        reveal(pick);
        reveal(run_first);
    }
}

proof fn lemma_if(c: YulExpr, yes: Code)
    ensures
        ({
            let s = YulStmt::If(c, lines(yes));
            &&& stmt_text(s) + "\n"@ == "if "@ + expr_text(c) + " {\n"@ + code_text(yes) + "}\n"@
            &&& branches(s, c, yes, none())
        }),
{
    lemma_lines(yes);
    let s = YulStmt::If(c, lines(yes));
    let y = lines(yes);
    let ty = parts_text(y.parts, y.parts.len()) + y.tail;
    assert(stmt_text(s) =~= "if "@ + expr_text(c) + " {"@ + ty + "}"@);
    assert(" {\n"@ =~= " {"@ + "\n"@) by {
        reveal_strlit(" {\n");
        reveal_strlit(" {");
        reveal_strlit("\n");
    }
    assert("}\n"@ =~= "}"@ + "\n"@) by {
        reveal_strlit("}\n");
        reveal_strlit("\n");
        reveal_strlit("}");
    }
    assert(stmt_text(s) + "\n"@ =~= "if "@ + expr_text(c) + " {\n"@ + code_text(yes) + "}\n"@);
    assert forall|p: Map<Seq<char>, YulFn>, m: Machine, d: nat|
        {
            let o = eval(p, m, c, d);
            o.end == End::Next ==> #[trigger] exec(p, m, s, d) == (if o.v != 0 {
                block(p, o.m, yes, d)
            } else {
                block(p, o.m, none(), d)
            })
        } by {
        broadcast use group_steps;

        let o = eval(p, m, c, d);
        assert(run(p, o.m, y, d) == run(p, o.m, yes, d));
        assert(closed(o.m, o.m).vars =~= o.m.vars);
    }
}

/// An `if` runs its first body exactly where the condition is not zero, and the other body,
/// or nothing, where it is. The condition is read once.
pub proof fn law_if(
    g: EnvV,
    st: StV,
    cx: CtxV,
    condition: ExprV,
    if_body: Seq<SpannedV>,
    else_body: Option<Seq<SpannedV>>,
    c: YulExpr,
    yes: Code,
    no: Code,
)
    requires
        ({
            let (st1, t) = translate_expr_spec(g, st, cx, condition);
            let (st2, cx2, y) = body_spec(g, st1, cx, if_body, if_body.len());
            &&& expr_text(c) == t
            &&& code_text(yes) == y
            &&& match else_body {
                Some(b) => code_text(no) == body_spec(g, st2, cx2, b, b.len()).2,
                None => no == none(),
            }
        }),
    ensures
        exists|s: YulStmt|
            translate_statement_spec(
                g,
                st,
                cx,
                (StmtV::IfElse { condition, if_body, else_body }),
            ).2 == #[trigger] stmt_text(s) + "\n"@ && branches(s, c, yes, no),
{
    reveal(translate_statement_spec);
    reveal(translate_branch_spec);
    reveal(translate_expr_spec);
    let w = StmtV::IfElse { condition, if_body, else_body };
    let (st1, t) = translate_expr_spec(g, st, cx, condition);
    let (st2, cx2, y) = body_spec(g, st1, cx, if_body, if_body.len());
    match else_body {
        Some(b) => {
            lemma_if_else(c, yes, no);
            let s = YulStmt::Switch(
                c,
                seq![("\n"@, "0"@, lines(no))],
                Some(("\n"@, lines(yes))),
            );
            assert(translate_branch_spec(g, st, cx, w).2 == stmt_text(s) + "\n"@);
        },
        None => {
            lemma_if(c, yes);
            let s = YulStmt::If(c, lines(yes));
            assert(translate_branch_spec(g, st, cx, w).2 == stmt_text(s) + "\n"@);
        },
    }
}

/// Whether a statement loops: it ends where the condition is zero; where it is not, it runs
/// the body and, with one turn less to go, loops again.
pub open spec fn loops(s: YulStmt, c: YulExpr, body: Code) -> bool {
    forall|p: Map<Seq<char>, YulFn>, m: Machine, d: nat|
        {
            let o = eval(p, m, c, d);
            let (k, end) = block(p, o.m, body, d);
            let out = #[trigger] turns(p, m, s, d);
            &&& exec(p, m, s, d) == (closed(m, out.0), out.1)
            &&& o.end == End::Next && o.v == 0 ==> out == (o.m, End::Next)
            &&& o.end == End::Next && o.v != 0 && d > 0 && end == End::Next ==> out == turns(
                p,
                k,
                s,
                (d - 1) as nat,
            )
            &&& o.end == End::Next && o.v != 0 && d > 0 && end != End::Next ==> out == (k, end)
        }
}

/// A `while` runs its body as long as the condition is not zero, and reads the condition
/// again before each turn.
pub proof fn law_while(
    g: EnvV,
    st: StV,
    cx: CtxV,
    condition: ExprV,
    body: Seq<SpannedV>,
    c: YulExpr,
    inner: Code,
)
    requires
        ({
            let (st1, t) = translate_expr_spec(g, st, cx, condition);
            &&& expr_text(c) == t
            &&& code_text(inner) == body_spec(g, st1, cx, body, body.len()).2
        }),
    ensures
        exists|s: YulStmt|
            translate_statement_spec(g, st, cx, (StmtV::WhileLoop { condition, body })).2
                == #[trigger] stmt_text(s) + "\n"@ && loops(s, c, inner),
{
    reveal(translate_statement_spec);
    reveal(translate_expr_spec);
    let b = lines(inner);
    let s = YulStmt::For(none(), c, none(), b);
    lemma_lines(inner);
    let tb = parts_text(b.parts, b.parts.len()) + b.tail;
    let e = Seq::<char>::empty();
    assert(parts_text(none().parts, none().parts.len()) =~= e);
    assert(stmt_text(s) =~= "for {"@ + "} "@ + expr_text(c) + " {"@ + "} {"@ + tb + "}"@);
    assert("for {} "@ =~= "for {"@ + "} "@) by {
        reveal_strlit("for {} ");
        reveal_strlit("for {");
        reveal_strlit("} ");
    }
    assert(" {} {\n"@ =~= " {"@ + "} {"@ + "\n"@) by {
        reveal_strlit(" {} {\n");
        reveal_strlit(" {");
        reveal_strlit("} {");
        reveal_strlit("\n");
    }
    assert("}\n"@ =~= "}"@ + "\n"@) by {
        reveal_strlit("}\n");
        reveal_strlit("\n");
        reveal_strlit("}");
    }
    let t = code_text(inner);
    assert(stmt_text(s) + "\n"@ =~= "for {} "@ + expr_text(c) + " {} {\n"@ + t + "}\n"@);
    assert forall|p: Map<Seq<char>, YulFn>, m: Machine, d: nat|
        {
            let o = eval(p, m, c, d);
            let (k, end) = block(p, o.m, inner, d);
            let out = #[trigger] turns(p, m, s, d);
            &&& exec(p, m, s, d) == (closed(m, out.0), out.1)
            &&& o.end == End::Next && o.v == 0 ==> out == (o.m, End::Next)
            &&& o.end == End::Next && o.v != 0 && d > 0 && end == End::Next ==> out == turns(
                p,
                k,
                s,
                (d - 1) as nat,
            )
            &&& o.end == End::Next && o.v != 0 && d > 0 && end != End::Next ==> out == (k, end)
        } by {
        let o = eval(p, m, c, d);
        let (k, end) = block(p, o.m, inner, d);
        assert(run(p, o.m, b, d) == run(p, o.m, inner, d));
        assert(run(p, m, none(), d) == (m, End::Next) && run(p, k, none(), d) == (k, End::Next)) by {
            broadcast use group_steps;

        }
        assert(closed(k, k).vars =~= k.vars);
        reveal(exec);
        reveal(eval);
        reveal(run_first);
        reveal_with_fuel(turns, 2);
    }
}

} // verus!
